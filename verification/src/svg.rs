//! The paths of an SVG document, grouped by the colour of their stroke.

use vstd::prelude::*;
use crate::paths::{PathColour, PathsByColour};

verus! {

/// What a stroke is painted with.
#[derive(Debug, Clone, Copy, PartialEq, Eq)]
pub enum Paint {
    /// A solid colour: red, green and blue.
    Colour(u8, u8, u8),
    /// A gradient or a pattern.
    Other,
}

/// A path of the document. `G` is whatever stands for its geometry.
#[derive(Debug, Clone, PartialEq, Eq)]
pub struct SvgPath<G> {
    /// Whether the path is visible.
    pub visible: bool,
    /// What the stroke of the path is painted with, if it has a stroke.
    pub stroke: Option<Paint>,
    /// The geometry of the path.
    pub geometry: G,
}

/// What a node of the document is.
pub enum SvgNodeKind<G> {
    /// A group of nodes.
    Group(SvgGroup<G>),
    /// A path.
    Path(SvgPath<G>),
    /// An image.
    Image,
    /// A text.
    Text,
}

/// A node of the document, with the groups that it refers to besides its
/// children: clip paths, masks, patterns and the like.
pub struct SvgNode<G> {
    /// What the node is.
    pub kind: SvgNodeKind<G>,
    /// The groups that the node refers to.
    pub subroots: Vec<SvgGroup<G>>,
}

/// A group of nodes, in document order.
pub struct SvgGroup<G> {
    /// The nodes of the group.
    pub children: Vec<SvgNode<G>>,
}

/// The colour that a path is cut in: that of its stroke, where the path is
/// visible and its stroke is a solid colour. Fills and gradients do not cut.
pub open spec fn cut_colour<G>(path: SvgPath<G>) -> Option<(u8, u8, u8)> {
    match path.stroke {
        Some(Paint::Colour(r, g, b)) if path.visible => Some((r, g, b)),
        _ => None,
    }
}

/// The paths that are cut in what a node is: those of a group, a path
/// itself where it is cut, and nothing of an image or a text.
pub open spec fn own_strokes<G>(node: SvgNode<G>) -> Seq<((u8, u8, u8), G)>
    decreases node, 0nat,
{
    match node.kind {
        SvgNodeKind::Group(group) => group_strokes(group),
        SvgNodeKind::Path(path) => match cut_colour(path) {
            Some(colour) => seq![(colour, path.geometry)],
            None => Seq::empty(),
        },
        SvgNodeKind::Image => Seq::empty(),
        SvgNodeKind::Text => Seq::empty(),
    }
}

/// Whether a node is passed over together with the groups that it refers
/// to: a path that has a stroke but is not visible.
pub open spec fn is_passed_over<G>(node: SvgNode<G>) -> bool {
    match node.kind {
        SvgNodeKind::Path(path) => path.stroke is Some && !path.visible,
        _ => false,
    }
}

/// The paths that are cut among a node and all below it, each with its
/// colour, in the order of a depth-first walk: the node itself, then the
/// groups that it refers to.
pub open spec fn node_strokes<G>(node: SvgNode<G>) -> Seq<((u8, u8, u8), G)>
    decreases node, 1nat,
{
    if is_passed_over(node) {
        Seq::empty()
    } else {
        own_strokes(node) + groups_strokes(node.subroots, node.subroots@.len())
    }
}

/// The paths that are cut in a group, child after child.
pub open spec fn group_strokes<G>(group: SvgGroup<G>) -> Seq<((u8, u8, u8), G)>
    decreases group, 0nat,
{
    nodes_strokes(group.children, group.children@.len())
}

/// The paths that are cut in the first `count` of some nodes.
pub open spec fn nodes_strokes<G>(nodes: Vec<SvgNode<G>>, count: nat) -> Seq<((u8, u8, u8), G)>
    decreases nodes, count,
{
    if count == 0 || count > nodes@.len() {
        Seq::empty()
    } else {
        nodes_strokes(nodes, (count - 1) as nat) + node_strokes(nodes[count - 1])
    }
}

/// The paths that are cut in the first `count` of some groups.
pub open spec fn groups_strokes<G>(groups: Vec<SvgGroup<G>>, count: nat) -> Seq<((u8, u8, u8), G)>
    decreases groups, count,
{
    if count == 0 || count > groups@.len() {
        Seq::empty()
    } else {
        groups_strokes(groups, (count - 1) as nat) + group_strokes(groups[count - 1])
    }
}

/// The geometries that have the given colour, in their order.
pub open spec fn of_colour<G>(strokes: Seq<((u8, u8, u8), G)>, colour: (u8, u8, u8)) -> Seq<G>
    decreases strokes.len(),
{
    if strokes.len() == 0 {
        Seq::empty()
    } else {
        let earlier = of_colour(strokes.drop_last(), colour);
        if strokes.last().0 == colour {
            earlier.push(strokes.last().1)
        } else {
            earlier
        }
    }
}

/// Picking a colour from two runs of strokes is picking it from each.
pub proof fn lemma_of_colour_concat<G>(
    first: Seq<((u8, u8, u8), G)>,
    second: Seq<((u8, u8, u8), G)>,
    colour: (u8, u8, u8),
)
    ensures
        of_colour(first + second, colour) == of_colour(first, colour) + of_colour(second, colour),
    decreases second.len(),
{
    if second.len() == 0 {
        assert(first + second =~= first);
        assert(of_colour(first, colour) + of_colour(second, colour) =~= of_colour(first, colour));
    } else {
        assert((first + second).drop_last() =~= first + second.drop_last());
        lemma_of_colour_concat(first, second.drop_last(), colour);
        assert(of_colour(first + second, colour) =~= of_colour(first, colour) + of_colour(
            second,
            colour,
        ));
    }
}

/// Whether `after` holds what `before` held and, behind it, the strokes given.
pub open spec fn holds_more<G>(
    after: PathsByColour<G>,
    before: PathsByColour<G>,
    strokes: Seq<((u8, u8, u8), G)>,
) -> bool {
    forall|colour: (u8, u8, u8)| #[trigger]
        after.bucket(colour) == before.bucket(colour) + of_colour(strokes, colour)
}

/// Finds all of the paths in the SVG and groups them by their stroke colour.
///
/// Every visible path with a stroke of a solid colour is found, wherever it
/// is in the document: in nested groups and in the groups that nodes refer
/// to. Within a colour the paths are in document order. Images and text are
/// ignored, and so are fills and gradients: only strokes cut.
pub fn get_paths_grouped_by_colour<G: Copy>(svg: &SvgGroup<G>) -> (grouped_paths: PathsByColour<G>)
    ensures
        forall|colour: (u8, u8, u8)| #[trigger]
            grouped_paths.bucket(colour) == of_colour(group_strokes(*svg), colour),
{
    let mut grouped_paths = PathsByColour::new();
    let ghost empty = grouped_paths;
    group_paths_by_colour(svg, &mut grouped_paths);
    proof {
        assert forall|colour: (u8, u8, u8)| #[trigger]
            grouped_paths.bucket(colour) == of_colour(group_strokes(*svg), colour) by {
            assert(empty.bucket(colour) + of_colour(group_strokes(*svg), colour) =~= of_colour(
                group_strokes(*svg),
                colour,
            ));
        }
    }
    grouped_paths
}

/// Does the actual grouping of paths by colour for one group, which may
/// contain nested groups. Images and text are ignored.
pub fn group_paths_by_colour<G: Copy>(group: &SvgGroup<G>, grouped_paths: &mut PathsByColour<G>)
    ensures
        holds_more(*final(grouped_paths), *old(grouped_paths), group_strokes(*group)),
    decreases group, 2nat,
{
    let mut i: usize = 0;
    proof {
        assert forall|colour: (u8, u8, u8)| #[trigger]
            grouped_paths.bucket(colour) == old(grouped_paths).bucket(colour) + of_colour(
                nodes_strokes(group.children, 0),
                colour,
            ) by {
            assert(old(grouped_paths).bucket(colour) + Seq::<G>::empty() =~= old(
                grouped_paths,
            ).bucket(colour));
        }
    }
    while i < group.children.len()
        invariant
            i <= group.children@.len(),
            holds_more(*grouped_paths, *old(grouped_paths), nodes_strokes(group.children, i as nat)),
        decreases group.children@.len() - i,
    {
        let ghost before = *grouped_paths;
        let ghost earlier = nodes_strokes(group.children, i as nat);
        let ghost added = node_strokes(group.children[i as int]);
        node_paths_by_colour(&group.children[i], grouped_paths);
        proof {
            assert forall|colour: (u8, u8, u8)| #[trigger]
                grouped_paths.bucket(colour) == old(grouped_paths).bucket(colour) + of_colour(
                    nodes_strokes(group.children, (i + 1) as nat),
                    colour,
                ) by {
                lemma_of_colour_concat(earlier, added, colour);
                assert(before.bucket(colour) == old(grouped_paths).bucket(colour) + of_colour(
                    earlier,
                    colour,
                ));
                assert(grouped_paths.bucket(colour) == before.bucket(colour) + of_colour(
                    added,
                    colour,
                ));
                assert((old(grouped_paths).bucket(colour) + of_colour(earlier, colour))
                    + of_colour(added, colour) =~= old(grouped_paths).bucket(colour) + (of_colour(
                    earlier,
                    colour,
                ) + of_colour(added, colour)));
            }
        }
        i += 1;
    }
}

/// Groups the paths of one node and of the groups that it refers to.
fn node_paths_by_colour<G: Copy>(node: &SvgNode<G>, grouped_paths: &mut PathsByColour<G>)
    ensures
        holds_more(*final(grouped_paths), *old(grouped_paths), node_strokes(*node)),
    decreases node, 2nat,
{
    let ghost own = own_strokes(*node);
    match &node.kind {
        SvgNodeKind::Group(child_group) => {
            group_paths_by_colour(child_group, grouped_paths);
        },
        SvgNodeKind::Path(path) => {
            let mut stroked: Option<PathColour> = None;
            if path.visible {
                match path.stroke {
                    Some(Paint::Colour(r, g, b)) => {
                        stroked = Some(PathColour([r, g, b]));
                    },
                    _ => {},
                }
            }
            match stroked {
                Some(colour) => {
                    grouped_paths.push_path(colour, path.geometry);
                    proof {
                        let stroke = (colour@, path.geometry);
                        assert(own =~= seq![stroke]);
                        assert(own.drop_last() =~= Seq::<((u8, u8, u8), G)>::empty());
                        assert forall|other: (u8, u8, u8)| #[trigger]
                            grouped_paths.bucket(other) == old(grouped_paths).bucket(other)
                                + of_colour(own, other) by {
                            reveal_with_fuel(of_colour, 2);
                            if other == colour@ {
                                assert(of_colour(own, other) =~= seq![path.geometry]);
                                assert(old(grouped_paths).bucket(other).push(path.geometry)
                                    =~= old(grouped_paths).bucket(other) + seq![path.geometry]);
                            } else {
                                assert(of_colour(own, other) =~= Seq::<G>::empty());
                                assert(old(grouped_paths).bucket(other) + Seq::<G>::empty()
                                    =~= old(grouped_paths).bucket(other));
                            }
                        }
                    }
                },
                None => {
                    proof {
                        assert forall|other: (u8, u8, u8)| #[trigger]
                            grouped_paths.bucket(other) == old(grouped_paths).bucket(other)
                                + of_colour(own, other) by {
                            assert(old(grouped_paths).bucket(other) + Seq::<G>::empty()
                                =~= old(grouped_paths).bucket(other));
                        }
                    }
                },
            }
        },
        SvgNodeKind::Image | SvgNodeKind::Text => {
            proof {
                assert forall|other: (u8, u8, u8)| #[trigger]
                    grouped_paths.bucket(other) == old(grouped_paths).bucket(other) + of_colour(
                        own,
                        other,
                    ) by {
                    assert(old(grouped_paths).bucket(other) + Seq::<G>::empty() =~= old(
                        grouped_paths,
                    ).bucket(other));
                }
            }
        },
    }
    let passed_over = match &node.kind {
        SvgNodeKind::Path(path) => path.stroke.is_some() && !path.visible,
        _ => false,
    };
    if passed_over {
        return ;
    }
    let mut k: usize = 0;
    proof {
        assert(own + groups_strokes(node.subroots, 0) =~= own);
    }
    while k < node.subroots.len()
        invariant
            k <= node.subroots@.len(),
            holds_more(
                *grouped_paths,
                *old(grouped_paths),
                own + groups_strokes(node.subroots, k as nat),
            ),
        decreases node.subroots@.len() - k,
    {
        let ghost before = *grouped_paths;
        let ghost earlier = own + groups_strokes(node.subroots, k as nat);
        let ghost added = group_strokes(node.subroots[k as int]);
        group_paths_by_colour(&node.subroots[k], grouped_paths);
        proof {
            assert(own + groups_strokes(node.subroots, (k + 1) as nat) =~= earlier + added);
            assert forall|colour: (u8, u8, u8)| #[trigger]
                grouped_paths.bucket(colour) == old(grouped_paths).bucket(colour) + of_colour(
                    earlier + added,
                    colour,
                ) by {
                lemma_of_colour_concat(earlier, added, colour);
                assert(before.bucket(colour) == old(grouped_paths).bucket(colour) + of_colour(
                    earlier,
                    colour,
                ));
                assert(grouped_paths.bucket(colour) == before.bucket(colour) + of_colour(
                    added,
                    colour,
                ));
                assert((old(grouped_paths).bucket(colour) + of_colour(earlier, colour))
                    + of_colour(added, colour) =~= old(grouped_paths).bucket(colour) + (of_colour(
                    earlier,
                    colour,
                ) + of_colour(added, colour)));
            }
        }
        k += 1;
    }
}

} // verus!
