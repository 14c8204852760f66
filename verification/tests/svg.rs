use seance::design::DesignFile;
use seance::paths::PathColour;
use seance::svg::{
    get_paths_grouped_by_colour, group_paths_by_colour, Paint, SvgGroup, SvgNode, SvgNodeKind,
    SvgPath,
};
use seance::paths::PathsByColour;

fn path(geometry: u32, visible: bool, stroke: Option<Paint>) -> SvgNode<u32> {
    SvgNode { kind: SvgNodeKind::Path(SvgPath { visible, stroke, geometry }), subroots: vec![] }
}

fn group(children: Vec<SvgNode<u32>>) -> SvgNode<u32> {
    SvgNode { kind: SvgNodeKind::Group(SvgGroup { children }), subroots: vec![] }
}

const BLACK: Option<Paint> = Some(Paint::Colour(0, 0, 0));
const RED: Option<Paint> = Some(Paint::Colour(255, 0, 0));

fn document() -> SvgGroup<u32> {
    let clip = SvgGroup { children: vec![path(7, true, RED), path(8, true, BLACK)] };
    let pattern = SvgGroup { children: vec![path(9, true, RED)] };
    SvgGroup {
        children: vec![
            path(1, true, BLACK),
            path(2, true, None),
            SvgNode { kind: SvgNodeKind::Image, subroots: vec![] },
            group(vec![
                path(3, true, RED),
                path(4, false, BLACK),
                group(vec![path(5, true, BLACK)]),
                SvgNode { kind: SvgNodeKind::Text, subroots: vec![pattern] },
            ]),
            path(6, true, Some(Paint::Other)),
            SvgNode {
                kind: SvgNodeKind::Group(SvgGroup { children: vec![path(10, true, RED)] }),
                subroots: vec![clip, SvgGroup { children: vec![] }],
            },
            path(11, true, BLACK),
        ],
    }
}

#[test]
fn stroked_paths_are_grouped_in_document_order() {
    let grouped = get_paths_grouped_by_colour(&document());
    assert_eq!(grouped.len(), 2);
    assert_eq!(grouped.colour_at(0), PathColour([0, 0, 0]));
    assert_eq!(grouped.get(&PathColour([0, 0, 0])), Some(&vec![1, 5, 8, 11]));
    assert_eq!(grouped.get(&PathColour([255, 0, 0])), Some(&vec![3, 9, 10, 7]));
}

#[test]
fn grouping_adds_to_what_is_there() {
    let mut grouped: PathsByColour<u32> = PathsByColour::new();
    grouped.push_path(PathColour([255, 0, 0]), 100);
    group_paths_by_colour(&document(), &mut grouped);
    assert_eq!(grouped.get(&PathColour([255, 0, 0])), Some(&vec![100, 3, 9, 10, 7]));
    assert_eq!(grouped.get(&PathColour([0, 0, 0])), Some(&vec![1, 5, 8, 11]));
}

#[test]
fn documents_without_strokes_give_nothing() {
    let plain = SvgGroup {
        children: vec![path(1, true, None), path(2, false, RED), path(3, true, Some(Paint::Other))],
    };
    assert_eq!(get_paths_grouped_by_colour(&plain).len(), 0);
    assert_eq!(get_paths_grouped_by_colour(&SvgGroup::<u32> { children: vec![] }).len(), 0);
}

#[test]
fn design_file_gives_its_name_and_tree() {
    let design = DesignFile {
        name: "logo".to_string(),
        tree: document(),
        bytes: b"<svg/>".to_vec(),
        width_mm: 100_000,
        height_mm: 50_000,
    };
    assert_eq!(design.name(), "logo");
    assert_eq!(design.tree().children.len(), 7);
}

#[test]
fn invisible_stroked_paths_are_passed_over_with_what_they_refer_to() {
    let pattern = |geometry: u32| SvgGroup { children: vec![path(geometry, true, RED)] };
    let tree = SvgGroup {
        children: vec![
            SvgNode {
                kind: SvgNodeKind::Path(SvgPath { visible: false, stroke: BLACK, geometry: 1 }),
                subroots: vec![pattern(2)],
            },
            SvgNode {
                kind: SvgNodeKind::Path(SvgPath { visible: false, stroke: None, geometry: 3 }),
                subroots: vec![pattern(4)],
            },
            SvgNode {
                kind: SvgNodeKind::Path(SvgPath { visible: true, stroke: BLACK, geometry: 5 }),
                subroots: vec![pattern(6)],
            },
        ],
    };
    let grouped = get_paths_grouped_by_colour(&tree);
    assert_eq!(grouped.get(&PathColour([255, 0, 0])), Some(&vec![4, 6]));
    assert_eq!(grouped.get(&PathColour([0, 0, 0])), Some(&vec![5]));
}
