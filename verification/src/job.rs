//! A print job from the sampled paths of a design to the bytes for the machine.

use vstd::prelude::*;
use vstd::string::*;
use crate::bed::PrintBed;
use crate::hpgl::{
    any_enabled, design_statements, generate_hpgl, lemma_design_statements_depend_on_pass_colours,
    lines_of, program_text, EmitPreconditionFailed, REQUIRED_TOOL_PASSES,
};
use crate::laser_passes::{ToolPass, ToolPassView};
use crate::paths::{
    colour_is_enabled, convert_points_to_plotter_units, filter_paths_to_tool_passes, is_resolved,
    placed_bucket, polylines, resolve_paths, resolved_points, DesignOffset, PathsByColour,
    PointInMillimeters, ResolvedPoint, SampledPath,
};
use crate::pcl::{pcl_text, wrap_hpgl_in_pcl};

verus! {

/// A design to be sent to the printer-like HPGL device.
#[derive(Debug, Clone, PartialEq, Eq)]
pub struct PrintJob {
    /// The raw bytes of the SVG file to be cut.
    pub design_file: Vec<u8>,
    /// The name to be displayed to the user as the name of their design.
    pub file_name: String,
    /// The tool passes to use for cutting the design.
    pub tool_passes: Vec<ToolPass>,
    /// The offset of the design from the top-left, in micrometres.
    pub offset: DesignOffset,
}

/// Errors that can occur when sending the design to the HPGL device.
#[derive(Debug, Clone, PartialEq, Eq)]
pub enum SendToDeviceError {
    /// There was an error while parsing the SVG file.
    ErrorParsingSvg(String),
    /// Failed to write to the printer port.
    FailedToWriteToPrinter(String),
    /// Failed to generate valid HPGL.
    GenerateHpglError(EmitPreconditionFailed),
}

/// The pass that fills a tool program up to the length that the machine needs.
///
/// It is disabled, so it should be skipped; if it is used after all, it has no
/// power and full speed, so that it does nothing destructive and is over quickly.
pub open spec fn skipped_pass() -> ToolPassView {
    ToolPassView { name: "skipped"@, colour: (0, 0, 0), power: 0, speed: 1000, enabled: false }
}

/// A tool program brought to exactly sixteen passes: its first sixteen, or all
/// of them followed by as many skipped passes as are missing.
pub open spec fn is_sixteen_of(padded: Seq<ToolPass>, tool_passes: Seq<ToolPass>) -> bool {
    &&& padded.len() == REQUIRED_TOOL_PASSES
    &&& forall|i: int|
        0 <= i < REQUIRED_TOOL_PASSES ==> (#[trigger] padded[i])@ == if i < tool_passes.len() {
            tool_passes[i]@
        } else {
            skipped_pass()
        }
}

/// Brings a tool program to the sixteen passes that the machine needs: what
/// is beyond the sixteenth pass is dropped, what is missing is filled with
/// disabled passes.
pub fn pad_tool_passes(tool_passes: &mut Vec<ToolPass>)
    ensures
        is_sixteen_of(final(tool_passes)@, old(tool_passes)@),
        forall|i: int|
            0 <= i < old(tool_passes)@.len() && i < REQUIRED_TOOL_PASSES ==> final(tool_passes)@[i]
                == old(tool_passes)@[i],
{
    if tool_passes.len() > REQUIRED_TOOL_PASSES {
        tool_passes.truncate(REQUIRED_TOOL_PASSES);
    }
    while tool_passes.len() < REQUIRED_TOOL_PASSES
        invariant
            tool_passes@.len() <= REQUIRED_TOOL_PASSES,
            old(tool_passes)@.len() >= REQUIRED_TOOL_PASSES ==> tool_passes@.len()
                == REQUIRED_TOOL_PASSES,
            old(tool_passes)@.len() < REQUIRED_TOOL_PASSES ==> tool_passes@.len() >= old(
                tool_passes,
            )@.len(),
            forall|i: int|
                0 <= i < tool_passes@.len() && i < old(tool_passes)@.len() ==> (
                #[trigger] tool_passes@[i]) == old(tool_passes)@[i],
            forall|i: int|
                old(tool_passes)@.len() <= i < tool_passes@.len() ==> (#[trigger] tool_passes@[i])@
                    == skipped_pass(),
        decreases REQUIRED_TOOL_PASSES - tool_passes@.len(),
    {
        let ghost before = tool_passes@;
        tool_passes.push(ToolPass::new(String::from_str("skipped"), 0, 0, 0, 0, 1000, false));
        assert(forall|i: int| 0 <= i < before.len() ==> tool_passes@[i] == before[i]);
    }
}

/// The polylines in plotter units that are cut for each colour: none for a
/// colour that no enabled pass has; for the others, the sampled paths of the
/// colour, each closed where it is closed, moved by the offset, and placed
/// on the bed.
pub open spec fn cut_lines(
    sampled: PathsByColour<SampledPath>,
    offset: DesignOffset,
    tool_passes: Seq<ToolPass>,
    bed: PrintBed,
) -> spec_fn((u8, u8, u8)) -> Seq<Seq<ResolvedPoint>> {
    |colour: (u8, u8, u8)|
        if colour_is_enabled(tool_passes, colour) {
            placed_bucket(
                bed,
                sampled.bucket(colour).map_values(|path: SampledPath| resolved_points(path, offset)),
            )
        } else {
            Seq::empty()
        }
}

/// The bytes of the job that cuts a design.
pub open spec fn job_text(
    sampled: PathsByColour<SampledPath>,
    design_name: Seq<char>,
    tool_passes: Seq<ToolPass>,
    bed: PrintBed,
    offset: DesignOffset,
) -> Seq<char> {
    pcl_text(
        program_text(design_statements(tool_passes, cut_lines(sampled, offset, tool_passes, bed))),
        design_name,
        tool_passes,
    )
}

/// Prepares the job that cuts a design: everything between the sampled
/// paths of the design and the bytes that are written to the device.
///
/// The paths are moved by the offset, pruned to the colours of enabled
/// passes and placed on the bed; the HPGL that traces them is wrapped in the
/// PCL envelope. Nothing is prepared unless the tool program holds sixteen
/// passes of which one at least is enabled.
pub fn prepare_job(
    sampled: &PathsByColour<SampledPath>,
    design_name: &str,
    tool_passes: &Vec<ToolPass>,
    bed: &PrintBed,
    offset: &DesignOffset,
) -> (job: Result<String, SendToDeviceError>)
    ensures
        match job {
            Ok(pcl) => {
                &&& tool_passes@.len() == REQUIRED_TOOL_PASSES
                &&& any_enabled(tool_passes@)
                &&& pcl@ == job_text(*sampled, design_name@, tool_passes@, *bed, *offset)
            },
            Err(SendToDeviceError::GenerateHpglError(EmitPreconditionFailed::NotSixteenPasses)) => {
                tool_passes@.len() != REQUIRED_TOOL_PASSES
            },
            Err(SendToDeviceError::GenerateHpglError(EmitPreconditionFailed::NoPassEnabled)) => {
                tool_passes@.len() == REQUIRED_TOOL_PASSES && !any_enabled(tool_passes@)
            },
            Err(_) => false,
        },
{
    let mut paths_in_mm = resolve_paths(sampled, offset);
    let ghost resolved = paths_in_mm;
    filter_paths_to_tool_passes(&mut paths_in_mm, tool_passes.as_slice());
    let resolved_paths = convert_points_to_plotter_units(&paths_in_mm, bed);
    let hpgl = match generate_hpgl(&resolved_paths, tool_passes.as_slice()) {
        Ok(hpgl) => hpgl,
        Err(error) => {
            return Err(SendToDeviceError::GenerateHpglError(error));
        },
    };
    proof {
        let wanted = cut_lines(*sampled, *offset, tool_passes@, *bed);
        assert forall|colour: (u8, u8, u8)| #[trigger]
            lines_of(resolved_paths)(colour) == wanted(colour) by {
            assert(is_resolved(resolved.bucket(colour), sampled.bucket(colour), *offset));
            if colour_is_enabled(tool_passes@, colour) {
                assert(paths_in_mm.bucket(colour) == resolved.bucket(colour));
                assert(polylines(resolved.bucket(colour)) =~= sampled.bucket(colour).map_values(
                    |path: SampledPath| resolved_points(path, *offset),
                ));
            } else {
                assert(paths_in_mm.bucket(colour) == Seq::<Vec<PointInMillimeters>>::empty());
                assert(polylines(paths_in_mm.bucket(colour)) =~= Seq::<
                    Seq<PointInMillimeters>,
                >::empty());
            }
        }
        lemma_design_statements_depend_on_pass_colours(
            tool_passes@,
            lines_of(resolved_paths),
            wanted,
        );
    }
    Ok(wrap_hpgl_in_pcl(hpgl, design_name, tool_passes))
}

} // verus!
