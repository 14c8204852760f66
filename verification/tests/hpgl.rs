use seance::bed::bed_gcc_spirit;
use seance::default_passes::default_passes;
use seance::hpgl::{append_hpgl, generate_hpgl, pen_change, trace_path, EmitPreconditionFailed};
use seance::job::pad_tool_passes;
use seance::laser_passes::ToolPass;
use seance::paths::{
    convert_points_to_plotter_units, filter_paths_to_tool_passes, resolve_paths, DesignOffset,
    PathColour, PathsByColour, PointInMillimeters, ResolvedPath, ResolvedPoint, SampledPath,
};

fn sixteen_passes() -> Vec<ToolPass> {
    let mut passes = default_passes();
    pad_tool_passes(&mut passes);
    passes
}

fn mm_point(x: i64, y: i64) -> PointInMillimeters {
    PointInMillimeters { x: x * 1000, y: y * 1000 }
}

/// The HPGL of sampled paths: offset, pruned to the passes, placed on the default bed.
fn hpgl_of(
    sampled: &PathsByColour<SampledPath>,
    passes: &[ToolPass],
    offset: DesignOffset,
) -> Result<String, EmitPreconditionFailed> {
    let mut paths = resolve_paths(sampled, &offset);
    filter_paths_to_tool_passes(&mut paths, passes);
    let placed = convert_points_to_plotter_units(&paths, &bed_gcc_spirit());
    generate_hpgl(&placed, passes)
}

fn single_line() -> PathsByColour<SampledPath> {
    let mut sampled = PathsByColour::new();
    sampled.push_path(
        PathColour([0, 0, 0]),
        SampledPath { points: vec![mm_point(0, 0), mm_point(10, 0)], closed: false },
    );
    sampled
}

#[test]
fn test_pen_change() {
    assert_eq!(&pen_change(3), "SP4;");
    assert_eq!(&pen_change(0), "SP1;");
}

#[test]
fn pen_change_of_largest_index() {
    assert_eq!(pen_change(usize::MAX), format!("SP{};", usize::MAX as u128 + 1));
}

#[test]
fn append_hpgl_appends() {
    let mut hpgl = "IN;".to_string();
    append_hpgl(&mut hpgl, "SC;");
    append_hpgl(&mut hpgl, "");
    assert_eq!(hpgl, "IN;SC;");
}

#[test]
fn trace_path_moves_then_draws() {
    let path: ResolvedPath = vec![
        ResolvedPoint { x: 0, y: 18528 },
        ResolvedPoint { x: 400, y: 18528 },
        ResolvedPoint { x: -5, y: -32768 },
        ResolvedPoint { x: 32767, y: 10 },
    ];
    assert_eq!(trace_path(&path), "PU0,18528;PD400,18528;PD-5,-32768;PD32767,10;");
    assert_eq!(trace_path(&Vec::new()), "");
    assert_eq!(trace_path(&vec![ResolvedPoint { x: 7, y: 8 }]), "PU7,8;");
}

#[test]
fn one_enabled_pass_and_no_paths() {
    for k in 0..16usize {
        let mut passes = sixteen_passes();
        passes[k].set_enabled(true);
        let paths: PathsByColour<ResolvedPath> = PathsByColour::new();
        assert_eq!(
            generate_hpgl(&paths, &passes),
            Ok(format!("IN;SC;PU;SP{};LT;PU0,0;PU0,0;SP0;EC0;EC1;OE;", k + 1))
        );
    }
}

#[test]
fn no_enabled_pass_is_refused() {
    let passes = sixteen_passes();
    let mut paths: PathsByColour<ResolvedPath> = PathsByColour::new();
    paths.push_path(PathColour([0, 0, 0]), vec![ResolvedPoint { x: 1, y: 2 }]);
    let refused = generate_hpgl(&paths, &passes);
    assert_eq!(refused, Err(EmitPreconditionFailed::NoPassEnabled));
    assert_eq!(refused.unwrap_err().message(), "No tool passes enabled");
}

#[test]
fn other_than_sixteen_passes_are_refused() {
    let mut passes = default_passes();
    passes[0].set_enabled(true);
    let paths: PathsByColour<ResolvedPath> = PathsByColour::new();
    assert_eq!(generate_hpgl(&paths, &passes), Err(EmitPreconditionFailed::NotSixteenPasses));
    let mut passes = sixteen_passes();
    passes.push(ToolPass::new("one too many".to_string(), 1, 1, 1, 1, 1, true));
    assert_eq!(generate_hpgl(&paths, &passes), Err(EmitPreconditionFailed::NotSixteenPasses));
    assert_eq!(generate_hpgl(&paths, &[]), Err(EmitPreconditionFailed::NotSixteenPasses));
    assert_eq!(
        EmitPreconditionFailed::NotSixteenPasses.message(),
        "Exactly 16 tool passes are required"
    );
}

#[test]
fn empty_design_has_no_pen_down() {
    let mut passes = sixteen_passes();
    passes[0].set_enabled(true);
    let hpgl = hpgl_of(&PathsByColour::new(), &passes, DesignOffset { x: 0, y: 0 }).unwrap();
    assert!(!hpgl.contains("PD"));
    assert_eq!(hpgl, "IN;SC;PU;SP1;LT;PU0,0;PU0,0;SP0;EC0;EC1;OE;");
}

#[test]
fn single_line_on_the_default_bed() {
    let mut passes = sixteen_passes();
    passes[0].set_enabled(true);
    let hpgl = hpgl_of(&single_line(), &passes, DesignOffset { x: 0, y: 0 }).unwrap();
    assert!(hpgl.contains("PU0,18528;PD400,18528;"));
    assert_eq!(
        hpgl,
        "IN;SC;PU;SP1;LT;PU0,0;SP1;PU0,18528;PD400,18528;PU0,0;SP0;EC0;EC1;OE;"
    );
}

#[test]
fn single_line_moved_by_the_design_offset() {
    let mut passes = sixteen_passes();
    passes[0].set_enabled(true);
    let hpgl = hpgl_of(&single_line(), &passes, DesignOffset { x: 100_000, y: 50_000 }).unwrap();
    assert!(hpgl.contains("PU4000,16528;PD4400,16528;"));
}

#[test]
fn closed_triangle_returns_to_its_start() {
    let mut passes = sixteen_passes();
    passes[0].set_enabled(true);
    // The walk along a closed path ends where it began; closing the polyline
    // repeats its first sample after that.
    let mut sampled = PathsByColour::new();
    sampled.push_path(
        PathColour([0, 0, 0]),
        SampledPath {
            points: vec![mm_point(0, 0), mm_point(10, 0), mm_point(5, 5), mm_point(0, 0)],
            closed: true,
        },
    );
    let hpgl = hpgl_of(&sampled, &passes, DesignOffset { x: 0, y: 0 }).unwrap();
    assert!(hpgl.contains("SP1;PU0,18528;PD400,18528;PD200,18328;PD0,18528;PD0,18528;PU0,0;"));
    assert_eq!(hpgl.matches("PD").count(), 4);
}

#[test]
fn closing_repeats_the_first_sample() {
    let mut passes = sixteen_passes();
    passes[0].set_enabled(true);
    let mut sampled = PathsByColour::new();
    sampled.push_path(
        PathColour([0, 0, 0]),
        SampledPath { points: vec![mm_point(0, 0), mm_point(10, 0), mm_point(5, 5)], closed: true },
    );
    let hpgl = hpgl_of(&sampled, &passes, DesignOffset { x: 0, y: 0 }).unwrap();
    assert!(hpgl.contains("SP1;PU0,18528;PD400,18528;PD200,18328;PD0,18528;PU0,0;"));
}

#[test]
fn only_enabled_colours_are_traced() {
    let mut passes = sixteen_passes();
    // only red
    passes[1].set_enabled(true);
    let mut sampled = PathsByColour::new();
    sampled.push_path(
        PathColour([0, 0, 0]),
        SampledPath { points: vec![mm_point(1, 1), mm_point(2, 1)], closed: false },
    );
    sampled.push_path(
        PathColour([255, 0, 0]),
        SampledPath { points: vec![mm_point(3, 3), mm_point(4, 3)], closed: false },
    );
    let hpgl = hpgl_of(&sampled, &passes, DesignOffset { x: 0, y: 0 }).unwrap();
    assert!(hpgl.contains("SP2;"));
    assert!(hpgl.contains("PU120,18408;PD160,18408;"));
    assert!(!hpgl.contains("PU40,18488;"));
    assert!(!hpgl.contains("PD80,18488;"));
    assert_eq!(
        hpgl,
        "IN;SC;PU;SP2;LT;PU0,0;SP2;PU120,18408;PD160,18408;PU0,0;SP0;EC0;EC1;OE;"
    );
}

#[test]
fn disabled_pass_of_an_enabled_colour_traces_nothing() {
    // Unpruned paths, two black passes of which the second alone is enabled.
    let mut passes = sixteen_passes();
    passes[1].set_colour([0, 0, 0]);
    passes[1].set_enabled(true);
    let mut paths: PathsByColour<ResolvedPath> = PathsByColour::new();
    paths.push_path(PathColour([0, 0, 0]), vec![ResolvedPoint { x: 1, y: 2 }, ResolvedPoint { x: 3, y: 4 }]);
    paths.push_path(PathColour([0, 255, 0]), vec![ResolvedPoint { x: 5, y: 6 }]);
    assert_eq!(
        generate_hpgl(&paths, &passes),
        Ok("IN;SC;PU;SP2;LT;PU0,0;SP2;PU1,2;PD3,4;PU0,0;SP0;EC0;EC1;OE;".to_string())
    );
}

#[test]
fn passes_of_one_colour_each_trace_on_their_turn() {
    let mut passes = Vec::new();
    for i in 0..16u64 {
        passes.push(ToolPass::new(format!("black {i}"), 0, 0, 0, 10 * i, 1000 - i, i >= 2));
    }
    let mut paths: PathsByColour<ResolvedPath> = PathsByColour::new();
    paths.push_path(PathColour([0, 0, 0]), vec![ResolvedPoint { x: 1, y: 2 }, ResolvedPoint { x: 3, y: 4 }]);
    let hpgl = generate_hpgl(&paths, &passes).unwrap();
    let mut expected = "IN;SC;PU;SP3;LT;PU0,0;".to_string();
    for pen in 3..=16 {
        expected += &format!("SP{pen};PU1,2;PD3,4;");
    }
    expected += "PU0,0;SP0;EC0;EC1;OE;";
    assert_eq!(hpgl, expected);
}

#[test]
fn every_statement_is_well_formed() {
    let mut passes = sixteen_passes();
    passes[0].set_enabled(true);
    passes[3].set_enabled(true);
    let mut paths: PathsByColour<ResolvedPath> = PathsByColour::new();
    paths.push_path(PathColour([0, 0, 0]), vec![ResolvedPoint { x: -32768, y: 32767 }, ResolvedPoint { x: 0, y: -1 }]);
    paths.push_path(PathColour([0, 0, 255]), vec![ResolvedPoint { x: 9, y: 9 }]);
    let hpgl = generate_hpgl(&paths, &passes).unwrap();
    assert!(hpgl.ends_with(';'));
    for statement in hpgl[..hpgl.len() - 1].split(';') {
        let (name, arguments) = statement.split_at(2);
        assert!(["IN", "SC", "PU", "PD", "SP", "LT", "EC", "OE"].contains(&name), "{statement}");
        if !arguments.is_empty() {
            for number in arguments.split(',') {
                let value: i64 = number.parse().unwrap();
                assert!((-32768..=32767).contains(&value));
            }
        }
    }
}
