use seance::bed::bed_gcc_spirit;
use seance::default_passes::default_passes;
use seance::hpgl::{generate_hpgl, EmitPreconditionFailed};
use seance::job::{pad_tool_passes, prepare_job, PrintJob, SendToDeviceError};
use seance::laser_passes::ToolPass;
use seance::paths::{
    convert_points_to_plotter_units, filter_paths_to_tool_passes, resolve_paths, DesignOffset,
    PathColour, PathsByColour, PointInMillimeters, SampledPath,
};
use seance::pcl::wrap_hpgl_in_pcl;

fn two_colours() -> PathsByColour<SampledPath> {
    let mut sampled = PathsByColour::new();
    sampled.push_path(
        PathColour([0, 0, 0]),
        SampledPath {
            points: vec![
                PointInMillimeters { x: 0, y: 0 },
                PointInMillimeters { x: 10_000, y: 0 },
                PointInMillimeters { x: 5_000, y: 5_000 },
            ],
            closed: true,
        },
    );
    sampled.push_path(
        PathColour([255, 0, 0]),
        SampledPath {
            points: vec![
                PointInMillimeters { x: 1_000, y: 1_000 },
                PointInMillimeters { x: 900_000, y: 1_000 },
                PointInMillimeters { x: 3_000, y: 1_000 },
            ],
            closed: false,
        },
    );
    sampled
}

#[test]
fn default_passes_are_four_disabled_passes() {
    let passes = default_passes();
    assert_eq!(passes.len(), 4);
    let colours = [[0, 0, 0], [255, 0, 0], [0, 255, 0], [0, 0, 255]];
    for (i, pass) in passes.iter().enumerate() {
        assert_eq!(pass.name(), format!("Pass {}", i + 1));
        assert_eq!(pass.colour(), &colours[i]);
        assert_eq!(*pass.power(), 100);
        assert_eq!(*pass.speed(), 20);
        assert!(!*pass.enabled());
    }
}

#[test]
fn short_programs_are_filled_with_skipped_passes() {
    let mut passes = default_passes();
    passes[2].set_enabled(true);
    let before = passes.clone();
    pad_tool_passes(&mut passes);
    assert_eq!(passes.len(), 16);
    assert_eq!(&passes[..4], &before[..]);
    for pass in &passes[4..] {
        assert_eq!(pass, &ToolPass::new("skipped".to_string(), 0, 0, 0, 0, 1000, false));
    }
    let mut none = Vec::new();
    pad_tool_passes(&mut none);
    assert_eq!(none.len(), 16);
}

#[test]
fn long_programs_are_cut_to_sixteen_passes() {
    let mut passes = Vec::new();
    for i in 0..40u8 {
        passes.push(ToolPass::new(format!("{i}"), i, i, i, 1, 2, true));
    }
    let before = passes.clone();
    pad_tool_passes(&mut passes);
    assert_eq!(&passes[..], &before[..16]);
    let mut exact = before[..16].to_vec();
    pad_tool_passes(&mut exact);
    assert_eq!(&exact[..], &before[..16]);
}

#[test]
fn job_is_the_envelope_around_the_hpgl_of_the_placed_paths() {
    let mut passes = default_passes();
    pad_tool_passes(&mut passes);
    passes[0].set_enabled(true);
    passes[1].set_enabled(true);
    let bed = bed_gcc_spirit();
    let offset = DesignOffset { x: 2_000, y: 3_000 };

    let job = prepare_job(&two_colours(), "two colours", &passes, &bed, &offset).unwrap();

    let mut paths = resolve_paths(&two_colours(), &offset);
    filter_paths_to_tool_passes(&mut paths, &passes);
    let placed = convert_points_to_plotter_units(&paths, &bed);
    let hpgl = generate_hpgl(&placed, &passes).unwrap();
    assert_eq!(
        hpgl,
        "IN;SC;PU;SP1;LT;PU0,0;\
         SP1;PU80,18408;PD480,18408;PD280,18208;PD80,18408;\
         SP2;PU120,18368;PU200,18368;\
         PU0,0;SP0;EC0;EC1;OE;"
    );
    assert_eq!(job, wrap_hpgl_in_pcl(hpgl, "two colours", &passes));
}

#[test]
fn job_needs_sixteen_passes_and_an_enabled_one() {
    let bed = bed_gcc_spirit();
    let offset = DesignOffset::default();
    let mut passes = default_passes();
    passes[0].set_enabled(true);
    assert_eq!(
        prepare_job(&two_colours(), "short", &passes, &bed, &offset),
        Err(SendToDeviceError::GenerateHpglError(EmitPreconditionFailed::NotSixteenPasses))
    );
    let mut passes = default_passes();
    pad_tool_passes(&mut passes);
    assert_eq!(
        prepare_job(&two_colours(), "idle", &passes, &bed, &offset),
        Err(SendToDeviceError::GenerateHpglError(EmitPreconditionFailed::NoPassEnabled))
    );
}

#[test]
fn print_job_holds_what_it_is_given() {
    let job = PrintJob {
        design_file: b"<svg/>".to_vec(),
        file_name: "empty".to_string(),
        tool_passes: default_passes(),
        offset: DesignOffset { x: 1, y: 2 },
    };
    assert_eq!(job.clone(), job);
    assert_eq!(job.tool_passes.len(), 4);
    assert_ne!(
        SendToDeviceError::ErrorParsingSvg("bad".to_string()),
        SendToDeviceError::FailedToWriteToPrinter("bad".to_string())
    );
}
