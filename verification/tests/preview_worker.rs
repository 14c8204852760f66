use seance::bed::{bed_gcc_spirit, PrintBed};
use seance::paths::{DesignOffset, PathColour, PathsByColour, PointInMillimeters, SampledPath};
use seance::preview::{PreviewSize, MAX_ZOOM_LEVEL, MIN_ZOOM_LEVEL};
use seance::preview_worker::RenderWorker;
use seance::preview_worker::RequestEvent::{ReplyDropped, Sent, Superseded, Taken};
use seance::preview_worker::RequestState::{Delivered, Dropped, Pending, Rendering};
use seance::preview_worker::{DesignPreview, ImageStep, RenderMailbox, RenderRequest, Reply};

const SIZE: PreviewSize = PreviewSize { width: 640, height: 480 };

#[test]
fn new_preview_asks_for_its_first_image() {
    let (preview, request) = DesignPreview::new(SIZE, 7000);
    assert_eq!(request, RenderRequest { size: SIZE, design_offset_mm: DesignOffset { x: 0, y: 0 } });
    assert_eq!(preview.zoom_level(), MAX_ZOOM_LEVEL);
    assert!(preview.is_rendering());
    assert_eq!(preview.get_design_offset(), &DesignOffset { x: 0, y: 0 });
    assert_eq!(DesignPreview::new(SIZE, 3).0.zoom_level(), MIN_ZOOM_LEVEL);
    assert_eq!(DesignPreview::new(SIZE, 2500).0.zoom_level(), 2500);
    assert!(preview.can_render());
}

#[test]
fn zoom_is_limited() {
    let (mut preview, _) = DesignPreview::new(SIZE, 1000);
    preview.zoom(999);
    assert_eq!(preview.zoom_level(), 1000);
    preview.zoom(5001);
    assert_eq!(preview.zoom_level(), 5000);
    preview.zoom(1234);
    assert_eq!(preview.zoom_level(), 1234);
}

#[test]
fn a_new_size_asks_for_a_new_image() {
    let (mut preview, _) = DesignPreview::new(SIZE, 1000);
    assert_eq!(preview.image(Reply::Rendered).request, None);
    assert!(!preview.is_rendering());
    assert_eq!(preview.resize(SIZE), None);
    assert!(!preview.is_rendering());
    let larger = PreviewSize { width: 800, height: 600 };
    assert_eq!(
        preview.resize(larger),
        Some(RenderRequest { size: larger, design_offset_mm: DesignOffset { x: 0, y: 0 } })
    );
    assert!(preview.is_rendering());
}

#[test]
fn a_new_offset_asks_for_a_new_image() {
    let (mut preview, _) = DesignPreview::new(SIZE, 1000);
    assert_eq!(preview.image(Reply::Rendered).request, None);
    assert_eq!(preview.set_design_offset(DesignOffset { x: -5, y: -1 }), None);
    assert!(!preview.is_rendering());
    let moved = DesignOffset { x: 10_000, y: 0 };
    assert_eq!(
        preview.set_design_offset(DesignOffset { x: 10_000, y: -20_000 }),
        Some(RenderRequest { size: SIZE, design_offset_mm: moved })
    );
    assert_eq!(preview.get_design_offset(), &moved);
    assert!(preview.is_rendering());
    assert_eq!(preview.set_design_offset(moved), None);
}

#[test]
fn image_follows_the_reply() {
    let (mut preview, request) = DesignPreview::new(SIZE, 2000);
    assert_eq!(preview.image(Reply::Empty), ImageStep { request: None, shown_at: None });
    assert!(preview.is_rendering());
    assert_eq!(preview.image(Reply::Disconnected), ImageStep { request: Some(request), shown_at: None });
    assert!(preview.is_rendering());
    // 640 and 480 pixels, twice, and a twentieth more.
    let shown = Some((1344, 1008));
    assert_eq!(preview.image(Reply::Rendered), ImageStep { request: None, shown_at: shown });
    assert!(!preview.is_rendering());
    // Nothing is awaited, so whatever the channel says changes nothing.
    assert_eq!(preview.image(Reply::Disconnected), ImageStep { request: None, shown_at: shown });
    assert!(!preview.is_rendering());
    preview.zoom(1000);
    assert_eq!(preview.image(Reply::Empty).shown_at, Some((672, 504)));
    assert_eq!(preview.render(), request);
    assert!(preview.is_rendering());
}

#[test]
fn mailbox_keeps_the_newest_request_only() {
    let mut mailbox: RenderMailbox<u32> = RenderMailbox::new();
    assert!(!mailbox.is_pending());
    assert_eq!(mailbox.take(), None);
    assert_eq!(mailbox.submit(1), None);
    assert!(mailbox.is_pending());
    assert_eq!(mailbox.submit(2), Some(1));
    assert_eq!(mailbox.submit(3), Some(2));
    assert_eq!(mailbox.take(), Some(3));
    assert!(!mailbox.is_pending());
    assert_eq!(mailbox.take(), None);
}

#[test]
fn requests_are_delivered_or_dropped() {
    assert_eq!(Pending.after(Superseded), Some(Dropped));
    assert_eq!(Pending.after(Taken), Some(Rendering));
    assert_eq!(Pending.after(Sent), None);
    assert_eq!(Pending.after(ReplyDropped), None);
    // A newer request does not stop one that is being rendered.
    assert_eq!(Rendering.after(Superseded), None);
    assert_eq!(Rendering.after(Taken), None);
    assert_eq!(Rendering.after(Sent), Some(Delivered));
    assert_eq!(Rendering.after(ReplyDropped), Some(Dropped));
    for event in [Superseded, Taken, Sent, ReplyDropped] {
        assert_eq!(Delivered.after(event), None);
        assert_eq!(Dropped.after(event), None);
    }
    assert!(!Pending.is_final() && !Rendering.is_final());
    assert!(Delivered.is_final() && Dropped.is_final());
}

#[test]
fn worker_renders_what_can_be_rendered() {
    let mut worker = RenderWorker::new();
    assert!(!worker.design_changed(None));
    assert!(worker.design_changed(Some(1)));

    let request = RenderRequest {
        size: PreviewSize { width: 2, height: 2 },
        design_offset_mm: DesignOffset { x: 100_000, y: 50_000 },
    };
    let mut sampled: PathsByColour<SampledPath> = PathsByColour::new();
    sampled.push_path(
        PathColour([0, 0, 255]),
        SampledPath { points: vec![PointInMillimeters { x: 300_000, y: 150_000 }], closed: false },
    );
    let image = worker.render(&request, Some((&sampled, 1)), &bed_gcc_spirit()).unwrap();
    assert_eq!((image.width, image.height), (11, 11));
    let centre = 4 * (5 * 11 + 5);
    assert_eq!(&image.pixels[centre..centre + 4], &[0, 0, 255, 255]);
    assert!(!worker.design_changed(Some(1)));
    assert!(worker.design_changed(Some(2)));
    assert!(worker.design_changed(None));

    // The grid counts from zero, so a bed that starts elsewhere is not drawn.
    let shifted = PrintBed::new((10_000, 100_000), false, (0, 100_000), false);
    assert!(worker.render(&request, None, &shifted).is_none());
    assert!(!worker.design_changed(Some(1)));

    let image = worker.render(&request, None, &bed_gcc_spirit()).unwrap();
    assert_eq!(&image.pixels[centre..centre + 4], &[230, 230, 230, 255]);
    assert!(!worker.design_changed(None));
}

#[test]
fn worker_refuses_what_does_not_fit() {
    let mut worker = RenderWorker::new();
    let request = RenderRequest {
        size: PreviewSize { width: u32::MAX, height: u32::MAX },
        design_offset_mm: DesignOffset { x: 0, y: 0 },
    };
    assert!(worker.render(&request, None, &bed_gcc_spirit()).is_none());
    let (preview, _) = DesignPreview::new(request.size, 1000);
    assert!(!preview.can_render());
}
