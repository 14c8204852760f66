//! The requests for a preview: what the user interface keeps of a preview,
//! and the single-slot box through which it asks the render worker for one.

use vstd::prelude::*;
use crate::bed::PrintBed;
use crate::paths::{DesignOffset, PathsByColour, SampledPath};
use crate::preview::{
    bed_extent, can_render, canvas_bytes, canvas_dimension, canvas_fits, canvas_shows,
    design_marks, listing_of_sampled, render_inner, PreviewSize, RenderedImage, MAX_ZOOM_LEVEL,
    MIN_ZOOM_LEVEL,
};

verus! {

/// A request that a preview be rendered.
#[derive(Debug, Clone, Copy, PartialEq, Eq, Structural)]
pub struct RenderRequest {
    /// The size of the preview to render.
    pub size: PreviewSize,
    /// Offset of the design from the top-left corner, in micrometres.
    pub design_offset_mm: DesignOffset,
}

/// What asking the reply channel of the latest request gave.
#[derive(Debug, Clone, Copy, PartialEq, Eq, Structural)]
pub enum Reply {
    /// The rendered image has arrived.
    Rendered,
    /// The worker dropped the request without an image.
    Disconnected,
    /// Nothing has arrived yet.
    Empty,
}

/// What a [`DesignPreview`] holds, as plain values.
pub struct DesignPreviewView {
    /// The size of the preview.
    pub size: PreviewSize,
    /// The current zoom level, in thousandths.
    pub zoom: u32,
    /// How much the design is offset from the top-left corner.
    pub design_offset_mm: DesignOffset,
    /// Whether an image has arrived that can be shown.
    pub has_image: bool,
    /// Whether a request is out whose reply has not arrived.
    pub rendering: bool,
}

/// What is to be done after looking for the image of a preview.
#[derive(Debug, Clone, Copy, PartialEq, Eq)]
pub struct ImageStep {
    /// The request to put in the mailbox, where one is needed.
    pub request: Option<RenderRequest>,
    /// The largest width and height to show the image at, where there is an image.
    pub shown_at: Option<(u64, u64)>,
}

/// `zoom` limited to the zoom levels that the preview has.
pub open spec fn clamp_zoom(zoom: u32) -> u32 {
    if zoom > MAX_ZOOM_LEVEL {
        MAX_ZOOM_LEVEL
    } else if zoom < MIN_ZOOM_LEVEL {
        MIN_ZOOM_LEVEL
    } else {
        zoom
    }
}

/// An offset with what is negative in it set to zero.
pub open spec fn clamp_offset(offset: DesignOffset) -> DesignOffset {
    DesignOffset {
        x: if offset.x < 0 {
            0
        } else {
            offset.x
        },
        y: if offset.y < 0 {
            0
        } else {
            offset.y
        },
    }
}

/// The most pixels along one side that an image is shown at: the size times
/// the zoom and a margin of a twentieth, rounded down.
///
/// The margin keeps the zoom from ever reaching life size, at which the
/// scroll bars of the preview would come and go.
pub open spec fn shown_dimension(size: int, zoom: int) -> int {
    (size * zoom * 21) / 20000
}

/// The request that a preview in the given state sends.
pub open spec fn request_of(preview: DesignPreviewView) -> RenderRequest {
    RenderRequest { size: preview.size, design_offset_mm: preview.design_offset_mm }
}

/// The state after the reply channel was asked, and what is to be done.
pub open spec fn after_reply(preview: DesignPreviewView, reply: Reply) -> (
    DesignPreviewView,
    Option<RenderRequest>,
) {
    if !preview.rendering {
        (preview, None)
    } else {
        match reply {
            Reply::Rendered => (
                DesignPreviewView { has_image: true, rendering: false, ..preview },
                None,
            ),
            Reply::Disconnected => (preview, Some(request_of(preview))),
            Reply::Empty => (preview, None),
        }
    }
}

/// The cache for the design preview: what is shown, and whether a rendering is awaited.
#[derive(Debug, Clone, Copy, PartialEq, Eq)]
pub struct DesignPreview {
    /// The size of the preview.
    size: PreviewSize,
    /// The current zoom level, in thousandths.
    zoom: u32,
    /// How much the design is offset from the top-left corner.
    design_offset_mm: DesignOffset,
    /// Whether an image has arrived that can be shown.
    has_image: bool,
    /// Whether the reply to the latest request is still awaited.
    waiting: bool,
}

impl View for DesignPreview {
    type V = DesignPreviewView;

    closed spec fn view(&self) -> DesignPreviewView {
        DesignPreviewView {
            size: self.size,
            zoom: self.zoom,
            design_offset_mm: self.design_offset_mm,
            has_image: self.has_image,
            rendering: self.waiting,
        }
    }
}

impl DesignPreview {
    #[verifier::type_invariant]
    spec fn zoom_in_range(&self) -> bool {
        MIN_ZOOM_LEVEL <= self.zoom <= MAX_ZOOM_LEVEL && self.design_offset_mm.x >= 0
            && self.design_offset_mm.y >= 0
    }

    /// Creates a preview of the given size, with the zoom limited to the
    /// levels that the preview has, and the request for its first image.
    pub fn new(size: PreviewSize, zoom: u32) -> (created: (Self, RenderRequest))
        ensures
            created.0@ == (DesignPreviewView {
                size,
                zoom: clamp_zoom(zoom),
                design_offset_mm: DesignOffset { x: 0, y: 0 },
                has_image: false,
                rendering: true,
            }),
            created.1 == request_of(created.0@),
    {
        let preview = DesignPreview {
            size,
            zoom: limit_zoom(zoom),
            design_offset_mm: DesignOffset { x: 0, y: 0 },
            has_image: false,
            waiting: true,
        };
        (preview, RenderRequest { size, design_offset_mm: DesignOffset { x: 0, y: 0 } })
    }

    /// Resizes the preview. A new size asks for a new image.
    pub fn resize(&mut self, size: PreviewSize) -> (request: Option<RenderRequest>)
        ensures
            final(self)@ == (DesignPreviewView {
                size,
                rendering: old(self)@.rendering || size != old(self)@.size,
                ..old(self)@
            }),
            request == if size != old(self)@.size {
                Some(request_of(final(self)@))
            } else {
                None
            },
    {
        proof {
            use_type_invariant(&*self);
        }
        if size.width != self.size.width || size.height != self.size.height {
            self.size = size;
            Some(self.render())
        } else {
            None
        }
    }

    /// Sets the zoom level of the preview, limited to the levels that it has.
    pub fn zoom(&mut self, zoom: u32)
        ensures
            final(self)@ == (DesignPreviewView { zoom: clamp_zoom(zoom), ..old(self)@ }),
    {
        proof {
            use_type_invariant(&*self);
        }
        self.zoom = limit_zoom(zoom);
    }

    /// The current zoom level, in thousandths.
    pub fn zoom_level(&self) -> (zoom: u32)
        ensures
            zoom == self@.zoom,
            MIN_ZOOM_LEVEL <= zoom <= MAX_ZOOM_LEVEL,
    {
        proof {
            use_type_invariant(self);
        }
        self.zoom
    }

    /// Gets the current offset of the design from the top-left corner.
    pub fn get_design_offset(&self) -> (offset: &DesignOffset)
        ensures
            *offset == self@.design_offset_mm,
            offset.x >= 0,
            offset.y >= 0,
    {
        proof {
            use_type_invariant(self);
        }
        &self.design_offset_mm
    }

    /// Sets the offset of the design from the top-left corner. What is
    /// negative in it counts as zero. A new offset asks for a new image.
    pub fn set_design_offset(&mut self, offset_mm: DesignOffset) -> (request: Option<RenderRequest>)
        ensures
            final(self)@ == (DesignPreviewView {
                design_offset_mm: clamp_offset(offset_mm),
                rendering: old(self)@.rendering || clamp_offset(offset_mm)
                    != old(self)@.design_offset_mm,
                ..old(self)@
            }),
            request == if clamp_offset(offset_mm) != old(self)@.design_offset_mm {
                Some(request_of(final(self)@))
            } else {
                None
            },
    {
        proof {
            use_type_invariant(&*self);
        }
        let x = if offset_mm.x < 0 {
            0
        } else {
            offset_mm.x
        };
        let y = if offset_mm.y < 0 {
            0
        } else {
            offset_mm.y
        };
        if x != self.design_offset_mm.x || y != self.design_offset_mm.y {
            self.design_offset_mm = DesignOffset { x, y };
            Some(self.render())
        } else {
            None
        }
    }

    /// Checks if a rendering of the preview is awaited.
    pub fn is_rendering(&self) -> (rendering: bool)
        ensures
            rendering == self@.rendering,
    {
        self.waiting
    }

    /// Whether the machine can address the canvas that a rendering of this preview takes.
    pub fn can_render(&self) -> (fits: bool)
        ensures
            fits == canvas_fits(self@.size, MAX_ZOOM_LEVEL as int),
    {
        can_render(self.size, MAX_ZOOM_LEVEL)
    }

    /// Looks for the image to draw, given what the reply channel of the
    /// latest request gave.
    ///
    /// An image that has arrived ends the wait. A request that the worker
    /// dropped is sent again. The image that is there, if any, is shown at
    /// most as large as the size times the zoom.
    pub fn image(&mut self, reply: Reply) -> (step: ImageStep)
        ensures
            final(self)@ == after_reply(old(self)@, reply).0,
            step.request == after_reply(old(self)@, reply).1,
            step.shown_at == if final(self)@.has_image {
                Some(
                    (
                        shown_dimension(
                            final(self)@.size.width as int,
                            final(self)@.zoom as int,
                        ) as u64,
                        shown_dimension(
                            final(self)@.size.height as int,
                            final(self)@.zoom as int,
                        ) as u64,
                    ),
                )
            } else {
                None
            },
    {
        proof {
            use_type_invariant(&*self);
        }
        let mut request = None;
        if self.waiting {
            match reply {
                Reply::Rendered => {
                    self.has_image = true;
                    self.waiting = false;
                },
                Reply::Disconnected => {
                    request = Some(self.render());
                },
                Reply::Empty => {},
            }
        }
        let shown_at = if self.has_image {
            Some((shown_side(self.size.width, self.zoom), shown_side(self.size.height, self.zoom)))
        } else {
            None
        };
        ImageStep { request, shown_at }
    }

    /// Requests that the preview be rendered: the request to put in the mailbox.
    pub fn render(&mut self) -> (request: RenderRequest)
        ensures
            final(self)@ == (DesignPreviewView { rendering: true, ..old(self)@ }),
            request == request_of(old(self)@),
    {
        proof {
            use_type_invariant(&*self);
        }
        self.waiting = true;
        RenderRequest { size: self.size, design_offset_mm: self.design_offset_mm }
    }
}

fn limit_zoom(zoom: u32) -> (limited: u32)
    ensures
        limited == clamp_zoom(zoom),
{
    if zoom > MAX_ZOOM_LEVEL {
        MAX_ZOOM_LEVEL
    } else if zoom < MIN_ZOOM_LEVEL {
        MIN_ZOOM_LEVEL
    } else {
        zoom
    }
}

fn shown_side(size: u32, zoom: u32) -> (side: u64)
    requires
        zoom <= MAX_ZOOM_LEVEL,
    ensures
        side == shown_dimension(size as int, zoom as int),
{
    assert(size * zoom <= 0xffff_ffff * 5000) by (nonlinear_arith)
        requires
            0 <= size <= 0xffff_ffff,
            0 <= zoom <= 5000,
    ;
    ((size as u64) * (zoom as u64) * 21) / 20000
}

/// The box in which one request waits for the render worker.
///
/// A request that is put in replaces the one that waits: only the newest
/// matters. The worker takes what waits and leaves the box empty.
#[derive(Debug)]
pub struct RenderMailbox<T> {
    slot: Option<T>,
}

impl<T> RenderMailbox<T> {
    /// The request that waits, if any.
    pub closed spec fn pending(&self) -> Option<T> {
        self.slot
    }

    /// An empty box.
    pub fn new() -> (mailbox: Self)
        ensures
            mailbox.pending() is None,
    {
        RenderMailbox { slot: None }
    }

    /// Puts a request in the box and hands back the one that it replaces, if
    /// any: that one will never be rendered.
    pub fn submit(&mut self, request: T) -> (superseded: Option<T>)
        ensures
            final(self).pending() == Some(request),
            superseded == old(self).pending(),
    {
        let mut newest = Some(request);
        core::mem::swap(&mut self.slot, &mut newest);
        newest
    }

    /// Takes the request that waits, if any, and leaves the box empty.
    pub fn take(&mut self) -> (request: Option<T>)
        ensures
            request == old(self).pending(),
            final(self).pending() is None,
    {
        self.slot.take()
    }

    /// Whether a request waits.
    pub fn is_pending(&self) -> (pending: bool)
        ensures
            pending == self.pending().is_some(),
    {
        self.slot.is_some()
    }
}

/// Where a request for a preview stands.
#[derive(Debug, Clone, Copy, PartialEq, Eq, Structural)]
pub enum RequestState {
    /// It waits in the mailbox.
    Pending,
    /// The worker has taken it and renders.
    Rendering,
    /// Its image has reached the one who asked.
    Delivered,
    /// It was replaced, or nobody waited for its image any more.
    Dropped,
}

/// What can happen to a request for a preview.
#[derive(Debug, Clone, Copy, PartialEq, Eq, Structural)]
pub enum RequestEvent {
    /// A newer request was put in the mailbox.
    Superseded,
    /// The worker took the request from the mailbox.
    Taken,
    /// The image was handed to the reply channel.
    Sent,
    /// The reply channel was gone when the image was ready.
    ReplyDropped,
}

/// The state that an event takes a request to, or `None` where the event
/// cannot happen in that state.
pub open spec fn state_after(state: RequestState, event: RequestEvent) -> Option<RequestState> {
    match (state, event) {
        (RequestState::Pending, RequestEvent::Superseded) => Some(RequestState::Dropped),
        (RequestState::Pending, RequestEvent::Taken) => Some(RequestState::Rendering),
        (RequestState::Rendering, RequestEvent::Sent) => Some(RequestState::Delivered),
        (RequestState::Rendering, RequestEvent::ReplyDropped) => Some(RequestState::Dropped),
        _ => None,
    }
}

impl RequestState {
    /// Follows one event. A newer request supersedes a pending one; a
    /// request that is being rendered goes on, whatever is put in the mailbox.
    pub fn after(self, event: RequestEvent) -> (next: Option<RequestState>)
        ensures
            next == state_after(self, event),
    {
        match (self, event) {
            (RequestState::Pending, RequestEvent::Superseded) => Some(RequestState::Dropped),
            (RequestState::Pending, RequestEvent::Taken) => Some(RequestState::Rendering),
            (RequestState::Rendering, RequestEvent::Sent) => Some(RequestState::Delivered),
            (RequestState::Rendering, RequestEvent::ReplyDropped) => Some(RequestState::Dropped),
            _ => None,
        }
    }

    /// Whether nothing more can happen to the request.
    pub fn is_final(self) -> (ended: bool)
        ensures
            ended == (self == RequestState::Delivered || self == RequestState::Dropped),
            ended == (forall|event: RequestEvent| state_after(self, event) is None),
    {
        proof {
            if self == RequestState::Pending {
                assert(state_after(self, RequestEvent::Taken) is Some);
            }
            if self == RequestState::Rendering {
                assert(state_after(self, RequestEvent::Sent) is Some);
            }
        }
        match self {
            RequestState::Delivered | RequestState::Dropped => true,
            _ => false,
        }
    }
}

/// What the render worker keeps from one request to the next: the buffer
/// that it draws in, and the hash of the design that it drew last.
#[derive(Debug)]
pub struct RenderWorker {
    texture_buffer: Vec<u8>,
    previous_design_hash: Option<u64>,
}

/// Whether a preview of the given size can be rendered on a bed: the grid
/// counts from the bed's origin, so the bed must start at zero on both axes,
/// and the machine must be able to address the canvas.
pub open spec fn can_be_rendered(size: PreviewSize, bed: PrintBed) -> bool {
    &&& bed.x_limits().0 == 0
    &&& bed.y_limits().0 == 0
    &&& canvas_fits(size, MAX_ZOOM_LEVEL as int)
}

impl RenderWorker {
    /// The hash of the design that was drawn last, if a design was drawn last.
    pub closed spec fn remembered_hash(&self) -> Option<u64> {
        self.previous_design_hash
    }

    /// A worker that has drawn nothing yet.
    pub fn new() -> (worker: Self)
        ensures
            worker.remembered_hash() is None,
    {
        RenderWorker { texture_buffer: Vec::new(), previous_design_hash: None }
    }

    /// Whether the design with the given hash, or no design where there is
    /// none, is another than the one that was drawn last: then what was kept
    /// of the last design is of no use any more.
    pub fn design_changed(&self, design_hash: Option<u64>) -> (changed: bool)
        ensures
            changed == (self.remembered_hash() != design_hash),
    {
        match (self.previous_design_hash, design_hash) {
            (Some(previous), Some(current)) => previous != current,
            (None, None) => false,
            _ => true,
        }
    }

    /// Renders the request that was taken from the mailbox.
    ///
    /// Where the preview can be rendered, the image shows the design, moved
    /// by the offset of the request, on the grid of the bed, and the hash of
    /// the design is remembered. Where it cannot, there is no image and
    /// nothing changes.
    pub fn render(
        &mut self,
        request: &RenderRequest,
        design: Option<(&PathsByColour<SampledPath>, u64)>,
        bed: &PrintBed,
    ) -> (image: Option<RenderedImage>)
        ensures
            match image {
                Some(image) => {
                    &&& can_be_rendered(request.size, *bed)
                    &&& image.width == canvas_dimension(
                        request.size.width as int,
                        MAX_ZOOM_LEVEL as int,
                    )
                    &&& image.height == canvas_dimension(
                        request.size.height as int,
                        MAX_ZOOM_LEVEL as int,
                    )
                    &&& image.pixels@.len() == canvas_bytes(request.size, MAX_ZOOM_LEVEL as int)
                    &&& canvas_shows(
                        image.pixels@,
                        image.width as int,
                        image.height as int,
                        design_marks(
                            match design {
                                Some((sampled, _)) => listing_of_sampled(
                                    *sampled,
                                    request.design_offset_mm,
                                ),
                                None => Seq::empty(),
                            },
                            request.size,
                            *bed,
                        ),
                        request.size,
                        bed_extent(bed.x_limits()),
                        bed_extent(bed.y_limits()),
                    )
                    &&& final(self).remembered_hash() == match design {
                        Some((_, hash)) => Some(hash),
                        None => None,
                    }
                },
                None => {
                    &&& !can_be_rendered(request.size, *bed)
                    &&& final(self).remembered_hash() == old(self).remembered_hash()
                },
            },
    {
        if bed.x_axis().0 != 0 || bed.y_axis().0 != 0 || !can_render(request.size, MAX_ZOOM_LEVEL) {
            return None;
        }
        Some(
            render_inner(
                request.size,
                &request.design_offset_mm,
                design,
                bed,
                &mut self.texture_buffer,
                &mut self.previous_design_hash,
            ),
        )
    }
}

} // verus!
