use vstd::prelude::*;

use crate::error::Error;
use crate::output::{OutputInfo, Transform};
use crate::region::{LogicalRegion, Position, Size};
use crate::screencopy::{select_spec, FrameCopy, FrameFormat, PixelFormat};

verus! {

// ---------------------------------------------------------------------------
// Output discovery
// ---------------------------------------------------------------------------

/// Accumulates one record per advertised output while the discovery event
/// queues drain.
#[derive(Debug)]
pub struct OutputCaptureState {
    pub outputs: Vec<OutputInfo>,
}

/// A property event for one output object, keyed by the output's handle.
#[derive(Debug)]
pub enum OutputEvent {
    /// The output's name arrived.
    Name(String),
    /// The output's description arrived.
    Description(String),
    /// The output's current pixel mode arrived, as the wire carries it.
    Mode { width: i32, height: i32 },
    /// The output's geometry arrived; only the transform is tracked.
    Geometry { transform: Transform },
    /// A scale event; ignored, the scale is derived from the sizes.
    Scale,
    /// The terminating signal of one burst of property events.
    Done,
    /// Any other event of the output object.
    Other,
}

/// A logical-geometry event for the output at a given record index.
#[derive(Debug)]
pub enum XdgOutputEvent {
    /// Logical position in compositor logical units.
    LogicalPosition { x: i32, y: i32 },
    /// Logical size in compositor logical units, as the wire carries it.
    LogicalSize { width: i32, height: i32 },
    /// The terminating signal of one burst of geometry events.
    Done,
    /// Any other event of the geometry object.
    Other,
}

/// A wire dimension clamped into the unsigned range: the protocol reports
/// sizes as signed 32-bit values that are never meaningfully negative.
pub open spec fn clamp_wire(v: i32) -> u32 {
    if v < 0 {
        0u32
    } else {
        v as u32
    }
}

/// The record an output property event leaves behind.
pub open spec fn output_updated(o: OutputInfo, event: OutputEvent) -> OutputInfo {
    match event {
        OutputEvent::Name(name) => OutputInfo { name, ..o },
        OutputEvent::Description(description) => OutputInfo { description, ..o },
        OutputEvent::Mode { width, height } => OutputInfo {
            physical_size: Size { width: clamp_wire(width), height: clamp_wire(height) },
            ..o
        },
        OutputEvent::Geometry { transform } => OutputInfo { transform, ..o },
        _ => o,
    }
}

/// The record a logical-geometry event leaves behind.
pub open spec fn xdg_updated(o: OutputInfo, event: XdgOutputEvent) -> OutputInfo {
    match event {
        XdgOutputEvent::LogicalPosition { x, y } => OutputInfo {
            logical_region: LogicalRegion {
                position: Position { x, y },
                size: o.logical_region.size,
            },
            ..o
        },
        XdgOutputEvent::LogicalSize { width, height } => OutputInfo {
            logical_region: LogicalRegion {
                position: o.logical_region.position,
                size: Size { width: clamp_wire(width), height: clamp_wire(height) },
            },
            ..o
        },
        _ => o,
    }
}

/// The usable records of a discovery run: those whose logical region has
/// positive area, in their original order.
pub open spec fn discovered_outputs(s: Seq<OutputInfo>) -> Seq<OutputInfo>
    decreases s.len(),
{
    if s.len() == 0 {
        Seq::empty()
    } else {
        discovered_outputs(s.drop_last()) + (if s.last().discovered() {
            seq![s.last()]
        } else {
            Seq::empty()
        })
    }
}

/// Every record `discovered_outputs` keeps is discovered.
proof fn lemma_discovered_outputs_all(s: Seq<OutputInfo>)
    requires
        forall|i: int| 0 <= i < s.len() ==> (#[trigger] s[i]).wf(),
    ensures
        forall|i: int|
            0 <= i < discovered_outputs(s).len() ==> (#[trigger] discovered_outputs(
                s,
            )[i]).discovered(),
    decreases s.len(),
{
    if s.len() > 0 {
        assert(forall|i: int|
            0 <= i < s.drop_last().len() ==> #[trigger] s.drop_last()[i] == s[i]);
        lemma_discovered_outputs_all(s.drop_last());
        let d = discovered_outputs(s);
        let dprev = discovered_outputs(s.drop_last());
        assert forall|i: int| 0 <= i < d.len() implies (#[trigger] d[i]).discovered() by {
            if i < dprev.len() {
                assert(d[i] == dprev[i]);
            } else {
                assert(s.last().discovered());
                assert(d[i] == s.last());
            }
        }
    }
}

impl OutputCaptureState {
    /// Record bounds hold and records are unique by handle identity.
    pub open spec fn wf(self) -> bool {
        &&& forall|i: int| 0 <= i < self.outputs@.len() ==> (#[trigger] self.outputs@[i]).wf()
        &&& forall|i: int, j: int|
            0 <= i < j < self.outputs@.len() ==> self.outputs@[i].id != self.outputs@[j].id
    }

    /// An empty tracker, ready for a discovery run.
    pub fn new() -> (r: OutputCaptureState)
        ensures
            r.outputs@ == Seq::<OutputInfo>::empty(),
            r.wf(),
    {
        OutputCaptureState { outputs: Vec::new() }
    }

    /// Append a placeholder record for a newly bound output object. The
    /// handle must be fresh: the protocol never reuses a live object id.
    pub fn register_output(&mut self, id: u64)
        requires
            old(self).wf(),
            forall|i: int| 0 <= i < old(self).outputs@.len() ==> old(self).outputs@[i].id != id,
        ensures
            final(self).wf(),
            final(self).outputs@.len() == old(self).outputs@.len() + 1,
            final(self).outputs@.subrange(0, old(self).outputs@.len() as int) == old(
                self,
            ).outputs@,
            final(self).outputs@.last().id == id,
            final(self).outputs@.last().name@ == Seq::<char>::empty(),
            final(self).outputs@.last().description@ == Seq::<char>::empty(),
            final(self).outputs@.last().transform == Transform::Normal,
            final(self).outputs@.last().physical_size == (Size { width: 0u32, height: 0u32 }),
            final(self).outputs@.last().logical_region == (LogicalRegion {
                position: Position { x: 0i32, y: 0i32 },
                size: Size { width: 0u32, height: 0u32 },
            }),
    {
        let info = OutputInfo {
            id,
            name: String::new(),
            description: String::new(),
            transform: Transform::Normal,
            physical_size: Size { width: 0, height: 0 },
            logical_region: LogicalRegion {
                position: Position { x: 0, y: 0 },
                size: Size { width: 0, height: 0 },
            },
        };
        self.outputs.push(info);
        proof {
            assert(final(self).outputs@.subrange(0, old(self).outputs@.len() as int) =~= old(
                self,
            ).outputs@);
        }
    }

    /// Apply a property event for the output with the given handle. An event
    /// for an unregistered handle is a non-fatal anomaly and changes nothing.
    pub fn apply_output_event(&mut self, id: u64, event: OutputEvent)
        requires
            old(self).wf(),
        ensures
            final(self).wf(),
            final(self).outputs@.len() == old(self).outputs@.len(),
            forall|i: int|
                0 <= i < old(self).outputs@.len() && old(self).outputs@[i].id != id
                    ==> final(self).outputs@[i] == old(self).outputs@[i],
            forall|i: int|
                0 <= i < old(self).outputs@.len() && old(self).outputs@[i].id == id
                    ==> final(self).outputs@[i] == output_updated(old(self).outputs@[i], event),
    {
        let n = self.outputs.len();
        let mut i: usize = 0;
        while i < n
            invariant
                n == self.outputs@.len(),
                0 <= i <= n,
                old(self).wf(),
                self.outputs@.len() == old(self).outputs@.len(),
                forall|j: int| i <= j < n ==> self.outputs@[j] == old(self).outputs@[j],
                forall|j: int| 0 <= j < i ==> self.outputs@[j] == old(self).outputs@[j],
                forall|j: int| 0 <= j < i ==> old(self).outputs@[j].id != id,
            decreases n - i,
        {
            if self.outputs[i].id == id {
                let o = self.outputs.remove(i);
                let updated = match event {
                    OutputEvent::Name(name) => OutputInfo { name, ..o },
                    OutputEvent::Description(description) => OutputInfo { description, ..o },
                    OutputEvent::Mode { width, height } => OutputInfo {
                        physical_size: Size {
                            width: if width < 0 {
                                0
                            } else {
                                width as u32
                            },
                            height: if height < 0 {
                                0
                            } else {
                                height as u32
                            },
                        },
                        ..o
                    },
                    OutputEvent::Geometry { transform } => OutputInfo { transform, ..o },
                    _ => o,
                };
                self.outputs.insert(i, updated);
                proof {
                    assert(forall|j: int|
                        0 <= j < old(self).outputs@.len() && j != i ==> final(self).outputs@[j]
                            == old(self).outputs@[j]);
                }
                return ;
            }
            i = i + 1;
        }
    }

    /// Apply a logical-geometry event for the record at `index`. An event for
    /// an out-of-range index is a non-fatal anomaly and changes nothing.
    pub fn apply_xdg_output_event(&mut self, index: usize, event: XdgOutputEvent)
        requires
            old(self).wf(),
        ensures
            final(self).wf(),
            final(self).outputs@.len() == old(self).outputs@.len(),
            forall|i: int|
                0 <= i < old(self).outputs@.len() && i != index ==> final(self).outputs@[i]
                    == old(self).outputs@[i],
            (index as int) < old(self).outputs@.len() ==> final(self).outputs@[index as int]
                == xdg_updated(old(self).outputs@[index as int], event),
    {
        if index < self.outputs.len() {
            let o = self.outputs.remove(index);
            let updated = match event {
                XdgOutputEvent::LogicalPosition { x, y } => OutputInfo {
                    logical_region: LogicalRegion {
                        position: Position { x, y },
                        size: o.logical_region.size,
                    },
                    ..o
                },
                XdgOutputEvent::LogicalSize { width, height } => OutputInfo {
                    logical_region: LogicalRegion {
                        position: o.logical_region.position,
                        size: Size {
                            width: if width < 0 {
                                0
                            } else {
                                width as u32
                            },
                            height: if height < 0 {
                                0
                            } else {
                                height as u32
                            },
                        },
                    },
                    ..o
                },
                _ => o,
            };
            self.outputs.insert(index, updated);
        }
    }

    /// Close a discovery run: keep the usable records, in order; fail with
    /// `NoOutputs` exactly when none is usable.
    pub fn finish_discovery(self) -> (r: Result<Vec<OutputInfo>, Error>)
        requires
            self.wf(),
        ensures
            r is Ok <==> discovered_outputs(self.outputs@).len() > 0,
            r is Ok ==> r.unwrap()@ == discovered_outputs(self.outputs@),
            r is Ok ==> forall|i: int|
                0 <= i < r.unwrap()@.len() ==> (#[trigger] r.unwrap()@[i]).discovered(),
            r is Err ==> r.unwrap_err() is NoOutputs,
    {
        let ghost orig = self.outputs@;
        let mut remaining = self.outputs;
        let mut kept: Vec<OutputInfo> = Vec::new();
        let ghost mut k: int = 0;
        while remaining.len() > 0
            invariant
                0 <= k <= orig.len(),
                remaining@ =~= orig.skip(k),
                kept@ == discovered_outputs(orig.take(k)),
                forall|i: int| 0 <= i < orig.len() ==> (#[trigger] orig[i]).wf(),
            decreases remaining@.len(),
        {
            let o = remaining.remove(0);
            proof {
                assert(o == orig[k]);
                assert(orig.take(k + 1).drop_last() =~= orig.take(k));
                assert(orig.take(k + 1).last() == orig[k]);
                assert(remaining@ =~= orig.skip(k + 1));
            }
            if o.logical_region.size.width > 0 && o.logical_region.size.height > 0 {
                kept.push(o);
            }
            proof {
                k = k + 1;
            }
        }
        proof {
            assert(orig.take(orig.len() as int) =~= orig);
            lemma_discovered_outputs_all(orig);
        }
        if kept.len() == 0 {
            Err(Error::NoOutputs)
        } else {
            Ok(kept)
        }
    }
}

/// Whether a registry announcement names an output object usable for
/// capture: the output interface at protocol version 4 or newer.
pub fn wants_output_global(interface: &String, version: u32) -> (r: bool)
    ensures
        r == (interface@ == "wl_output"@ && version >= 4),
{
    let want: String = "wl_output".to_owned();
    *interface == want && version >= 4
}

// ---------------------------------------------------------------------------
// Capture session
// ---------------------------------------------------------------------------

/// Terminal outcome of one capture negotiation or frame copy.
#[derive(Debug, Copy, Clone, PartialEq, Eq, Structural)]
pub enum FrameState {
    /// The server stopped the session or failed the frame.
    Failed,
    /// The server completed negotiation or delivered the frame.
    Finished,
}

/// Per-output, per-capture negotiation state: the pending (width, height,
/// format) triple, the committed format list, and the terminal outcome.
#[derive(Debug)]
pub struct CaptureFrameState {
    /// Formats committed by a negotiation-done signal, stride still 0.
    pub formats: Vec<FrameFormat>,
    /// Terminal outcome, once one was signalled.
    pub state: Option<FrameState>,
    /// Ready flag: a terminal signal has arrived.
    pub buffer_done: bool,
    /// Pending buffer width, awaiting the negotiation-done signal.
    pub pending_width: Option<u32>,
    /// Pending buffer height, awaiting the negotiation-done signal.
    pub pending_height: Option<u32>,
    /// Pending pixel layout, awaiting the negotiation-done signal.
    pub pending_format: Option<PixelFormat>,
}

/// An event of the capture-session object.
#[derive(Debug)]
pub enum SessionEvent {
    /// The buffer dimensions the server proposes.
    BufferSize { width: u32, height: u32 },
    /// A shared-memory pixel layout the server proposes.
    ShmFormat { format: PixelFormat },
    /// Negotiation is complete; the pending triple is committed.
    Done,
    /// The session was stopped; it is unusable.
    Stopped,
    /// Any other event of the session object.
    Other,
}

/// An event of the capture-frame object, after the capture request.
#[derive(Debug)]
pub enum FrameEvent {
    /// The buffer now holds valid pixel data.
    Ready,
    /// The copy failed; the reason is informational only and not tracked.
    Failed,
    /// Any other event of the frame object.
    Other,
}

/// Whether a frame event is terminal: exactly the ready and failed signals
/// end the blocking wait for the copy.
pub fn frame_event_is_terminal(event: &FrameEvent) -> (r: bool)
    ensures
        r == (event is Ready || event is Failed),
{
    match event {
        FrameEvent::Ready | FrameEvent::Failed => true,
        FrameEvent::Other => false,
    }
}

/// The pending triple is complete, so a done signal commits a format.
pub open spec fn commits(s: CaptureFrameState) -> bool {
    s.pending_width is Some && s.pending_height is Some && s.pending_format is Some
}

/// The format a done signal commits, stride deferred.
pub open spec fn committed_format(s: CaptureFrameState) -> FrameFormat {
    FrameFormat {
        format: s.pending_format.unwrap(),
        size: Size { width: s.pending_width.unwrap(), height: s.pending_height.unwrap() },
        stride: 0u32,
    }
}

impl CaptureFrameState {
    /// The ready flag is set only by a terminal signal.
    pub open spec fn wf(self) -> bool {
        self.buffer_done ==> self.state is Some
    }

    /// Fresh state for one capture call.
    pub fn new() -> (r: CaptureFrameState)
        ensures
            r.formats@ == Seq::<FrameFormat>::empty(),
            r.state is None,
            !r.buffer_done,
            r.pending_width is None,
            r.pending_height is None,
            r.pending_format is None,
            r.wf(),
    {
        CaptureFrameState {
            formats: Vec::new(),
            state: None,
            buffer_done: false,
            pending_width: None,
            pending_height: None,
            pending_format: None,
        }
    }

    /// The session reached a terminal state; event processing may stop.
    pub fn ready(&self) -> (r: bool)
        ensures
            r == self.buffer_done,
    {
        self.buffer_done
    }

    /// Apply one capture-session event. This is the only mutator of the
    /// negotiation state: size and format events populate the pending
    /// triple; a done signal commits the triple (when complete) as one
    /// format entry, clears it, and ends the session `Finished`; a stopped
    /// signal ends the session `Failed` without committing anything.
    pub fn apply_session_event(&mut self, event: SessionEvent)
        requires
            old(self).wf(),
        ensures
            final(self).wf(),
            final(self).buffer_done == (old(self).buffer_done || event is Done
                || event is Stopped),
            final(self).state == (if event is Done {
                Some(FrameState::Finished)
            } else if event is Stopped {
                Some(FrameState::Failed)
            } else {
                old(self).state
            }),
            final(self).formats@ == (if event is Done && commits(*old(self)) {
                old(self).formats@.push(committed_format(*old(self)))
            } else {
                old(self).formats@
            }),
            final(self).pending_width == (match event {
                SessionEvent::BufferSize { width, .. } => Some(width),
                SessionEvent::Done => None::<u32>,
                _ => old(self).pending_width,
            }),
            final(self).pending_height == (match event {
                SessionEvent::BufferSize { height, .. } => Some(height),
                SessionEvent::Done => None::<u32>,
                _ => old(self).pending_height,
            }),
            final(self).pending_format == (match event {
                SessionEvent::ShmFormat { format } => Some(format),
                SessionEvent::Done => None::<PixelFormat>,
                _ => old(self).pending_format,
            }),
    {
        match event {
            SessionEvent::BufferSize { width, height } => {
                self.pending_width = Some(width);
                self.pending_height = Some(height);
            },
            SessionEvent::ShmFormat { format } => {
                self.pending_format = Some(format);
            },
            SessionEvent::Done => {
                if self.pending_width.is_some() && self.pending_height.is_some()
                    && self.pending_format.is_some() {
                    let width = self.pending_width.unwrap();
                    let height = self.pending_height.unwrap();
                    let format = self.pending_format.unwrap();
                    self.formats.push(
                        FrameFormat { format, size: Size { width, height }, stride: 0 },
                    );
                }
                self.pending_width = None;
                self.pending_height = None;
                self.pending_format = None;
                self.state = Some(FrameState::Finished);
                self.buffer_done = true;
            },
            SessionEvent::Stopped => {
                self.state = Some(FrameState::Failed);
                self.buffer_done = true;
            },
            SessionEvent::Other => {},
        }
    }

    /// Apply a terminal event of the capture-frame object: a ready signal
    /// completes the copy, a failed signal fails it, anything else changes
    /// nothing. The negotiation fields are untouched.
    pub fn apply_frame_event(&mut self, event: FrameEvent)
        requires
            old(self).wf(),
        ensures
            final(self).wf(),
            final(self).state == (match event {
                FrameEvent::Ready => Some(FrameState::Finished),
                FrameEvent::Failed => Some(FrameState::Failed),
                FrameEvent::Other => old(self).state,
            }),
            final(self).formats@ == old(self).formats@,
            final(self).buffer_done == old(self).buffer_done,
            final(self).pending_width == old(self).pending_width,
            final(self).pending_height == old(self).pending_height,
            final(self).pending_format == old(self).pending_format,
    {
        match event {
            FrameEvent::Ready => {
                self.state = Some(FrameState::Finished);
            },
            FrameEvent::Failed => {
                self.state = Some(FrameState::Failed);
            },
            FrameEvent::Other => {},
        }
    }

    /// Close negotiation once a terminal signal arrived: a stopped session
    /// is a typed failure; otherwise a format is selected from the committed
    /// list by preference order and its stride is recomputed on the selected
    /// entry as width times bytes-per-pixel.
    pub fn finish_negotiation(&self) -> (r: Result<FrameFormat, Error>)
        requires
            self.wf(),
            self.buffer_done,
        ensures
            self.state == Some(FrameState::Failed) ==> r is Err && r.unwrap_err()
                is CaptureFailed,
            self.state == Some(FrameState::Finished) && select_spec(self.formats@) is None
                ==> r is Err && r.unwrap_err() is NoSupportedBufferFormat,
            self.state == Some(FrameState::Finished) && select_spec(self.formats@) is Some ==> {
                let chosen = select_spec(self.formats@).unwrap();
                if 4 * chosen.size.width <= u32::MAX {
                    r is Ok && r.unwrap() == FrameFormat {
                        stride: (4 * chosen.size.width) as u32,
                        ..chosen
                    }
                } else {
                    r is Err && r.unwrap_err() is BufferTooSmall
                }
            },
            r is Ok ==> crate::screencopy::supported_format(r.unwrap().format)
                && r.unwrap().stride == crate::screencopy::bytes_per_pixel(r.unwrap().format)
                * r.unwrap().size.width
                && r.unwrap().spec_byte_size() == r.unwrap().stride * r.unwrap().size.height,
    {
        match self.state {
            Some(FrameState::Failed) => Err(Error::CaptureFailed),
            Some(FrameState::Finished) => {
                match crate::screencopy::select_frame_format(&self.formats) {
                    None => Err(Error::NoSupportedBufferFormat),
                    Some(chosen) => {
                        if chosen.size.width <= u32::MAX / 4 {
                            Ok(
                                FrameFormat {
                                    format: chosen.format,
                                    size: chosen.size,
                                    stride: 4 * chosen.size.width,
                                },
                            )
                        } else {
                            Err(Error::BufferTooSmall)
                        }
                    },
                }
            },
            None => {
                // The ready flag is set only together with a terminal state.
                proof {
                    assert(false);
                }
                Err(Error::CaptureFailed)
            },
        }
    }
}

// ---------------------------------------------------------------------------
// Registry bootstrap and overlay surfaces
// ---------------------------------------------------------------------------

/// State for the initial registry round-trip; every event is ignored.
#[derive(Debug)]
pub struct WayshotState {}

/// Tracks which outputs' overlay surfaces the compositor has configured.
#[derive(Debug)]
pub struct LayerShellState {
    /// Handles of the outputs whose layer surface was configured, each once.
    pub configured_outputs: Vec<u64>,
}

/// An event of a layer surface, keyed by its output's handle.
#[derive(Debug)]
pub enum LayerSurfaceEvent {
    /// The compositor configured the surface; the serial is acknowledged by
    /// the transport layer.
    Configure { serial: u32 },
    /// The surface was closed.
    Closed,
    /// Any other event of the layer surface.
    Other,
}

impl LayerShellState {
    /// An empty overlay tracker.
    pub fn new() -> (r: LayerShellState)
        ensures
            r.configured_outputs@ == Seq::<u64>::empty(),
    {
        LayerShellState { configured_outputs: Vec::new() }
    }

    /// Apply one layer-surface event: a configure acknowledgment marks the
    /// owning output configured; everything else changes nothing.
    pub fn apply_layer_surface_event(&mut self, output_id: u64, event: LayerSurfaceEvent)
        ensures
            event is Configure ==> final(self).configured_outputs@ == (if old(
                self,
            ).configured_outputs@.contains(output_id) {
                old(self).configured_outputs@
            } else {
                old(self).configured_outputs@.push(output_id)
            }),
            !(event is Configure) ==> final(self).configured_outputs@ == old(
                self,
            ).configured_outputs@,
    {
        match event {
            LayerSurfaceEvent::Configure { serial: _ } => {
                if !self.is_configured(output_id) {
                    self.configured_outputs.push(output_id);
                }
            },
            _ => {},
        }
    }

    /// Whether the output's overlay surface has been configured.
    pub fn is_configured(&self, id: u64) -> (r: bool)
        ensures
            r == self.configured_outputs@.contains(id),
    {
        let n = self.configured_outputs.len();
        let mut i: usize = 0;
        while i < n
            invariant
                n == self.configured_outputs@.len(),
                0 <= i <= n,
                forall|j: int| 0 <= j < i ==> self.configured_outputs@[j] != id,
            decreases n - i,
        {
            if self.configured_outputs[i] == id {
                return true;
            }
            i = i + 1;
        }
        false
    }

    /// Whether every listed output's overlay surface has been configured.
    pub fn all_configured(&self, ids: &Vec<u64>) -> (r: bool)
        ensures
            r == (forall|i: int|
                0 <= i < ids@.len() ==> self.configured_outputs@.contains(#[trigger] ids@[i])),
    {
        let n = ids.len();
        let mut i: usize = 0;
        while i < n
            invariant
                n == ids@.len(),
                0 <= i <= n,
                forall|j: int|
                    0 <= j < i ==> self.configured_outputs@.contains(#[trigger] ids@[j]),
            decreases n - i,
        {
            if !self.is_configured(ids[i]) {
                return false;
            }
            i = i + 1;
        }
        true
    }
}

/// The pixel size an overlay surface is given: the redisplayed frame's
/// buffer dimensions.
pub fn overlay_surface_size(frame: &FrameCopy) -> (r: Size)
    ensures
        r == frame.frame_format.size,
{
    frame.frame_format.size
}

/// The destination size handed to the viewport scaler for an overlay
/// surface: the output's logical size, as the protocol's signed values.
pub fn viewport_destination(output: &OutputInfo) -> (r: (i32, i32))
    requires
        output.wf(),
    ensures
        r.0 == output.logical_region.size.width as i32,
        r.1 == output.logical_region.size.height as i32,
{
    (output.logical_region.size.width as i32, output.logical_region.size.height as i32)
}

} // verus!
