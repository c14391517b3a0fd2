//! One display output: its mode, its rotation of images and the
//! double-buffer handshake with the compositor for its background surface.

use vstd::prelude::*;

verus! {

/// Where an output's background surface stands in the handshake.
#[derive(PartialEq, Eq, Structural, Clone, Copy, Debug)]
pub enum SurfaceState {
    /// No surface exists (new output, after a resize, or after a failure).
    NoSurface,
    /// The surface was created and committed; no configure was acknowledged yet.
    AwaitingConfigure,
    /// Configured and no buffer is held by the compositor: the region may be written.
    Ready,
    /// A buffer was committed and not yet released: the region must not be written.
    PendingRedraw,
}

/// What happens to an output's surface, as far as its state is concerned.
#[derive(PartialEq, Eq, Structural, Clone, Copy, Debug)]
pub enum SurfaceEvent {
    /// The output's properties are complete and its mode is usable.
    Done,
    /// The mode changed: everything is torn down.
    ModeChanged,
    /// Creating wire objects or allocating the region failed.
    SetupFailed,
    /// A configure serial was acknowledged.
    Acked,
    /// The scheduler found the output due.
    RedrawDue,
    /// The compositor released the committed buffer.
    BufferReleased,
}

/// The state after `e` in state `s`.
pub open spec fn next_state(s: SurfaceState, e: SurfaceEvent) -> SurfaceState {
    match e {
        SurfaceEvent::Done => if s == SurfaceState::NoSurface {
            SurfaceState::AwaitingConfigure
        } else {
            s
        },
        SurfaceEvent::ModeChanged => SurfaceState::NoSurface,
        SurfaceEvent::SetupFailed => SurfaceState::NoSurface,
        SurfaceEvent::Acked => if s == SurfaceState::AwaitingConfigure {
            SurfaceState::Ready
        } else {
            s
        },
        SurfaceEvent::RedrawDue => if s == SurfaceState::Ready {
            SurfaceState::PendingRedraw
        } else {
            s
        },
        SurfaceEvent::BufferReleased => if s == SurfaceState::PendingRedraw {
            SurfaceState::Ready
        } else {
            s
        },
    }
}

/// Whether `e` in state `s` writes the shared region and commits it.
pub open spec fn draws(s: SurfaceState, e: SurfaceEvent) -> bool {
    e == SurfaceEvent::RedrawDue && s == SurfaceState::Ready
}

/// The state after a sequence of events.
pub open spec fn run(s: SurfaceState, events: Seq<SurfaceEvent>) -> SurfaceState
    decreases events.len(),
{
    if events.len() == 0 {
        s
    } else {
        run(next_state(s, events[0]), events.drop_first())
    }
}

/// Whether some event of the sequence, starting in `s`, writes the region.
pub open spec fn draws_during(s: SurfaceState, events: Seq<SurfaceEvent>) -> bool
    decreases events.len(),
{
    if events.len() == 0 {
        false
    } else {
        draws(s, events[0]) || draws_during(next_state(s, events[0]), events.drop_first())
    }
}

/// Events that end the life of a committed buffer generation.
pub open spec fn ends_generation(e: SurfaceEvent) -> bool {
    e == SurfaceEvent::BufferReleased || e == SurfaceEvent::ModeChanged || e
        == SurfaceEvent::SetupFailed
}

/// After a commit, no event writes the region until the buffer is released
/// (or the surface is torn down): the state stays `PendingRedraw` and nothing draws.
pub proof fn lemma_no_write_before_release(events: Seq<SurfaceEvent>)
    requires
        forall|i: int| 0 <= i < events.len() ==> !ends_generation(#[trigger] events[i]),
    ensures
        !draws_during(SurfaceState::PendingRedraw, events),
        run(SurfaceState::PendingRedraw, events) == SurfaceState::PendingRedraw,
    decreases events.len(),
{
    if events.len() > 0 {
        let rest = events.drop_first();
        assert(!ends_generation(events[0]));
        assert forall|i: int| 0 <= i < rest.len() implies !ends_generation(#[trigger] rest[i]) by {
            assert(rest[i] == events[i + 1]);
        }
        lemma_no_write_before_release(rest);
    }
}

/// While the surface waits for its first configure acknowledgement, no
/// redraw happens: only an acknowledgement leads out of that state to `Ready`.
pub proof fn lemma_no_redraw_while_awaiting_configure(events: Seq<SurfaceEvent>)
    requires
        forall|i: int| 0 <= i < events.len() ==> #[trigger] events[i] != SurfaceEvent::Acked,
    ensures
        !draws_during(SurfaceState::AwaitingConfigure, events),
    decreases events.len(),
{
    if events.len() > 0 {
        let rest = events.drop_first();
        assert(events[0] != SurfaceEvent::Acked);
        assert forall|i: int| 0 <= i < rest.len() implies #[trigger] rest[i] != SurfaceEvent::Acked by {
            assert(rest[i] == events[i + 1]);
        }
        let s1 = next_state(SurfaceState::AwaitingConfigure, events[0]);
        if s1 == SurfaceState::AwaitingConfigure {
            lemma_no_redraw_while_awaiting_configure(rest);
        } else {
            // torn down: NoSurface until a Done, which leads back to AwaitingConfigure
            lemma_no_redraw_from_no_surface(rest);
        }
    }
}

proof fn lemma_no_redraw_from_no_surface(events: Seq<SurfaceEvent>)
    requires
        forall|i: int| 0 <= i < events.len() ==> #[trigger] events[i] != SurfaceEvent::Acked,
    ensures
        !draws_during(SurfaceState::NoSurface, events),
    decreases events.len(),
{
    if events.len() > 0 {
        let rest = events.drop_first();
        assert(events[0] != SurfaceEvent::Acked);
        assert forall|i: int| 0 <= i < rest.len() implies #[trigger] rest[i] != SurfaceEvent::Acked by {
            assert(rest[i] == events[i + 1]);
        }
        let s1 = next_state(SurfaceState::NoSurface, events[0]);
        if s1 == SurfaceState::NoSurface {
            lemma_no_redraw_from_no_surface(rest);
        } else {
            lemma_no_redraw_while_awaiting_configure(rest);
        }
    }
}

/// The largest byte count the compositor's pool accepts (its size is an `i32`).
pub const MAX_POOL_BYTES: u64 = 0x7fff_ffff;

/// What the caller must do on the wire for an output.
#[derive(PartialEq, Eq, Structural, Clone, Copy, Debug)]
pub enum SurfaceAction {
    /// Allocate the shared region of `size` bytes, create the surface and its
    /// background layer surface of `width` x `height`, anchored to all edges
    /// with exclusive zone -1, and commit.
    Create { width: u32, height: u32, size: usize },
    /// Destroy the output's wire objects (layer surface, surface, pool,
    /// buffer) and release its region.
    Teardown,
    /// Acknowledge configure `serial`.
    AckConfigure { serial: u32 },
    /// Create a buffer over the region, write into it the fitted image of
    /// corpus entry `image` (a flat fill when there is none), attach it,
    /// damage the whole surface and commit.
    Draw { image: Option<usize> },
    /// Destroy the released buffer object.
    DestroyBuffer,
}

/// What the compositor reports about one output, or about the objects made
/// for it.
pub enum OutputEvent {
    Geometry { make: String, model: String },
    Mode { width: u32, height: u32 },
    Name { name: String },
    Description { description: String },
    /// The output's properties are complete.
    Done,
    /// The layer surface was configured.
    Configure { serial: u32 },
    /// The committed buffer was released.
    BufferRelease,
    /// Making the surface or its region failed on this side.
    SetupFailed,
}

/// A display output and the state of its background surface.
pub struct Output {
    /// The registry name the output was announced under.
    pub id: u32,
    pub make: String,
    pub name: String,
    pub model: String,
    pub mode_height: u32,
    pub mode_width: u32,
    pub description: String,
    pub state: SurfaceState,
    /// The latest configure serial not acknowledged yet.
    pub serial_to_ack: Option<u32>,
    /// The rotation: indices into the image corpus.
    pub image_list: Vec<usize>,
    /// Position of the next image in the rotation.
    pub cursor: usize,
    /// When the next redraw is due (milliseconds on the monotonic clock).
    pub next_redraw: Option<u64>,
}

impl Output {
    /// The cursor points into a non-empty rotation, or is 0.
    pub open spec fn wf(&self) -> bool {
        if self.image_list@.len() == 0 {
            self.cursor == 0
        } else {
            self.cursor < self.image_list@.len()
        }
    }

    /// No configure has been acknowledged for the current surface.
    pub open spec fn configure_pending_spec(&self) -> bool {
        self.state == SurfaceState::NoSurface || self.state == SurfaceState::AwaitingConfigure
    }

    /// A mode whose buffer fits a pool.
    pub open spec fn mode_usable_spec(&self) -> bool {
        self.mode_width > 0 && self.mode_height > 0 && self.mode_width * self.mode_height * 4
            <= MAX_POOL_BYTES
    }

    /// Due at `now`: no redraw scheduled, or its time has come.
    pub open spec fn due_spec(&self, now: u64) -> bool {
        match self.next_redraw {
            None => true,
            Some(t) => t <= now,
        }
    }

    /// Everything of `self` but the rotation and its cursor.
    pub open spec fn same_but_rotation(&self, other: &Output) -> bool {
        &&& self.id == other.id
        &&& self.make == other.make
        &&& self.name == other.name
        &&& self.model == other.model
        &&& self.description == other.description
        &&& self.mode_width == other.mode_width
        &&& self.mode_height == other.mode_height
        &&& self.state == other.state
        &&& self.serial_to_ack == other.serial_to_ack
        &&& self.next_redraw == other.next_redraw
    }

    pub fn new() -> (r: Self)
        ensures
            r.id == 0,
            r.make@.len() == 0,
            r.name@.len() == 0,
            r.model@.len() == 0,
            r.description@.len() == 0,
            r.mode_width == 0,
            r.mode_height == 0,
            r.state == SurfaceState::NoSurface,
            r.serial_to_ack.is_none(),
            r.image_list@.len() == 0,
            r.cursor == 0,
            r.next_redraw.is_none(),
            r.wf(),
    {
        Output {
            id: 0,
            make: String::new(),
            name: String::new(),
            model: String::new(),
            mode_height: 0,
            mode_width: 0,
            description: String::new(),
            state: SurfaceState::NoSurface,
            serial_to_ack: None,
            image_list: Vec::new(),
            cursor: 0,
            next_redraw: None,
        }
    }

    pub fn configure_pending(&self) -> (r: bool)
        ensures
            r == self.configure_pending_spec(),
    {
        match self.state {
            SurfaceState::NoSurface | SurfaceState::AwaitingConfigure => true,
            _ => false,
        }
    }

    pub fn mode_usable(&self) -> (r: bool)
        ensures
            r == self.mode_usable_spec(),
    {
        let w = self.mode_width as u64;
        let h = self.mode_height as u64;
        assert(w * h <= u32::MAX * u32::MAX) by (nonlinear_arith)
            requires
                w <= u32::MAX,
                h <= u32::MAX,
        ;
        w > 0 && h > 0 && w * h <= MAX_POOL_BYTES / 4
    }

    /// Bytes of one frame: `width * height * 4`.
    pub fn get_memory_size(&self) -> (r: usize)
        requires
            self.mode_usable_spec(),
        ensures
            r == self.mode_width * self.mode_height * 4,
            r > 0,
    {
        let w = self.mode_width as u64;
        let h = self.mode_height as u64;
        assert(w * h > 0) by (nonlinear_arith)
            requires
                w > 0,
                h > 0,
        ;
        (w * h * 4) as usize
    }

    /// Bytes of one row: `width * 4`.
    pub fn get_stride_i32(&self) -> (r: i32)
        requires
            self.mode_width * 4 <= MAX_POOL_BYTES,
        ensures
            r == self.mode_width * 4,
    {
        (self.mode_width * 4) as i32
    }

    pub fn get_memory_size_i32(&self) -> (r: i32)
        requires
            self.mode_usable_spec(),
        ensures
            r == self.mode_width * self.mode_height * 4,
    {
        (self.get_memory_size() as u64) as i32
    }

    pub open spec fn cleared(self) -> Output {
        Output {
            state: SurfaceState::NoSurface,
            serial_to_ack: None,
            next_redraw: None,
            ..self
        }
    }

    /// Forgets the surface: back to `NoSurface`, nothing to acknowledge,
    /// nothing scheduled.
    pub fn clear(&mut self)
        ensures
            *final(self) == old(self).cleared(),
    {
        self.state = SurfaceState::NoSurface;
        self.serial_to_ack = None;
        self.next_redraw = None;
    }

    /// `self` after a mode event: a changed size resets the surface to
    /// `NoSurface`, with nothing to acknowledge and nothing scheduled.
    pub open spec fn after_mode(self, width: u32, height: u32) -> Output {
        if width == self.mode_width && height == self.mode_height {
            self
        } else {
            Output { mode_width: width, mode_height: height, ..self }.cleared()
        }
    }

    /// A mode event: a changed size resets the surface (which the caller tears
    /// down); the same size changes nothing.
    pub fn on_mode(&mut self, width: u32, height: u32) -> (r: Option<SurfaceAction>)
        ensures
            *final(self) == old(self).after_mode(width, height),
            r == (if width == old(self).mode_width && height == old(self).mode_height {
                None
            } else {
                Some(SurfaceAction::Teardown)
            }),
    {
        if width == self.mode_width && height == self.mode_height {
            return None;
        }
        self.mode_width = width;
        self.mode_height = height;
        self.clear();
        Some(SurfaceAction::Teardown)
    }

    /// A surface is made when there is none and the mode is usable.
    pub open spec fn creates_on_done(self) -> bool {
        self.state == SurfaceState::NoSurface && self.mode_usable_spec()
    }

    pub open spec fn after_done(self) -> Output {
        if self.creates_on_done() {
            Output { state: next_state(self.state, SurfaceEvent::Done), ..self }
        } else {
            self
        }
    }

    /// The output's properties are complete: a surface is created when there
    /// is none and the mode is usable.
    pub fn on_done(&mut self) -> (r: Option<SurfaceAction>)
        ensures
            *final(self) == old(self).after_done(),
            r == (if old(self).creates_on_done() {
                Some(
                    SurfaceAction::Create {
                        width: old(self).mode_width,
                        height: old(self).mode_height,
                        size: (old(self).mode_width * old(self).mode_height * 4) as usize,
                    },
                )
            } else {
                None
            }),
    {
        if self.state == SurfaceState::NoSurface && self.mode_usable() {
            let size = self.get_memory_size();
            self.state = SurfaceState::AwaitingConfigure;
            Some(SurfaceAction::Create { width: self.mode_width, height: self.mode_height, size })
        } else {
            None
        }
    }

    pub open spec fn after_setup_failed(self) -> Output {
        self.cleared()
    }

    /// Creating the surface or its region failed: the output is skipped until
    /// its next resize or re-creation; whatever was made is torn down.
    pub fn on_setup_failed(&mut self) -> (r: SurfaceAction)
        ensures
            *final(self) == old(self).after_setup_failed(),
            r == SurfaceAction::Teardown,
    {
        self.clear();
        SurfaceAction::Teardown
    }

    pub open spec fn after_configure(self, serial: u32) -> Output {
        if self.state != SurfaceState::NoSurface {
            Output { serial_to_ack: Some(serial), ..self }
        } else {
            self
        }
    }

    /// A configure event: its serial supersedes any earlier one not yet
    /// acknowledged.  Ignored when there is no surface.
    pub fn on_configure(&mut self, serial: u32)
        ensures
            *final(self) == old(self).after_configure(serial),
    {
        if self.state != SurfaceState::NoSurface {
            self.serial_to_ack = Some(serial);
        }
    }

    /// `self` after acknowledging its pending configure serial, if any.
    pub open spec fn acked(self) -> Output {
        if self.serial_to_ack is Some {
            Output {
                serial_to_ack: None,
                state: next_state(self.state, SurfaceEvent::Acked),
                ..self
            }
        } else {
            self
        }
    }

    /// The acknowledgement owed for the pending configure serial, if any.
    pub open spec fn ack_action(self) -> Option<SurfaceAction> {
        match self.serial_to_ack {
            Some(serial) => Some(SurfaceAction::AckConfigure { serial }),
            None => None,
        }
    }

    /// Acknowledges the latest configure serial, if any; the first
    /// acknowledgement makes the surface ready.
    pub fn take_ack(&mut self) -> (r: Option<SurfaceAction>)
        ensures
            *final(self) == old(self).acked(),
            r == old(self).ack_action(),
    {
        match self.serial_to_ack {
            Some(serial) => {
                self.serial_to_ack = None;
                if self.state == SurfaceState::AwaitingConfigure {
                    self.state = SurfaceState::Ready;
                }
                Some(SurfaceAction::AckConfigure { serial })
            },
            None => None,
        }
    }

    pub open spec fn after_release(self) -> Output {
        if self.state == SurfaceState::PendingRedraw {
            Output { state: next_state(self.state, SurfaceEvent::BufferReleased), ..self }
        } else {
            self
        }
    }

    /// The compositor released the committed buffer: the region may be
    /// written again and the buffer object is destroyed.
    pub fn on_buffer_release(&mut self) -> (r: Option<SurfaceAction>)
        ensures
            *final(self) == old(self).after_release(),
            r == (if old(self).state == SurfaceState::PendingRedraw {
                Some(SurfaceAction::DestroyBuffer)
            } else {
                None
            }),
    {
        if self.state == SurfaceState::PendingRedraw {
            self.state = SurfaceState::Ready;
            Some(SurfaceAction::DestroyBuffer)
        } else {
            None
        }
    }

    /// `self` after event `e`.
    pub open spec fn after_event(self, e: OutputEvent) -> Output {
        match e {
            OutputEvent::Geometry { make, model } => Output { make, model, ..self },
            OutputEvent::Mode { width, height } => self.after_mode(width, height),
            OutputEvent::Name { name } => Output { name, ..self },
            OutputEvent::Description { description } => Output { description, ..self },
            OutputEvent::Done => self.after_done(),
            OutputEvent::Configure { serial } => self.after_configure(serial),
            OutputEvent::BufferRelease => self.after_release(),
            OutputEvent::SetupFailed => self.after_setup_failed(),
        }
    }

    /// What the caller must do on the wire after event `e`.
    pub open spec fn event_action(self, e: OutputEvent) -> Option<SurfaceAction> {
        match e {
            OutputEvent::Mode { width, height } => if width == self.mode_width && height
                == self.mode_height {
                None
            } else {
                Some(SurfaceAction::Teardown)
            },
            OutputEvent::Done => if self.creates_on_done() {
                Some(
                    SurfaceAction::Create {
                        width: self.mode_width,
                        height: self.mode_height,
                        size: (self.mode_width * self.mode_height * 4) as usize,
                    },
                )
            } else {
                None
            },
            OutputEvent::BufferRelease => if self.state == SurfaceState::PendingRedraw {
                Some(SurfaceAction::DestroyBuffer)
            } else {
                None
            },
            OutputEvent::SetupFailed => Some(SurfaceAction::Teardown),
            _ => None,
        }
    }

    /// Applies one event to the output and says what to do on the wire.
    pub fn handle_event(&mut self, e: OutputEvent) -> (r: Option<SurfaceAction>)
        ensures
            *final(self) == old(self).after_event(e),
            r == old(self).event_action(e),
    {
        match e {
            OutputEvent::Geometry { make, model } => {
                self.make = make;
                self.model = model;
                None
            },
            OutputEvent::Mode { width, height } => self.on_mode(width, height),
            OutputEvent::Name { name } => {
                self.name = name;
                None
            },
            OutputEvent::Description { description } => {
                self.description = description;
                None
            },
            OutputEvent::Done => self.on_done(),
            OutputEvent::Configure { serial } => {
                self.on_configure(serial);
                None
            },
            OutputEvent::BufferRelease => self.on_buffer_release(),
            OutputEvent::SetupFailed => Some(self.on_setup_failed()),
        }
    }

    /// The next image of the rotation (none when the rotation is empty).
    pub open spec fn current_image(&self) -> Option<usize> {
        if self.image_list@.len() == 0 {
            None
        } else {
            Some(self.image_list@[self.cursor as int])
        }
    }

    /// The cursor after one step around the rotation.
    pub open spec fn advanced_cursor(&self) -> usize {
        if self.image_list@.len() == 0 {
            0
        } else {
            ((self.cursor + 1) % (self.image_list@.len() as int)) as usize
        }
    }

    /// `self` after a redraw check at `now`: a configured output that is due
    /// gets its next redraw at `now + interval`; a ready one also commits a
    /// buffer and steps its cursor; a surface whose buffer is still held
    /// keeps its frame.
    pub open spec fn redrawn(self, now: u64, interval: u64) -> Output {
        if self.configure_pending_spec() || !self.due_spec(now) {
            self
        } else if self.state == SurfaceState::Ready {
            Output {
                state: next_state(self.state, SurfaceEvent::RedrawDue),
                cursor: self.advanced_cursor(),
                next_redraw: Some((now + interval) as u64),
                ..self
            }
        } else {
            Output { next_redraw: Some((now + interval) as u64), ..self }
        }
    }

    /// The draw a redraw check at `now` asks for, if any.
    pub open spec fn redraw_action(self, now: u64) -> Option<SurfaceAction> {
        if !self.configure_pending_spec() && self.due_spec(now) && draws(
            self.state,
            SurfaceEvent::RedrawDue,
        ) {
            Some(SurfaceAction::Draw { image: self.current_image() })
        } else {
            None
        }
    }

    /// Redraws the output if it is configured and due at `now`.  A ready
    /// surface draws the next image of the rotation; a surface whose buffer
    /// is still held keeps its frame.  Either way the next redraw is due at
    /// `now + interval`.
    pub fn begin_redraw(&mut self, now: u64, interval: u64) -> (r: Option<SurfaceAction>)
        requires
            old(self).wf(),
            now + interval <= u64::MAX,
        ensures
            final(self).wf(),
            *final(self) == old(self).redrawn(now, interval),
            r == old(self).redraw_action(now),
    {
        if self.configure_pending() {
            return None;
        }
        match self.next_redraw {
            Some(t) => {
                if t > now {
                    return None;
                }
            },
            None => {},
        }
        self.next_redraw = Some(now + interval);
        if self.state != SurfaceState::Ready {
            return None;
        }
        self.state = SurfaceState::PendingRedraw;
        let len = self.image_list.len();
        if len == 0 {
            return Some(SurfaceAction::Draw { image: None });
        }
        let image = self.image_list[self.cursor];
        self.cursor = (self.cursor + 1) % len;
        Some(SurfaceAction::Draw { image: Some(image) })
    }
}

/// A redraw check never writes the region of an output that awaits its
/// configure or whose committed buffer is not yet released, and leaves its
/// surface state as it is.
pub proof fn lemma_redraw_respects_handshake(o: Output, now: u64, interval: u64)
    requires
        o.configure_pending_spec() || o.state == SurfaceState::PendingRedraw,
    ensures
        o.redraw_action(now) is None,
        o.redrawn(now, interval).state == o.state,
{
}

/// Two ready outputs due at the same time are both drawn in the same pass
/// and are next due at the same time again.
pub proof fn lemma_due_outputs_stay_synchronized(a: Output, b: Output, now: u64, interval: u64)
    requires
        a.state == SurfaceState::Ready,
        b.state == SurfaceState::Ready,
        a.next_redraw == b.next_redraw,
        a.due_spec(now),
    ensures
        a.redraw_action(now) is Some,
        b.redraw_action(now) is Some,
        a.redrawn(now, interval).next_redraw == Some((now + interval) as u64),
        b.redrawn(now, interval).next_redraw == a.redrawn(now, interval).next_redraw,
{
}

} // verus!
