//! The application context: the table of outputs, the corpus and the
//! settings, and the decisions of the event loop (how long to wait, which
//! outputs to redraw, which configures to acknowledge).

use vstd::prelude::*;

use crate::config::Config;
use crate::image_file::{plan_rotations, planned, ImageFile, PlanningError};
use crate::output::{Output, OutputEvent, SurfaceAction};

verus! {

/// The shared-memory pixel format code of 32-bit ARGB (B, G, R, A bytes in
/// memory), which rendering requires.
pub const FORMAT_ARGB8888: u32 = 0;

/// The context of the gallery.  Outputs are kept in the order in which they
/// were announced; their ids are distinct.
pub struct WlApp {
    pub output_map: Vec<Output>,
    pub supported_formats_vec: Vec<u32>,
    pub config: Config,
    pub image_list: Vec<ImageFile>,
    /// Some output's shared region was allocated at least once.
    pub any_region_allocated: bool,
}

/// No shared region could be allocated for the first output: nothing can
/// ever be shown.
#[derive(PartialEq, Eq, Structural, Clone, Copy, Debug)]
pub enum AllocationError {
    FirstRegion,
}

/// `outs` after event `e` for the output announced as `id`.
pub open spec fn dispatched(outs: Seq<Output>, id: u32, e: OutputEvent) -> Seq<Output> {
    Seq::new(
        outs.len(),
        |k: int|
            if outs[k].id == id {
                outs[k].after_event(e)
            } else {
                outs[k]
            },
    )
}

/// Milliseconds until `o`'s next redraw, 0 when it is due at `now`.
pub open spec fn remaining(o: Output, now: u64) -> int {
    match o.next_redraw {
        None => 0,
        Some(t) => if t > now {
            t - now
        } else {
            0
        },
    }
}

/// The least remaining time over the configured outputs; `None` when no
/// output is configured.
pub open spec fn min_wait(outs: Seq<Output>, now: u64) -> Option<int>
    decreases outs.len(),
{
    if outs.len() == 0 {
        None
    } else {
        let rest = min_wait(outs.drop_last(), now);
        let o = outs.last();
        if o.configure_pending_spec() {
            rest
        } else {
            match rest {
                None => Some(remaining(o, now)),
                Some(r) => Some(
                    if remaining(o, now) < r {
                        remaining(o, now)
                    } else {
                        r
                    },
                ),
            }
        }
    }
}

/// The draws of one redraw pass over `outs` at `now`, in table order.
pub open spec fn due_actions(outs: Seq<Output>, now: u64) -> Seq<(u32, SurfaceAction)>
    decreases outs.len(),
{
    if outs.len() == 0 {
        seq![]
    } else {
        let rest = due_actions(outs.drop_last(), now);
        match outs.last().redraw_action(now) {
            Some(a) => rest.push((outs.last().id, a)),
            None => rest,
        }
    }
}

/// The acknowledgements owed over `outs`, in table order.
pub open spec fn ack_actions(outs: Seq<Output>) -> Seq<(u32, SurfaceAction)>
    decreases outs.len(),
{
    if outs.len() == 0 {
        seq![]
    } else {
        let rest = ack_actions(outs.drop_last());
        match outs.last().ack_action() {
            Some(a) => rest.push((outs.last().id, a)),
            None => rest,
        }
    }
}

impl WlApp {
    /// Ids are distinct, cursors valid, and the display time is in range.
    pub open spec fn wf(&self) -> bool {
        &&& forall|i: int, j: int|
            0 <= i < j < self.output_map@.len() ==> #[trigger] self.output_map@[i].id
                != #[trigger] self.output_map@[j].id
        &&& forall|i: int| 0 <= i < self.output_map@.len() ==> (#[trigger] self.output_map@[i]).wf()
        &&& self.config.wf()
    }

    /// The display time in milliseconds.
    pub open spec fn interval_spec(&self) -> u64 {
        (self.config.bg_duration_seconds * 1000) as u64
    }

    pub fn new(config: Config, image_list: Vec<ImageFile>) -> (r: WlApp)
        requires
            config.wf(),
        ensures
            r.wf(),
            r.output_map@.len() == 0,
            r.supported_formats_vec@.len() == 0,
            r.config == config,
            r.image_list == image_list,
            !r.any_region_allocated,
    {
        WlApp {
            output_map: Vec::new(),
            supported_formats_vec: Vec::new(),
            config,
            image_list,
            any_region_allocated: false,
        }
    }

    pub fn interval(&self) -> (r: u64)
        requires
            self.config.wf(),
        ensures
            r == self.interval_spec(),
            r == self.config.bg_duration_seconds * 1000,
    {
        self.config.bg_duration_seconds * 1000
    }

    /// Where the output announced as `id` stands in the table.
    pub fn find_output(&self, id: u32) -> (r: Option<usize>)
        ensures
            r matches Some(k) ==> k < self.output_map@.len() && self.output_map@[k as int].id == id,
            r is None ==> forall|k: int|
                0 <= k < self.output_map@.len() ==> #[trigger] self.output_map@[k].id != id,
    {
        let n = self.output_map.len();
        for k in 0..n
            invariant
                n == self.output_map@.len(),
                forall|i: int| 0 <= i < k ==> #[trigger] self.output_map@[i].id != id,
        {
            if self.output_map[k].id == id {
                return Some(k);
            }
        }
        None
    }

    /// A new output announced as `id` joins the end of the table, unless the
    /// id is already there.
    pub fn add_output(&mut self, id: u32) -> (r: bool)
        requires
            old(self).wf(),
        ensures
            final(self).wf(),
            r == forall|k: int| 0 <= k < old(self).output_map@.len() ==> #[trigger] old(self).output_map@[k].id != id,
            r ==> final(self).output_map@.len() == old(self).output_map@.len() + 1,
            r ==> final(self).output_map@.drop_last() == old(self).output_map@,
            r ==> {
                let o = final(self).output_map@.last();
                &&& o.id == id
                &&& o.name@.len() == 0 && o.make@.len() == 0
                &&& o.model@.len() == 0 && o.description@.len() == 0
                &&& o.state == crate::output::SurfaceState::NoSurface
                &&& o.mode_width == 0 && o.mode_height == 0
                &&& o.serial_to_ack is None
                &&& o.image_list@.len() == 0
                &&& o.cursor == 0
                &&& o.next_redraw is None
            },
            !r ==> final(self).output_map@ == old(self).output_map@,
            final(self).config == old(self).config,
            final(self).image_list == old(self).image_list,
            final(self).supported_formats_vec == old(self).supported_formats_vec,
            final(self).any_region_allocated == old(self).any_region_allocated,
    {
        if self.find_output(id).is_some() {
            return false;
        }
        let mut output = Output::new();
        output.id = id;
        self.output_map.push(output);
        assert(self.output_map@.drop_last() == old(self).output_map@);
        true
    }

    /// The output announced as `id` leaves the table; the caller tears down
    /// its wire objects and region.
    pub fn remove_output(&mut self, id: u32) -> (r: Option<Output>)
        requires
            old(self).wf(),
        ensures
            final(self).wf(),
            r is None ==> final(self).output_map@ == old(self).output_map@ && forall|k: int|
                0 <= k < old(self).output_map@.len() ==> #[trigger] old(self).output_map@[k].id
                    != id,
            r matches Some(o) ==> o.id == id && exists|k: int|
                0 <= k < old(self).output_map@.len() && old(self).output_map@[k] == o
                    && final(self).output_map@ == old(self).output_map@.remove(k),
            final(self).config == old(self).config,
            final(self).image_list == old(self).image_list,
            final(self).supported_formats_vec == old(self).supported_formats_vec,
            final(self).any_region_allocated == old(self).any_region_allocated,
    {
        match self.find_output(id) {
            None => None,
            Some(k) => {
                let o = self.output_map.remove(k);
                proof {
                    let old_map = old(self).output_map@;
                    assert forall|i: int, j: int|
                        0 <= i < j < self.output_map@.len() implies #[trigger] self.output_map@[i].id
                        != #[trigger] self.output_map@[j].id by {
                        let oi = if i < k { i } else { i + 1 };
                        let oj = if j < k { j } else { j + 1 };
                        assert(self.output_map@[i] == old_map[oi]);
                        assert(self.output_map@[j] == old_map[oj]);
                    }
                    assert forall|i: int| 0 <= i < self.output_map@.len() implies (
                    #[trigger] self.output_map@[i]).wf() by {
                        let oi = if i < k { i } else { i + 1 };
                        assert(self.output_map@[i] == old_map[oi]);
                    }
                }
                Some(o)
            },
        }
    }

    /// Routes an event about the output announced as `id` to it; an event
    /// for an unknown output is ignored.
    pub fn dispatch(&mut self, id: u32, e: OutputEvent) -> (r: Option<SurfaceAction>)
        requires
            old(self).wf(),
        ensures
            final(self).wf(),
            final(self).output_map@.len() == old(self).output_map@.len(),
            forall|k: int|
                0 <= k < old(self).output_map@.len() ==> #[trigger] final(self).output_map@[k] == if old(
                    self,
                ).output_map@[k].id == id {
                    old(self).output_map@[k].after_event(e)
                } else {
                    old(self).output_map@[k]
                },
            (forall|k: int|
                0 <= k < old(self).output_map@.len() ==> #[trigger] old(self).output_map@[k].id
                    != id) ==> r is None,
            forall|k: int|
                0 <= k < old(self).output_map@.len() && #[trigger] old(self).output_map@[k].id
                    == id ==> r == old(self).output_map@[k].event_action(e),
            final(self).config == old(self).config,
            final(self).image_list == old(self).image_list,
            final(self).supported_formats_vec == old(self).supported_formats_vec,
            final(self).any_region_allocated == old(self).any_region_allocated,
    {
        match self.find_output(id) {
            None => None,
            Some(k) => {
                let r = self.output_map[k].handle_event(e);
                proof {
                    assert forall|i: int, j: int|
                        0 <= i < j < self.output_map@.len() implies #[trigger] self.output_map@[i].id
                        != #[trigger] self.output_map@[j].id by {
                        assert(self.output_map@[i].id == old(self).output_map@[i].id);
                        assert(self.output_map@[j].id == old(self).output_map@[j].id);
                    }
                    assert forall|i: int| 0 <= i < self.output_map@.len() implies (
                    #[trigger] self.output_map@[i]).wf() by {
                        assert(old(self).output_map@[i].wf());
                    }
                    assert forall|i: int|
                        0 <= i < old(self).output_map@.len() && #[trigger] old(self).output_map@[i].id
                            == id implies i == k by {
                        if i != k {
                            if i < k {
                                assert(old(self).output_map@[i].id != old(self).output_map@[k as int].id);
                            } else {
                                assert(old(self).output_map@[k as int].id != old(self).output_map@[i].id);
                            }
                        }
                    }
                }
                r
            },
        }
    }

    /// Routes an event to the output announced as `id` (see `dispatch`);
    /// when it makes a new surface, every rotation is planned anew for the
    /// new set of modes.
    pub fn on_output_event(&mut self, id: u32, e: OutputEvent) -> (r: Option<SurfaceAction>)
        requires
            old(self).wf(),
        ensures
            final(self).wf(),
            (forall|k: int|
                0 <= k < old(self).output_map@.len() ==> #[trigger] old(self).output_map@[k].id
                    != id) ==> r is None,
            forall|k: int|
                0 <= k < old(self).output_map@.len() && #[trigger] old(self).output_map@[k].id
                    == id ==> r == old(self).output_map@[k].event_action(e),
            !(r matches Some(SurfaceAction::Create { .. })) ==> final(self).output_map@
                == dispatched(old(self).output_map@, id, e),
            (r matches Some(SurfaceAction::Create { .. })) && old(self).image_list@.len() == 0
                ==> final(self).output_map@ == dispatched(old(self).output_map@, id, e),
            (r matches Some(SurfaceAction::Create { .. })) && old(self).image_list@.len() > 0
                ==> planned(
                old(self).image_list@,
                old(self).config.fit_type,
                dispatched(old(self).output_map@, id, e),
                final(self).output_map@,
            ),
            final(self).config == old(self).config,
            final(self).image_list == old(self).image_list,
            final(self).supported_formats_vec == old(self).supported_formats_vec,
            final(self).any_region_allocated == old(self).any_region_allocated,
    {
        let ghost e0 = e;
        let r = self.dispatch(id, e);
        assert(self.output_map@ == dispatched(old(self).output_map@, id, e0));
        match r {
            Some(SurfaceAction::Create { .. }) => {
                let _ = self.replan();
            },
            _ => {},
        }
        r
    }

    /// A shared region was allocated.
    pub fn region_allocated(&mut self)
        ensures
            final(self).any_region_allocated,
            final(self).output_map == old(self).output_map,
            final(self).config == old(self).config,
            final(self).image_list == old(self).image_list,
            final(self).supported_formats_vec == old(self).supported_formats_vec,
    {
        self.any_region_allocated = true;
    }

    /// Allocating the region of the output announced as `id` failed: fatal
    /// when no region was ever allocated; otherwise that output alone is
    /// skipped until its next resize or re-creation (see `dispatch` with
    /// `SetupFailed`).
    pub fn on_allocation_failure(&mut self, id: u32) -> (r: Result<Option<SurfaceAction>, AllocationError>)
        requires
            old(self).wf(),
        ensures
            final(self).wf(),
            !old(self).any_region_allocated <==> r is Err,
            r is Err ==> r == Err::<Option<SurfaceAction>, _>(AllocationError::FirstRegion)
                && final(self).output_map@ == old(self).output_map@,
            r is Ok ==> final(self).output_map@ == dispatched(
                old(self).output_map@,
                id,
                OutputEvent::SetupFailed,
            ),
            r is Ok && (exists|k: int|
                0 <= k < old(self).output_map@.len() && #[trigger] old(self).output_map@[k].id
                    == id) ==> r == Ok::<_, AllocationError>(Some(SurfaceAction::Teardown)),
            final(self).config == old(self).config,
            final(self).image_list == old(self).image_list,
            final(self).supported_formats_vec == old(self).supported_formats_vec,
            final(self).any_region_allocated == old(self).any_region_allocated,
    {
        if !self.any_region_allocated {
            return Err(AllocationError::FirstRegion);
        }
        let r = self.dispatch(id, OutputEvent::SetupFailed);
        assert(self.output_map@ == dispatched(old(self).output_map@, id, OutputEvent::SetupFailed));
        Ok(r)
    }

    /// Plans every output's rotation from the corpus under the configured
    /// policy (see `plan_rotations`).
    pub fn replan(&mut self) -> (r: Result<(), PlanningError>)
        requires
            old(self).wf(),
        ensures
            final(self).wf(),
            old(self).image_list@.len() == 0 <==> r is Err,
            r is Err ==> final(self).output_map@ == old(self).output_map@,
            r is Ok ==> planned(
                old(self).image_list@,
                old(self).config.fit_type,
                old(self).output_map@,
                final(self).output_map@,
            ),
            final(self).config == old(self).config,
            final(self).image_list == old(self).image_list,
            final(self).supported_formats_vec == old(self).supported_formats_vec,
            final(self).any_region_allocated == old(self).any_region_allocated,
    {
        let fit = self.config.fit_type;
        let r = plan_rotations(&self.image_list, &mut self.output_map, fit);
        proof {
            assert forall|i: int, j: int|
                0 <= i < j < self.output_map@.len() implies #[trigger] self.output_map@[i].id
                != #[trigger] self.output_map@[j].id by {
                assert(self.output_map@[i].id == old(self).output_map@[i].id);
                assert(self.output_map@[j].id == old(self).output_map@[j].id);
            }
            assert forall|i: int| 0 <= i < self.output_map@.len() implies (
            #[trigger] self.output_map@[i]).wf() by {
                if r is Err {
                    assert(self.output_map@[i] == old(self).output_map@[i]);
                }
            }
        }
        r
    }

    /// How long the loop may block at `now`: the least time until a
    /// configured output is due (0 for one that is due already), or the
    /// display time when no output is configured.
    pub fn wait_deadline(&self, now: u64) -> (r: u64)
        requires
            self.config.wf(),
        ensures
            r == match min_wait(self.output_map@, now) {
                None => self.interval_spec() as int,
                Some(d) => d,
            },
    {
        let n = self.output_map.len();
        let mut best: Option<u64> = None;
        for k in 0..n
            invariant
                n == self.output_map@.len(),
                best == match min_wait(self.output_map@.subrange(0, k as int), now) {
                    None => None::<u64>,
                    Some(d) => Some(d as u64),
                },
                forall|d: int| min_wait(self.output_map@.subrange(0, k as int), now) == Some(d) ==> 0 <= d <= u64::MAX,
        {
            let ghost prefix = self.output_map@.subrange(0, k as int + 1);
            assert(prefix.drop_last() == self.output_map@.subrange(0, k as int));
            assert(prefix.last() == self.output_map@[k as int]);
            let o = &self.output_map[k];
            if !o.configure_pending() {
                let d: u64 = match o.next_redraw {
                    None => 0,
                    Some(t) => if t > now {
                        t - now
                    } else {
                        0
                    },
                };
                best = match best {
                    None => Some(d),
                    Some(b) => Some(if d < b { d } else { b }),
                };
            }
        }
        assert(self.output_map@.subrange(0, n as int) == self.output_map@);
        match best {
            None => self.interval(),
            Some(d) => d,
        }
    }

    /// One redraw pass at `now`, in table order: every configured output
    /// that is due is redrawn (see `Output::begin_redraw`) with its next
    /// redraw at `now` plus the display time.  Returns the draws to perform.
    pub fn redraw_due(&mut self, now: u64) -> (r: Vec<(u32, SurfaceAction)>)
        requires
            old(self).wf(),
            now + old(self).interval_spec() <= u64::MAX,
        ensures
            final(self).wf(),
            final(self).output_map@.len() == old(self).output_map@.len(),
            forall|k: int|
                0 <= k < final(self).output_map@.len() ==> #[trigger] final(self).output_map@[k]
                    == old(self).output_map@[k].redrawn(now, old(self).interval_spec()),
            r@ == due_actions(old(self).output_map@, now),
            final(self).config == old(self).config,
            final(self).image_list == old(self).image_list,
            final(self).supported_formats_vec == old(self).supported_formats_vec,
            final(self).any_region_allocated == old(self).any_region_allocated,
    {
        let interval = self.interval();
        let n = self.output_map.len();
        let mut draws: Vec<(u32, SurfaceAction)> = Vec::new();
        for k in 0..n
            invariant
                n == self.output_map@.len(),
                n == old(self).output_map@.len(),
                interval == old(self).interval_spec(),
                now + interval <= u64::MAX,
                self.config == old(self).config,
                self.image_list == old(self).image_list,
                self.supported_formats_vec == old(self).supported_formats_vec,
                self.any_region_allocated == old(self).any_region_allocated,
                forall|i: int|
                    0 <= i < k ==> #[trigger] self.output_map@[i] == old(self).output_map@[i].redrawn(now, interval),
                forall|i: int| k <= i < n ==> #[trigger] self.output_map@[i] == old(self).output_map@[i],
                forall|i: int| 0 <= i < n ==> (#[trigger] old(self).output_map@[i]).wf(),
                draws@ == due_actions(old(self).output_map@.subrange(0, k as int), now),
        {
            let ghost prefix = old(self).output_map@.subrange(0, k as int + 1);
            assert(prefix.drop_last() == old(self).output_map@.subrange(0, k as int));
            assert(prefix.last() == old(self).output_map@[k as int]);
            let a = self.output_map[k].begin_redraw(now, interval);
            let id = self.output_map[k].id;
            match a {
                Some(action) => {
                    draws.push((id, action));
                },
                None => {},
            }
        }
        assert(old(self).output_map@.subrange(0, n as int) == old(self).output_map@);
        proof {
            assert forall|i: int, j: int|
                0 <= i < j < self.output_map@.len() implies #[trigger] self.output_map@[i].id
                != #[trigger] self.output_map@[j].id by {
                assert(self.output_map@[i].id == old(self).output_map@[i].id);
                assert(self.output_map@[j].id == old(self).output_map@[j].id);
            }
            assert forall|i: int| 0 <= i < self.output_map@.len() implies (
            #[trigger] self.output_map@[i]).wf() by {
                let o = old(self).output_map@[i];
                assert(o.wf());
                if o.image_list@.len() > 0 {
                    assert(o.advanced_cursor() < o.image_list@.len());
                }
            }
        }
        draws
    }

    /// Acknowledges, for every output in table order, its latest configure
    /// serial (see `Output::take_ack`).  Returns the acknowledgements to send.
    pub fn take_acks(&mut self) -> (r: Vec<(u32, SurfaceAction)>)
        requires
            old(self).wf(),
        ensures
            final(self).wf(),
            final(self).output_map@.len() == old(self).output_map@.len(),
            forall|k: int|
                0 <= k < final(self).output_map@.len() ==> #[trigger] final(self).output_map@[k]
                    == old(self).output_map@[k].acked(),
            r@ == ack_actions(old(self).output_map@),
            final(self).config == old(self).config,
            final(self).image_list == old(self).image_list,
            final(self).supported_formats_vec == old(self).supported_formats_vec,
            final(self).any_region_allocated == old(self).any_region_allocated,
    {
        let n = self.output_map.len();
        let mut acks: Vec<(u32, SurfaceAction)> = Vec::new();
        for k in 0..n
            invariant
                n == self.output_map@.len(),
                n == old(self).output_map@.len(),
                self.config == old(self).config,
                self.image_list == old(self).image_list,
                self.supported_formats_vec == old(self).supported_formats_vec,
                self.any_region_allocated == old(self).any_region_allocated,
                forall|i: int|
                    0 <= i < k ==> #[trigger] self.output_map@[i] == old(self).output_map@[i].acked(),
                forall|i: int| k <= i < n ==> #[trigger] self.output_map@[i] == old(self).output_map@[i],
                acks@ == ack_actions(old(self).output_map@.subrange(0, k as int)),
        {
            let ghost prefix = old(self).output_map@.subrange(0, k as int + 1);
            assert(prefix.drop_last() == old(self).output_map@.subrange(0, k as int));
            assert(prefix.last() == old(self).output_map@[k as int]);
            let a = self.output_map[k].take_ack();
            let id = self.output_map[k].id;
            match a {
                Some(action) => {
                    acks.push((id, action));
                },
                None => {},
            }
        }
        assert(old(self).output_map@.subrange(0, n as int) == old(self).output_map@);
        proof {
            assert forall|i: int, j: int|
                0 <= i < j < self.output_map@.len() implies #[trigger] self.output_map@[i].id
                != #[trigger] self.output_map@[j].id by {
                assert(self.output_map@[i].id == old(self).output_map@[i].id);
                assert(self.output_map@[j].id == old(self).output_map@[j].id);
            }
            assert forall|i: int| 0 <= i < self.output_map@.len() implies (
            #[trigger] self.output_map@[i]).wf() by {
                assert(old(self).output_map@[i].wf());
            }
        }
        acks
    }

    /// Records a pixel format the compositor offers.
    pub fn add_format(&mut self, format: u32)
        ensures
            final(self).supported_formats_vec@ == old(self).supported_formats_vec@.push(format),
            final(self).output_map == old(self).output_map,
            final(self).config == old(self).config,
            final(self).image_list == old(self).image_list,
            final(self).any_region_allocated == old(self).any_region_allocated,
    {
        self.supported_formats_vec.push(format);
    }

    /// Whether the compositor offers 32-bit ARGB, which rendering requires.
    pub fn supports_argb8888(&self) -> (r: bool)
        ensures
            r == self.supported_formats_vec@.contains(FORMAT_ARGB8888),
    {
        let n = self.supported_formats_vec.len();
        for k in 0..n
            invariant
                n == self.supported_formats_vec@.len(),
                forall|i: int| 0 <= i < k ==> self.supported_formats_vec@[i] != FORMAT_ARGB8888,
        {
            if self.supported_formats_vec[k] == FORMAT_ARGB8888 {
                return true;
            }
        }
        false
    }
}

} // verus!
