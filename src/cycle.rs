use vstd::prelude::*;
use crate::frame::{Frame, FrameModel};
use crate::resize::{ResizeError, resize_image_img, sized_target};
use crate::store::{Decision, FrameStore, update_outcome};

verus! {

/// A frame captured from one monitor in a cycle.
pub struct Capture {
    pub monitor: u32,
    pub frame: Frame,
}

impl View for Capture {
    type V = (u32, FrameModel);

    open spec fn view(&self) -> (u32, FrameModel) {
        (self.monitor, self.frame@)
    }
}

/// What a cycle did with one monitor's frame.
#[derive(Debug)]
pub enum MonitorOutcome {
    /// The frame matched the last accepted one: nothing to persist.
    Unchanged,
    /// The frame was accepted and resized: this is what to encode and persist.
    Resized(Frame),
    /// The frame was accepted but could not be resized: nothing to persist.
    ResizeFailed(ResizeError),
}

/// The outcome that a frame with model `frame` has after `decision`: nothing
/// when unchanged; else the frame resized to its target, or the sizing error.
pub open spec fn expected_outcome(frame: FrameModel, decision: Decision, r: MonitorOutcome) -> bool {
    match r {
        MonitorOutcome::Unchanged => decision == Decision::Unchanged,
        MonitorOutcome::Resized(f) => decision == Decision::Changed && f.wf() && sized_target(frame.0, frame.1)
            == Ok::<(u32, u32), ResizeError>((f.width, f.height)),
        MonitorOutcome::ResizeFailed(e) => decision == Decision::Changed && sized_target(frame.0, frame.1)
            == Err::<(u32, u32), ResizeError>(e),
    }
}

/// The store's contents after the captures of `caps`, one after another.
pub open spec fn store_after(m: Map<u32, FrameModel>, caps: Seq<(u32, FrameModel)>) -> Map<u32, FrameModel>
    decreases caps.len(),
{
    if caps.len() == 0 {
        m
    } else {
        let before = store_after(m, caps.drop_last());
        update_outcome(before, caps.last().0, caps.last().1).1
    }
}

/// Handles one monitor's frame: compare and update the store in one step,
/// then, on a change, resize the frame for persisting.
pub fn process_frame(store: &mut FrameStore, capture: &Capture) -> (r: MonitorOutcome)
    requires
        old(store).wf(),
        capture.frame.wf(),
    ensures
        final(store).wf(),
        final(store)@ == update_outcome(old(store)@, capture.monitor, capture.frame@).1,
        expected_outcome(
            capture.frame@,
            update_outcome(old(store)@, capture.monitor, capture.frame@).0,
            r,
        ),
{
    let decision = store.compare_and_update(capture.monitor, &capture.frame);
    match decision {
        Decision::Unchanged => MonitorOutcome::Unchanged,
        Decision::Changed => match resize_image_img(&capture.frame) {
            Ok(f) => MonitorOutcome::Resized(f),
            Err(e) => MonitorOutcome::ResizeFailed(e),
        },
    }
}

/// Runs one cycle over the frames captured from each monitor, in order. A
/// frame that cannot be resized costs only its own outcome: every other
/// frame is still compared, stored and resized.
pub fn run_cycle(store: &mut FrameStore, captures: &Vec<Capture>) -> (r: Vec<MonitorOutcome>)
    requires
        old(store).wf(),
        forall|i: int| 0 <= i < captures@.len() ==> #[trigger] captures@[i].frame.wf(),
    ensures
        final(store).wf(),
        final(store)@ == store_after(old(store)@, captures@.map_values(|c: Capture| c@)),
        r@.len() == captures@.len(),
        forall|i: int|
            0 <= i < captures@.len() ==> expected_outcome(
                captures@[i].frame@,
                update_outcome(
                    store_after(old(store)@, captures@.map_values(|c: Capture| c@).subrange(0, i)),
                    captures@[i].monitor,
                    captures@[i].frame@,
                ).0,
                #[trigger] r@[i],
            ),
{
    let ghost caps = captures@.map_values(|c: Capture| c@);
    let ghost start = store@;
    let mut outcomes: Vec<MonitorOutcome> = Vec::new();
    let mut i: usize = 0;
    while i < captures.len()
        invariant
            caps == captures@.map_values(|c: Capture| c@),
            forall|j: int| 0 <= j < captures@.len() ==> #[trigger] captures@[j].frame.wf(),
            i <= captures@.len(),
            store.wf(),
            store@ == store_after(start, caps.subrange(0, i as int)),
            outcomes@.len() == i,
            forall|j: int|
                0 <= j < i ==> expected_outcome(
                    captures@[j].frame@,
                    update_outcome(
                        store_after(start, caps.subrange(0, j)),
                        captures@[j].monitor,
                        captures@[j].frame@,
                    ).0,
                    #[trigger] outcomes@[j],
                ),
        decreases captures@.len() - i,
    {
        let outcome = process_frame(store, &captures[i]);
        assert(caps.subrange(0, i as int + 1).drop_last() =~= caps.subrange(0, i as int));
        assert(caps.subrange(0, i as int + 1).last() == captures@[i as int]@);
        outcomes.push(outcome);
        i = i + 1;
    }
    assert(caps.subrange(0, captures@.len() as int) =~= caps);
    outcomes
}

} // verus!
