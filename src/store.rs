use vstd::prelude::*;
use crate::frame::{Frame, FrameModel};
use crate::detector::{is_change, is_image_different_enough};

verus! {

/// Outcome of comparing a new frame with the last accepted one.
#[derive(Clone, Copy, Debug, PartialEq, Eq, Structural)]
pub enum Decision {
    /// The frame was accepted and replaced the monitor's slot.
    Changed,
    /// The frame matched the last accepted one; the slot is left as it was.
    Unchanged,
}

/// The last accepted frame of `monitor` in a store whose contents are `m`.
pub open spec fn prior_frame(m: Map<u32, FrameModel>, monitor: u32) -> Option<FrameModel> {
    if m.dom().contains(monitor) {
        Some(m[monitor])
    } else {
        None
    }
}

/// What one compare-and-update of `frame` for `monitor` does to a store
/// holding `before`: the decision, and the contents afterwards. A change
/// replaces the monitor's slot with the whole frame; otherwise nothing moves.
pub open spec fn update_outcome(
    before: Map<u32, FrameModel>,
    monitor: u32,
    frame: FrameModel,
) -> (Decision, Map<u32, FrameModel>) {
    if is_change(frame, prior_frame(before, monitor)) {
        (Decision::Changed, before.insert(monitor, frame))
    } else {
        (Decision::Unchanged, before)
    }
}

/// Two compare-and-updates of the same monitor, in whichever order they
/// complete, leave in its slot a whole frame: the later one if it was a
/// change, else the earlier one if that was a change, else what was there.
/// The slots of other monitors are not touched.
pub proof fn lemma_overlapping_updates(
    before: Map<u32, FrameModel>,
    monitor: u32,
    first: FrameModel,
    second: FrameModel,
)
    ensures
        ({
            let (d1, mid) = update_outcome(before, monitor, first);
            let (d2, after) = update_outcome(mid, monitor, second);
            &&& after.dom().contains(monitor)
            &&& after[monitor] == if d2 == Decision::Changed {
                second
            } else if d1 == Decision::Changed {
                first
            } else {
                before[monitor]
            }
            &&& after.remove(monitor) == before.remove(monitor)
        }),
{
    let (d1, mid) = update_outcome(before, monitor, first);
    let (d2, after) = update_outcome(mid, monitor, second);
    assert(after.remove(monitor) =~= before.remove(monitor));
}

/// The first frame of a monitor is accepted into the store; the same frame
/// offered again right after is not a change and leaves the store as it is.
pub proof fn lemma_repeated_frame(before: Map<u32, FrameModel>, monitor: u32, frame: FrameModel)
    requires
        !before.dom().contains(monitor),
    ensures
        ({
            let (d1, mid) = update_outcome(before, monitor, frame);
            let (d2, after) = update_outcome(mid, monitor, frame);
            &&& d1 == Decision::Changed
            &&& mid == before.insert(monitor, frame)
            &&& d2 == Decision::Unchanged
            &&& after == mid
        }),
{
    let mid = before.insert(monitor, frame);
    assert(prior_frame(mid, monitor) == Some(frame));
    crate::detector::lemma_identical_frames_unchanged(frame, frame);
}

/// Index in `ids` of the slot of `monitor`.
spec fn slot_index(ids: Seq<u32>, monitor: u32) -> int {
    choose|i: int| 0 <= i < ids.len() && ids[i] == monitor
}

/// The last accepted frame of each monitor, at most one per monitor.
pub struct FrameStore {
    ids: Vec<u32>,
    frames: Vec<Frame>,
}

impl View for FrameStore {
    type V = Map<u32, FrameModel>;

    closed spec fn view(&self) -> Map<u32, FrameModel> {
        Map::new(
            |k: u32| exists|i: int| 0 <= i < self.ids@.len() && self.ids@[i] == k,
            |k: u32| self.frames@[slot_index(self.ids@, k)]@,
        )
    }
}

impl FrameStore {
    /// Slots are unique per monitor and every stored frame is well formed.
    pub closed spec fn wf(&self) -> bool {
        &&& self.ids@.len() == self.frames@.len()
        &&& forall|i: int, j: int|
            0 <= i < self.ids@.len() && 0 <= j < self.ids@.len() && self.ids@[i] == self.ids@[j]
                ==> i == j
        &&& forall|i: int| 0 <= i < self.frames@.len() ==> #[trigger] self.frames@[i].wf()
    }

    /// An empty store: no monitor has an accepted frame yet.
    pub fn new() -> (r: FrameStore)
        ensures
            r.wf(),
            r@ == Map::<u32, FrameModel>::empty(),
    {
        let r = FrameStore { ids: Vec::new(), frames: Vec::new() };
        assert(r@ =~= Map::<u32, FrameModel>::empty());
        r
    }

    fn find(&self, monitor: u32) -> (r: Option<usize>)
        requires
            self.wf(),
        ensures
            r is None <==> !self@.dom().contains(monitor),
            r matches Some(i) ==> i < self.ids@.len() && self.ids@[i as int] == monitor
                && slot_index(self.ids@, monitor) == i,
    {
        let mut i: usize = 0;
        while i < self.ids.len()
            invariant
                self.wf(),
                i <= self.ids@.len(),
                forall|j: int| 0 <= j < i ==> self.ids@[j] != monitor,
            decreases self.ids@.len() - i,
        {
            if self.ids[i] == monitor {
                assert(self@.dom().contains(monitor));
                return Some(i);
            }
            i = i + 1;
        }
        None
    }

    /// The last accepted frame of `monitor`, if any.
    pub fn get(&self, monitor: u32) -> (r: Option<&Frame>)
        requires
            self.wf(),
        ensures
            match r {
                Some(f) => prior_frame(self@, monitor) == Some(f@) && f.wf(),
                None => prior_frame(self@, monitor) is None,
            },
    {
        match self.find(monitor) {
            Some(i) => {
                assert(self.frames@[i as int].wf());
                Some(&self.frames[i])
            },
            None => None,
        }
    }

    /// Compares `frame` with the last accepted frame of `monitor` and, on a
    /// change, stores a copy of it in that monitor's slot, as one step: the
    /// read, the comparison and the write happen under the one `&mut`
    /// borrow, so a caller that shares the store behind a lock holds the
    /// lock across all three.
    pub fn compare_and_update(&mut self, monitor: u32, frame: &Frame) -> (r: Decision)
        requires
            old(self).wf(),
            frame.wf(),
        ensures
            final(self).wf(),
            (r, final(self)@) == update_outcome(old(self)@, monitor, frame@),
    {
        match self.find(monitor) {
            Some(i) => {
                assert(self.frames@[i as int].wf());
                let changed = is_image_different_enough(frame, Some(&self.frames[i]));
                if changed {
                    let ghost before = self@;
                    let ghost ids = self.ids@;
                    let copy = frame.duplicate();
                    self.frames.set(i, copy);
                    assert forall|a: int| 0 <= a < self.frames@.len() implies #[trigger] self.frames@[a].wf() by {
                        if a != i {
                            assert(old(self).frames@[a].wf());
                        }
                    }
                    assert(self@ =~= before.insert(monitor, frame@)) by {
                        assert forall|k: u32| #[trigger] self@.dom().contains(k) implies self@[k] == before.insert(monitor, frame@)[k] by {
                            let j = slot_index(ids, k);
                            assert(0 <= j < ids.len() && ids[j] == k);
                            if k != monitor {
                                assert(j != i);
                            }
                        }
                    }
                    Decision::Changed
                } else {
                    Decision::Unchanged
                }
            },
            None => {
                let ghost before = self@;
                let ghost ids = self.ids@;
                let copy = frame.duplicate();
                self.ids.push(monitor);
                self.frames.push(copy);
                assert forall|a: int| 0 <= a < self.frames@.len() implies #[trigger] self.frames@[a].wf() by {
                    if a < ids.len() {
                        assert(old(self).frames@[a].wf());
                    }
                }
                assert(self@ =~= before.insert(monitor, frame@)) by {
                    assert forall|k: u32| #[trigger] self@.dom().contains(k) implies self@[k] == before.insert(monitor, frame@)[k] by {
                        let j = slot_index(self.ids@, k);
                        assert(0 <= j < self.ids@.len() && self.ids@[j] == k);
                        if k != monitor {
                            assert(before.dom().contains(k)) by {
                                assert(j < ids.len());
                                assert(ids[j] == k);
                            }
                            let j0 = slot_index(ids, k);
                            assert(0 <= j0 < ids.len() && ids[j0] == k);
                            assert(self.ids@[j0] == k);
                        } else {
                            assert(self.ids@[ids.len() as int] == monitor);
                        }
                    }
                    assert forall|k: u32| #[trigger] before.insert(monitor, frame@).dom().contains(k) implies self@.dom().contains(k) by {
                        if k == monitor {
                            assert(self.ids@[ids.len() as int] == monitor);
                        } else {
                            let j0 = slot_index(ids, k);
                            assert(self.ids@[j0] == k);
                        }
                    }
                }
                Decision::Changed
            },
        }
    }
}

} // verus!
