//! Snapshots for rollback, and the handling of the session's save, load and advance
//! requests.
//!
//! The session decides when to save the state, when to roll back to a saved frame
//! and with which inputs to advance; this module carries those decisions out on the
//! simulation state.
use vstd::prelude::*;
use crate::audio::{ClipFrames, PlaybackStates};
use crate::sim::{step_spec, FrameEvents, SimModel, SimState};

verus! {

/// Saved states, one slot per frame modulo the ring's length.
pub struct SnapshotRing {
    slots: Vec<Option<(i32, SimState)>>,
}

/// The slot that holds frame `frame` in a ring of `len` slots.
pub open spec fn slot_of(frame: i32, len: nat) -> int {
    (frame as int) % (len as int)
}

/// Slot `i` of `ring` is empty or holds a well-formed state of a frame that maps
/// to it.
pub open spec fn slot_ok(ring: Seq<Option<(i32, SimModel)>>, i: int) -> bool {
    match ring[i] {
        Some(e) => e.0 >= 0 && slot_of(e.0, ring.len()) == i && e.1.wf(),
        None => true,
    }
}

impl View for SnapshotRing {
    type V = Seq<Option<(i32, SimModel)>>;

    closed spec fn view(&self) -> Seq<Option<(i32, SimModel)>> {
        self.slots@.map_values(
            |o: Option<(i32, SimState)>|
                match o {
                    Some(e) => Some((e.0, e.1@)),
                    None => None,
                },
        )
    }
}

impl SnapshotRing {
    /// Every slot is empty or holds a well-formed state of a frame that maps to it.
    pub open spec fn wf(&self) -> bool {
        &&& self@.len() > 0
        &&& forall|i: int| 0 <= i < self@.len() ==> #[trigger] slot_ok(self@, i)
    }

    /// A ring of `capacity` empty slots.
    pub fn new(capacity: usize) -> (r: SnapshotRing)
        requires
            capacity > 0,
        ensures
            r.wf(),
            r@.len() == capacity,
            forall|i: int| 0 <= i < capacity ==> #[trigger] r@[i].is_none(),
    {
        let mut slots: Vec<Option<(i32, SimState)>> = Vec::new();
        let mut i: usize = 0;
        while i < capacity
            invariant
                i <= capacity,
                slots@.len() == i,
                forall|k: int| 0 <= k < i ==> #[trigger] slots@[k].is_none(),
            decreases capacity - i,
        {
            slots.push(None);
            i = i + 1;
        }
        let r = SnapshotRing { slots };
        assert(r@.len() == capacity);
        assert forall|k: int| 0 <= k < capacity implies #[trigger] r@[k].is_none() by {
            assert(r.slots@[k].is_none());
        }
        assert forall|k: int| 0 <= k < r@.len() implies #[trigger] slot_ok(r@, k) by {
            assert(r@[k].is_none());
        }
        r
    }

    /// Saves a copy of `state` as frame `frame`, in place of what its slot held.
    pub fn save(&mut self, frame: i32, state: &SimState)
        requires
            old(self).wf(),
            frame >= 0,
            state@.wf(),
        ensures
            final(self).wf(),
            final(self)@ == old(self)@.update(slot_of(frame, old(self)@.len()), Some((frame, state@))),
    {
        let idx = frame as usize % self.slots.len();
        let ghost before = self@;
        self.slots.set(idx, Some((frame, state.snapshot())));
        assert(self@ =~= before.update(slot_of(frame, before.len()), Some((frame, state@))));
        assert forall|k: int| 0 <= k < self@.len() implies #[trigger] slot_ok(self@, k) by {
            if k != idx {
                assert(slot_ok(before, k));
            }
        }
    }

    /// A copy of the state saved as frame `frame`, if its slot still holds it.
    pub fn load(&self, frame: i32) -> (r: Option<SimState>)
        requires
            self.wf(),
            frame >= 0,
        ensures
            match self@[slot_of(frame, self@.len())] {
                Some(e) => if e.0 == frame {
                    r matches Some(s) && s@ == e.1
                } else {
                    r.is_none()
                },
                None => r.is_none(),
            },
    {
        let idx = frame as usize % self.slots.len();
        assert(self@[idx as int] == match self.slots@[idx as int] {
            Some(e) => Some((e.0, e.1@)),
            None => None,
        });
        match &self.slots[idx] {
            Some(entry) => {
                if entry.0 == frame {
                    Some(entry.1.snapshot())
                } else {
                    None
                }
            },
            None => None,
        }
    }
}

/// What the session asks of the simulation.
#[derive(Clone, Copy, Debug)]
pub enum RollbackRequest {
    /// Save the current state as frame `frame`.
    SaveGameState { frame: i32 },
    /// Roll back to the state saved as frame `frame`.
    LoadGameState { frame: i32 },
    /// Advance one frame with these inputs of the two player slots.
    AdvanceFrame { inputs: [u8; 2] },
}

/// A request that cannot be carried out; it ends the session.
#[derive(Clone, Copy, Debug, PartialEq, Eq, Structural)]
pub enum SessionError {
    /// The snapshot of a frame to roll back to is no longer held.
    MissingSnapshot { frame: i32 },
    /// A frame number below zero.
    InvalidFrame { frame: i32 },
}

/// Whether the ring holds a snapshot of frame `frame`.
pub open spec fn holds(ring: Seq<Option<(i32, SimModel)>>, frame: i32) -> bool {
    frame >= 0 && (ring[slot_of(frame, ring.len())] matches Some(e) && e.0 == frame)
}

/// Carries out one request of the session on `state`: a save copies the state into
/// the ring, a load replaces the state by a saved copy, and an advance runs one
/// frame.
pub fn handle_request(
    state: &mut SimState,
    ring: &mut SnapshotRing,
    playback: &mut PlaybackStates,
    request: RollbackRequest,
    clips: ClipFrames,
) -> (r: Result<FrameEvents, SessionError>)
    requires
        old(state)@.wf(),
        old(ring).wf(),
    ensures
        final(state)@.wf(),
        final(ring).wf(),
        match request {
            RollbackRequest::SaveGameState { frame } => if frame < 0 {
                r == Err::<FrameEvents, SessionError>(SessionError::InvalidFrame { frame })
                    && final(state)@ == old(state)@ && final(ring)@ == old(ring)@
            } else {
                r is Ok && final(state)@ == old(state)@ && final(ring)@ == old(ring)@.update(
                    slot_of(frame, old(ring)@.len()),
                    Some((frame, old(state)@)),
                )
            },
            RollbackRequest::LoadGameState { frame } => final(ring)@ == old(ring)@ && if frame < 0 {
                r == Err::<FrameEvents, SessionError>(SessionError::InvalidFrame { frame })
                    && final(state)@ == old(state)@
            } else if holds(old(ring)@, frame) {
                r is Ok && final(state)@ == old(ring)@[slot_of(frame, old(ring)@.len())].unwrap().1
            } else {
                r == Err::<FrameEvents, SessionError>(SessionError::MissingSnapshot { frame })
                    && final(state)@ == old(state)@
            },
            RollbackRequest::AdvanceFrame { inputs } => r is Ok && final(ring)@ == old(ring)@ && final(state)@
                == step_spec(old(state)@, inputs, clips),
        },
{
    match request {
        RollbackRequest::SaveGameState { frame } => {
            if frame < 0 {
                return Err(SessionError::InvalidFrame { frame });
            }
            ring.save(frame, state);
            Ok(FrameEvents { explosions: Vec::new(), sound_starts: Vec::new() })
        },
        RollbackRequest::LoadGameState { frame } => {
            if frame < 0 {
                return Err(SessionError::InvalidFrame { frame });
            }
            match ring.load(frame) {
                Some(s) => {
                    proof {
                        assert(slot_ok(ring@, slot_of(frame, ring@.len())));
                    }
                    *state = s;
                    Ok(FrameEvents { explosions: Vec::new(), sound_starts: Vec::new() })
                },
                None => Err(SessionError::MissingSnapshot { frame }),
            }
        },
        RollbackRequest::AdvanceFrame { inputs } => {
            let events = state.step(playback, inputs, clips);
            Ok(events)
        },
    }
}

/// The ring after saving each of `saves` in order.
pub open spec fn save_all(ring: Seq<Option<(i32, SimModel)>>, saves: Seq<(i32, SimModel)>) -> Seq<
    Option<(i32, SimModel)>,
>
    decreases saves.len(),
{
    if saves.len() == 0 {
        ring
    } else {
        let r = save_all(ring, saves.drop_last());
        r.update(slot_of(saves.last().0, r.len()), Some(saves.last()))
    }
}

/// A snapshot saved at frame `k` can still be loaded after saving any frames after
/// `k` that lie less than the ring's length ahead of it: within that window a
/// rollback to `k` always finds its state.
pub proof fn snapshot_survives_window(ring: Seq<Option<(i32, SimModel)>>, k: i32, state: SimModel, saves: Seq<(i32, SimModel)>)
    requires
        ring.len() > 0,
        k >= 0,
        forall|i: int| 0 <= i < saves.len() ==> k < #[trigger] saves[i].0 < k + ring.len(),
    ensures
        ({
            let r = save_all(ring.update(slot_of(k, ring.len()), Some((k, state))), saves);
            holds(r, k) && r[slot_of(k, ring.len())] == Some((k, state))
        }),
    decreases saves.len(),
{
    let start = ring.update(slot_of(k, ring.len()), Some((k, state)));
    if saves.len() > 0 {
        snapshot_survives_window(ring, k, state, saves.drop_last());
        let f = saves.last().0;
        assert(k < f < k + ring.len());
        let n = ring.len() as int;
        assert(slot_of(f, ring.len()) != slot_of(k, ring.len())) by (nonlinear_arith)
            requires
                0 <= k < f < k + n,
                n > 0,
                slot_of(f, ring.len()) == (f as int) % n,
                slot_of(k, ring.len()) == (k as int) % n;
        lemma_save_all_len(start, saves.drop_last());
    }
}

proof fn lemma_save_all_len(ring: Seq<Option<(i32, SimModel)>>, saves: Seq<(i32, SimModel)>)
    requires
        ring.len() > 0,
    ensures
        save_all(ring, saves).len() == ring.len(),
    decreases saves.len(),
{
    if saves.len() > 0 {
        lemma_save_all_len(ring, saves.drop_last());
    }
}

} // verus!
