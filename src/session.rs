//! Match set-up: the seed that all peers agree on without a leader, and the player
//! slots of the session.
use vstd::prelude::*;
use crate::rng::{GameSeed, SoundIdSeed, SoundSeed};

verus! {

/// Players in a match.
pub const NUM_PLAYERS: usize = 2;

/// Frames the local peer may run ahead of confirmed remote input.
pub const MAX_PREDICTION: usize = 40;

/// Frames the local input is delayed by.
pub const INPUT_DELAY: usize = 2;

/// Frames a peer may fall behind before it is held back.
pub const MAX_FRAMES_BEHIND: usize = 42;

/// `start` combined with every identifier of `ids` by exclusive or.
pub open spec fn xor_all(start: u128, ids: Seq<u128>) -> u128
    decreases ids.len(),
{
    if ids.len() == 0 {
        start
    } else {
        xor_all(start, ids.drop_last()) ^ ids.last()
    }
}

/// Folds 128 bits into 64: the low 64 bits, exclusive or the bits from 8 to 71.
pub open spec fn fold_hash(out: u128) -> u64 {
    ((out & (u128::MAX >> 8u128)) as u64) ^ ((out >> 8u128) as u64)
}

/// The session hash seen by a peer with identifier `local_id` and peers `peer_ids`.
pub open spec fn session_hash_spec(local_id: u128, peer_ids: Seq<u128>) -> u64 {
    fold_hash(xor_all(u128::MAX ^ local_id, peer_ids))
}

/// Combines the local identifier with those of all peers into the match's hash.
pub fn session_hash(local_id: u128, peer_ids: &Vec<u128>) -> (r: u64)
    ensures
        r == session_hash_spec(local_id, peer_ids@),
{
    let mut out: u128 = u128::MAX ^ local_id;
    let mut i: usize = 0;
    while i < peer_ids.len()
        invariant
            i <= peer_ids@.len(),
            out == xor_all(u128::MAX ^ local_id, peer_ids@.take(i as int)),
        decreases peer_ids@.len() - i,
    {
        proof {
            assert(peer_ids@.take(i + 1).drop_last() =~= peer_ids@.take(i as int));
        }
        out = out ^ peer_ids[i];
        i = i + 1;
    }
    assert(peer_ids@.take(peer_ids@.len() as int) =~= peer_ids@);
    ((out & (u128::MAX >> 8u128)) as u64) ^ ((out >> 8u128) as u64)
}

/// Both peers of a two-player match compute the same hash, whichever side they see
/// it from.
pub proof fn session_hash_symmetric(a: u128, b: u128)
    ensures
        session_hash_spec(a, seq![b]) == session_hash_spec(b, seq![a]),
{
    reveal_with_fuel(xor_all, 2);
    assert(seq![b].drop_last() =~= Seq::<u128>::empty());
    assert(seq![a].drop_last() =~= Seq::<u128>::empty());
    assert((u128::MAX ^ a) ^ b == (u128::MAX ^ b) ^ a) by (bit_vector);
}

/// The spawn seed and the two sound seeds of a match with hash `hash`.
pub open spec fn match_seeds_spec(hash: u64) -> (GameSeed, SoundIdSeed) {
    (GameSeed(hash), SoundIdSeed((SoundSeed(hash.wrapping_add(1)), SoundSeed(hash.wrapping_add(2)))))
}

/// Derives the match's seeds from its hash: the spawn seed is the hash, and the
/// sound seeds of slots 0 and 1 are the hash plus 1 and plus 2.
pub fn match_seeds(hash: u64) -> (r: (GameSeed, SoundIdSeed))
    ensures
        r.0 == match_seeds_spec(hash).0,
        r.1 == match_seeds_spec(hash).1,
{
    (GameSeed(hash), SoundIdSeed((SoundSeed(hash.wrapping_add(1)), SoundSeed(hash.wrapping_add(2)))))
}

/// The slot of the last local player in `is_local`, if any.
pub open spec fn last_local(is_local: Seq<bool>) -> Option<LocalPlayerHandle>
    decreases is_local.len(),
{
    if is_local.len() == 0 {
        None
    } else if is_local.last() {
        Some(LocalPlayerHandle((is_local.len() - 1) as usize))
    } else {
        last_local(is_local.drop_last())
    }
}

/// The local player's slot, which the camera and the sound listener follow.
#[derive(Clone, Copy, Debug, PartialEq, Eq, Structural)]
pub struct LocalPlayerHandle(pub usize);

/// What a peer needs to start the synchronized match.
pub struct MatchStart {
    pub local_handle: Option<LocalPlayerHandle>,
    pub session_hash: u64,
    pub seed: GameSeed,
    pub sound_seeds: SoundIdSeed,
}

/// Decides whether the match can start with the players known so far, listed in
/// slot order with whether each is local. With fewer than `NUM_PLAYERS` it cannot;
/// otherwise the hash of the identifiers seeds the match.
pub fn wait_for_players(local_id: u128, peer_ids: &Vec<u128>, is_local: &Vec<bool>) -> (r: Option<MatchStart>)
    ensures
        r.is_none() <==> is_local@.len() < NUM_PLAYERS,
        r matches Some(m) ==> {
            &&& m.local_handle == last_local(is_local@)
            &&& m.session_hash == session_hash_spec(local_id, peer_ids@)
            &&& m.seed == match_seeds_spec(m.session_hash).0
            &&& m.sound_seeds == match_seeds_spec(m.session_hash).1
        },
{
    if is_local.len() < NUM_PLAYERS {
        return None;
    }
    let hash = session_hash(local_id, peer_ids);
    let (seed, sound_seeds) = match_seeds(hash);
    let mut local_handle: Option<LocalPlayerHandle> = None;
    let mut i: usize = 0;
    while i < is_local.len()
        invariant
            i <= is_local@.len(),
            local_handle == last_local(is_local@.take(i as int)),
        decreases is_local@.len() - i,
    {
        proof {
            assert(is_local@.take(i + 1).drop_last() =~= is_local@.take(i as int));
        }
        if is_local[i] {
            local_handle = Some(LocalPlayerHandle(i));
        }
        i = i + 1;
    }
    assert(is_local@.take(is_local@.len() as int) =~= is_local@);
    Some(MatchStart { local_handle, session_hash: hash, seed, sound_seeds })
}

} // verus!
