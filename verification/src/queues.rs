use vstd::prelude::*;

verus! {

/// Queue identifier of 5v5 ranked solo games.
pub const QUEUE_RANKED_SOLO: u16 = 420;

/// Queue identifier of 5v5 ranked flex games.
pub const QUEUE_RANKED_FLEX: u16 = 440;

/// Queue identifier of ranked Teamfight Tactics games.
pub const QUEUE_RANKED_TFT: u16 = 1100;

/// Queue identifier of ranked Teamfight Tactics hyper-roll games.
pub const QUEUE_RANKED_TFT_TURBO: u16 = 1130;

/// Queue identifier of ranked Teamfight Tactics double-up games.
pub const QUEUE_RANKED_TFT_DOUBLE_UP: u16 = 1160;

/// Queue identifier of custom games.
pub const QUEUE_CUSTOM: u16 = 0;

/// The ranked queue a league entry belongs to. Entries of any queue outside
/// the enumerated ranked ones fall under `Other`.
#[derive(Clone, Copy, Debug, PartialEq, Eq, Structural)]
pub enum QueueType {
    RankedSolo5x5,
    RankedFlexSr,
    RankedTft,
    RankedTftTurbo,
    RankedTftDoubleUp,
    Other,
}

/// Whether a league entry of queue type `queue_type` speaks about games of
/// queue `queue`: each enumerated ranked queue type pairs with exactly one
/// queue identifier, and everything else pairs with nothing.
pub open spec fn same_queue(queue_type: QueueType, queue: u16) -> bool {
    match queue_type {
        QueueType::RankedSolo5x5 => queue == QUEUE_RANKED_SOLO,
        QueueType::RankedFlexSr => queue == QUEUE_RANKED_FLEX,
        QueueType::RankedTft => queue == QUEUE_RANKED_TFT,
        QueueType::RankedTftTurbo => queue == QUEUE_RANKED_TFT_TURBO,
        QueueType::RankedTftDoubleUp => queue == QUEUE_RANKED_TFT_DOUBLE_UP,
        QueueType::Other => false,
    }
}

/// `same_queue` lifted to a raw, possibly out-of-range queue identifier: an
/// identifier outside the range of queue identifiers pairs with nothing.
pub open spec fn same_queue_id(queue_type: QueueType, queue_id: int) -> bool {
    0 <= queue_id <= u16::MAX && same_queue(queue_type, queue_id as u16)
}

/// Whether `queue_type` is the ranked queue type of the queue `queue`.
pub fn are_same_queue(queue_type: &QueueType, queue: u16) -> (r: bool)
    ensures
        r == same_queue(*queue_type, queue),
{
    match queue_type {
        QueueType::RankedSolo5x5 => queue == QUEUE_RANKED_SOLO,
        QueueType::RankedFlexSr => queue == QUEUE_RANKED_FLEX,
        QueueType::RankedTft => queue == QUEUE_RANKED_TFT,
        QueueType::RankedTftTurbo => queue == QUEUE_RANKED_TFT_TURBO,
        QueueType::RankedTftDoubleUp => queue == QUEUE_RANKED_TFT_DOUBLE_UP,
        QueueType::Other => false,
    }
}

/// Whether `queue_type` is the ranked queue type of the queue with raw
/// identifier `queue_id`. Total over all identifiers: one that is out of
/// range for a queue identifier yields no match rather than a failure.
pub fn are_same_queue_id(queue_type: &QueueType, queue_id: i32) -> (r: bool)
    ensures
        r == same_queue_id(*queue_type, queue_id as int),
{
    if queue_id >= 0 && queue_id <= u16::MAX as i32 {
        are_same_queue(queue_type, queue_id as u16)
    } else {
        false
    }
}

/// Queue-equivalence lookup is total: each enumerated ranked queue type pairs
/// with exactly its own queue identifier, and every other identifier —
/// including those out of range for a queue identifier — pairs with nothing.
pub proof fn lemma_queue_equivalence_total(queue_type: QueueType, queue_id: int)
    ensures
        queue_type == QueueType::RankedSolo5x5 ==> (same_queue_id(queue_type, queue_id)
            <==> queue_id == QUEUE_RANKED_SOLO),
        queue_type == QueueType::RankedFlexSr ==> (same_queue_id(queue_type, queue_id)
            <==> queue_id == QUEUE_RANKED_FLEX),
        queue_type == QueueType::RankedTft ==> (same_queue_id(queue_type, queue_id)
            <==> queue_id == QUEUE_RANKED_TFT),
        queue_type == QueueType::RankedTftTurbo ==> (same_queue_id(queue_type, queue_id)
            <==> queue_id == QUEUE_RANKED_TFT_TURBO),
        queue_type == QueueType::RankedTftDoubleUp ==> (same_queue_id(queue_type, queue_id)
            <==> queue_id == QUEUE_RANKED_TFT_DOUBLE_UP),
        queue_type == QueueType::Other ==> !same_queue_id(queue_type, queue_id),
        queue_id < 0 || queue_id > u16::MAX ==> !same_queue_id(queue_type, queue_id),
{
}

} // verus!
