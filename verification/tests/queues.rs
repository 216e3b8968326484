use riot_tracker::queues::{are_same_queue, are_same_queue_id, QueueType};

#[test]
fn solo_queue_matches_its_id() {
    assert!(are_same_queue(&QueueType::RankedSolo5x5, 420));
    assert!(!are_same_queue(&QueueType::RankedSolo5x5, 440));
    assert!(!are_same_queue(&QueueType::RankedSolo5x5, 0));
}

#[test]
fn flex_queue_matches_its_id() {
    assert!(are_same_queue(&QueueType::RankedFlexSr, 440));
    assert!(!are_same_queue(&QueueType::RankedFlexSr, 420));
}

#[test]
fn tft_queues_match_their_ids() {
    assert!(are_same_queue(&QueueType::RankedTft, 1100));
    assert!(are_same_queue(&QueueType::RankedTftTurbo, 1130));
    assert!(are_same_queue(&QueueType::RankedTftDoubleUp, 1160));
    assert!(!are_same_queue(&QueueType::RankedTft, 1130));
    assert!(!are_same_queue(&QueueType::RankedTftTurbo, 1160));
    assert!(!are_same_queue(&QueueType::RankedTftDoubleUp, 1100));
}

#[test]
fn other_queue_type_matches_nothing() {
    for id in [0u16, 420, 440, 1100, 1130, 1160, 65535] {
        assert!(!are_same_queue(&QueueType::Other, id));
    }
}

#[test]
fn raw_identifier_comparison_is_total() {
    assert!(are_same_queue_id(&QueueType::RankedTft, 1100));
    assert!(are_same_queue_id(&QueueType::RankedTftTurbo, 1130));
    assert!(are_same_queue_id(&QueueType::RankedTftDoubleUp, 1160));
    assert!(are_same_queue_id(&QueueType::RankedSolo5x5, 420));
    assert!(are_same_queue_id(&QueueType::RankedFlexSr, 440));
}

#[test]
fn out_of_range_identifiers_yield_no_match() {
    assert!(!are_same_queue_id(&QueueType::RankedTft, -1));
    assert!(!are_same_queue_id(&QueueType::RankedTft, 65536));
    assert!(!are_same_queue_id(&QueueType::RankedTft, i32::MAX));
    assert!(!are_same_queue_id(&QueueType::RankedTft, i32::MIN));
    assert!(!are_same_queue_id(&QueueType::RankedSolo5x5, -420));
}
