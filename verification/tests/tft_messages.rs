use riot_tracker::queues::QueueType;
use riot_tracker::ranks::{Rank, Tier};
use riot_tracker::roster::{Platform, Player};
use riot_tracker::tft::{
    generate_messages, get_queue_or_mode_string, suppressed_buckets, Game, League, Message,
    MessageTemplate, Participant,
};

fn player(name: &str) -> Player {
    Player {
        id: format!("id-{name}"),
        puuid: format!("puuid-{name}"),
        name: String::from(name),
    }
}

fn participant(name: &str, placement: u16) -> Participant {
    Participant { puuid: format!("puuid-{name}"), placement }
}

fn platform() -> Platform {
    Platform { code: String::from("EUW1"), region: String::from("euw") }
}

fn game(queue_id: i32, participants: Vec<Participant>) -> Game {
    Game {
        match_id: String::from("EUW1_456"),
        queue_id,
        duration_secs: 150,
        end_millis: 1609459200000,
        participants,
    }
}

fn template() -> MessageTemplate {
    MessageTemplate {
        top_single: String::from("TS{top} {sumoner_name} {tier}|{rank}|{lp} {mode} {game_duration_min} {region}"),
        top_single_ranked: String::from("TSR{top} {sumoner_name} {tier}|{rank}|{lp}"),
        top_duo: String::from("TD{top} {sumoner_names} [{singles}]"),
        bottom_single: String::from("BS{top} {sumoner_name}"),
        bottom_single_ranked: String::from("BSR{top} {sumoner_name}"),
        bottom_duo: String::from("BD{top} {sumoner_names} [{singles}]"),
    }
}

fn message() -> Message {
    Message { single: template(), duo: template() }
}

#[test]
fn tft_mode_labels() {
    assert_eq!(get_queue_or_mode_string(&game(1100, vec![])), "RANKED");
    assert_eq!(get_queue_or_mode_string(&game(1130, vec![])), "HYPER ROLL");
    assert_eq!(get_queue_or_mode_string(&game(1160, vec![])), "DOUBLE UP");
    assert_eq!(get_queue_or_mode_string(&game(1090, vec![])), "NORMAL");
    assert_eq!(get_queue_or_mode_string(&game(-5, vec![])), "NORMAL");
    assert_eq!(get_queue_or_mode_string(&game(70000, vec![])), "NORMAL");
}

#[test]
fn single_top_placement_message() {
    let g = game(1100, vec![participant("a", 2)]);
    let entries = vec![(player("a"), participant("a", 2), None::<League>)];
    let out = generate_messages(&g, &platform(), &entries, &message());
    assert_eq!(out, vec!["TS2 a UNRANKED||-1 RANKED 3 euw"]);
}

#[test]
fn single_bottom_placement_message() {
    let g = game(1100, vec![participant("a", 5)]);
    let entries = vec![(player("a"), participant("a", 5), None::<League>)];
    let out = generate_messages(&g, &platform(), &entries, &message());
    assert_eq!(out, vec!["BS5 a"]);
}

#[test]
fn ranked_single_uses_tft_snapshot() {
    let g = game(1100, vec![participant("a", 1)]);
    let league = League {
        queue_type: QueueType::RankedTft,
        tier: Some(Tier::Diamond),
        rank: Some(Rank::IV),
        points: Some(12),
    };
    let entries = vec![(player("a"), participant("a", 1), Some(league))];
    let out = generate_messages(&g, &platform(), &entries, &message());
    assert_eq!(out, vec!["TSR1 a DIAMOND|IV|12"]);
}

#[test]
fn absent_points_fall_back_to_sentinel() {
    let g = game(1100, vec![participant("a", 1)]);
    let league =
        League { queue_type: QueueType::RankedTft, tier: None, rank: None, points: None };
    let entries = vec![(player("a"), participant("a", 1), Some(league))];
    let out = generate_messages(&g, &platform(), &entries, &message());
    assert_eq!(out, vec!["TSR1 a UNRANKED||-1"]);
}

#[test]
fn doubles_first_and_second_share_bucket_one() {
    let g = game(1160, vec![participant("a", 1), participant("b", 2)]);
    let entries = vec![
        (player("a"), participant("a", 1), None::<League>),
        (player("b"), participant("b", 2), None),
    ];
    let out = generate_messages(&g, &platform(), &entries, &message());
    assert_eq!(out.len(), 1);
    assert!(out[0].starts_with("TD1 a &amp; b ["));
    assert!(out[0].contains("TS1 a"));
    assert!(out[0].contains("TS1 b"));
}

#[test]
fn doubles_first_and_fourth_yield_two_singles() {
    let g = game(1160, vec![participant("a", 1), participant("b", 4)]);
    let entries = vec![
        (player("a"), participant("a", 1), None::<League>),
        (player("b"), participant("b", 4), None),
    ];
    let out = generate_messages(&g, &platform(), &entries, &message());
    assert_eq!(out.len(), 2);
    assert!(out[0].starts_with("TS1 a"));
    assert!(out[1].starts_with("TS2 b"));
}

#[test]
fn doubles_bottom_wording_threshold_is_two() {
    let g = game(1160, vec![participant("a", 5)]);
    let entries = vec![(player("a"), participant("a", 5), None::<League>)];
    let out = generate_messages(&g, &platform(), &entries, &message());
    assert_eq!(out, vec!["BS3 a"]);
}

#[test]
fn tft_oversized_bucket_is_suppressed_and_reported() {
    let g = game(1100, vec![participant("a", 1), participant("b", 1), participant("c", 1)]);
    let entries = vec![
        (player("a"), participant("a", 1), None::<League>),
        (player("b"), participant("b", 1), None),
        (player("c"), participant("c", 1), None),
    ];
    let out = generate_messages(&g, &platform(), &entries, &message());
    assert!(out.is_empty());
    // the suppression is reported so that it can be warned about
    assert_eq!(suppressed_buckets(&g, &entries), vec![1]);
    let pair = vec![
        (player("a"), participant("a", 1), None::<League>),
        (player("b"), participant("b", 1), None),
    ];
    assert_eq!(suppressed_buckets(&g, &pair), Vec::<u32>::new());
}
