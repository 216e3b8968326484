use riot_tracker::lol;
use riot_tracker::queues::QueueType;
use riot_tracker::ranks::{Rank, Tier};
use riot_tracker::roster::{Platform, Player};
use riot_tracker::store::{date_of_millis, lol_match_record, player_rows, tft_match_record, MatchKey};
use riot_tracker::tft;

fn platform() -> Platform {
    Platform { code: String::from("KR"), region: String::from("kr") }
}

fn player(name: &str) -> Player {
    Player {
        id: format!("id-{name}"),
        puuid: format!("puuid-{name}"),
        name: String::from(name),
    }
}

#[test]
fn match_keys_compare_by_id_and_platform() {
    let a = MatchKey { game_id: String::from("g1"), platform: String::from("KR") };
    let b = MatchKey { game_id: String::from("g1"), platform: String::from("KR") };
    let c = MatchKey { game_id: String::from("g1"), platform: String::from("EUW1") };
    assert!(a.key_eq(&b));
    assert!(!a.key_eq(&c));
}

#[test]
fn date_label_formats_utc() {
    assert_eq!(date_of_millis(0).as_deref(), Some("1970-01-01T00:00:00"));
    assert_eq!(date_of_millis(1609459200000).as_deref(), Some("2021-01-01T00:00:00"));
    assert_eq!(date_of_millis(-1000).as_deref(), Some("1969-12-31T23:59:59"));
    // far out of chrono's range: no label
    assert_eq!(date_of_millis(i64::MAX), None);
}

#[test]
fn date_label_is_owed_exactly_in_range() {
    // the last representable second, and the one after it
    assert!(date_of_millis(8_210_266_876_799_999).is_some());
    assert_eq!(date_of_millis(8_210_266_876_800_000), None);
    // the first representable second, and the one before it
    assert!(date_of_millis(-8_334_601_228_800_000).is_some());
    assert_eq!(date_of_millis(-8_334_601_228_801_000), None);
}

#[test]
fn lol_record_rows_carry_codes_and_sentinels() {
    let g = lol::Game {
        match_id: String::from("KR_7"),
        queue_id: 440,
        game_mode: lol::GameMode::Classic,
        duration_secs: 60,
        start_millis: 1609459200123,
        participants: vec![],
    };
    let ranked = lol::League {
        queue_type: QueueType::RankedFlexSr,
        tier: Some(Tier::Gold),
        rank: Some(Rank::II),
        points: 77,
    };
    let bare = lol::League { queue_type: QueueType::RankedFlexSr, tier: None, rank: None, points: 3 };
    let part = |name: &str, win: bool| lol::Participant {
        puuid: format!("puuid-{name}"),
        win,
        champion_name: String::from("Ahri"),
        kills: 0,
        deaths: 0,
        assists: 0,
        damage: 0,
    };
    let entries = vec![
        (player("a"), part("a", true), Some(ranked)),
        (player("b"), part("b", false), Some(bare)),
        (player("c"), part("c", false), None),
    ];
    let r = lol_match_record(&g, &platform(), &entries);
    assert_eq!(r.key.game_id, "KR_7");
    assert_eq!(r.key.platform, "KR");
    assert_eq!(r.queue_id, 440);
    assert_eq!(r.date.as_deref(), Some("2021-01-01T00:00:00"));
    assert_eq!(r.rows.len(), 3);
    assert_eq!(r.rows[0].player_id, "puuid-a");
    assert_eq!(r.rows[0].outcome, 1);
    assert_eq!(r.rows[0].league, Some((100, 2, 77)));
    assert_eq!(r.rows[1].outcome, 0);
    // missing tier and rank persist as the unranked sentinels
    assert_eq!(r.rows[1].league, Some((0, 1, 3)));
    assert_eq!(r.rows[2].league, None);
}

#[test]
fn tft_record_uses_placement_and_end_time() {
    let g = tft::Game {
        match_id: String::from("KR_9"),
        queue_id: 1100,
        duration_secs: 100,
        end_millis: 0,
        participants: vec![],
    };
    let league = tft::League {
        queue_type: QueueType::RankedTft,
        tier: Some(Tier::Challenger),
        rank: Some(Rank::I),
        points: None,
    };
    let part = |name: &str, placement: u16| tft::Participant {
        puuid: format!("puuid-{name}"),
        placement,
    };
    let entries = vec![
        (player("a"), part("a", 4), Some(league)),
        (player("b"), part("b", 8), None),
    ];
    let r = tft_match_record(&g, &platform(), &entries);
    assert_eq!(r.queue_id, 1100);
    assert_eq!(r.date.as_deref(), Some("1970-01-01T00:00:00"));
    assert_eq!(r.rows[0].outcome, 4);
    // absent points persist as the sentinel
    assert_eq!(r.rows[0].league, Some((220, 1, -1)));
    assert_eq!(r.rows[1].outcome, 8);
    assert_eq!(r.rows[1].league, None);
}

#[test]
fn player_rows_pair_identity_with_name() {
    let rows = player_rows(&vec![player("ana"), player("bo")]);
    assert_eq!(rows, vec![
        (String::from("puuid-ana"), String::from("ana")),
        (String::from("puuid-bo"), String::from("bo")),
    ]);
}
