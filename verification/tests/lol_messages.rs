use riot_tracker::lol::{
    generate_messages, get_damage_percentage, get_queue_or_mode_string, suppressed_outcomes, Game,
    GameMode, League, Message, MessageTemplate, Participant,
};
use riot_tracker::queues::QueueType;
use riot_tracker::ranks::{Rank, Tier};
use riot_tracker::roster::{Platform, Player};

fn player(name: &str) -> Player {
    Player {
        id: format!("id-{name}"),
        puuid: format!("puuid-{name}"),
        name: String::from(name),
    }
}

fn participant(name: &str, win: bool, damage: u32) -> Participant {
    Participant {
        puuid: format!("puuid-{name}"),
        win,
        champion_name: String::from("Amumu"),
        kills: 3,
        deaths: 1,
        assists: 7,
        damage,
    }
}

fn platform() -> Platform {
    Platform { code: String::from("EUW1"), region: String::from("euw") }
}

fn game(queue_id: u16, mode: GameMode, participants: Vec<Participant>) -> Game {
    Game {
        match_id: String::from("EUW1_123"),
        queue_id,
        game_mode: mode,
        duration_secs: 150,
        start_millis: 1609459200000,
        participants,
    }
}

fn template() -> MessageTemplate {
    MessageTemplate {
        win_single: String::from(
            "W {sumoner_name} {champion} {kills}/{deaths}/{assists} {damage} {damage_percentage} {tier}|{rank}|{lp} {mode} {game_duration_min} {region}",
        ),
        win_single_ranked: String::from("WR {sumoner_name} {tier}|{rank}|{lp}"),
        win_multiple: String::from("WM {sumoner_names} [{singles}]"),
        loss_single: String::from("L {sumoner_name}"),
        loss_single_ranked: String::from("LR {sumoner_name} {tier}|{rank}|{lp}"),
        loss_multiple: String::from("LM {sumoner_names} [{singles}]"),
    }
}

fn message() -> Message {
    Message { single: template(), multiple: template() }
}

#[test]
fn mode_label_follows_classic_queues() {
    let g = game(420, GameMode::Classic, vec![]);
    assert_eq!(get_queue_or_mode_string(&g), "RANKED");
    let g = game(440, GameMode::Classic, vec![]);
    assert_eq!(get_queue_or_mode_string(&g), "RANKED FLEX");
    let g = game(0, GameMode::Classic, vec![]);
    assert_eq!(get_queue_or_mode_string(&g), "CUSTOM");
    // every non-enumerated (mode, queue) pair defaults to the raw mode name
    let g = game(430, GameMode::Classic, vec![]);
    assert_eq!(get_queue_or_mode_string(&g), "CLASSIC");
    let g = game(450, GameMode::Other(String::from("ARAM")), vec![]);
    assert_eq!(get_queue_or_mode_string(&g), "ARAM");
}

#[test]
fn damage_percentage_has_one_decimal() {
    let g = game(
        420,
        GameMode::Classic,
        vec![participant("a", true, 100), participant("b", true, 200), participant(
            "c", false, 50,
        )],
    );
    assert_eq!(get_damage_percentage(&g, true, &participant("a", true, 100)), "33.3");
    assert_eq!(get_damage_percentage(&g, true, &participant("b", true, 200)), "66.7");
    assert_eq!(get_damage_percentage(&g, false, &participant("c", false, 50)), "100.0");
}

#[test]
fn single_win_message_is_fully_substituted() {
    let parts = vec![participant("a", true, 100), participant("b", true, 200)];
    let g = game(420, GameMode::Classic, parts);
    let entries = vec![(player("a"), participant("a", true, 100), None::<League>)];
    let out = generate_messages(&g, &platform(), &entries, &message());
    assert_eq!(out.len(), 1);
    assert_eq!(out[0], "W a Amumu 3/1/7 100 33.3 UNRANKED||-1 RANKED 2 euw");
}

#[test]
fn ranked_single_uses_snapshot() {
    let g = game(420, GameMode::Classic, vec![participant("a", true, 100)]);
    let league = League {
        queue_type: QueueType::RankedSolo5x5,
        tier: Some(Tier::Gold),
        rank: Some(Rank::II),
        points: 56,
    };
    let entries = vec![(player("a"), participant("a", true, 100), Some(league))];
    let out = generate_messages(&g, &platform(), &entries, &message());
    assert_eq!(out, vec!["WR a GOLD|II|56"]);
}

#[test]
fn ranked_single_fills_unranked_sentinels() {
    let g = game(420, GameMode::Classic, vec![participant("a", false, 10)]);
    let league =
        League { queue_type: QueueType::RankedSolo5x5, tier: None, rank: None, points: -1 };
    let entries = vec![(player("a"), participant("a", false, 10), Some(league))];
    let out = generate_messages(&g, &platform(), &entries, &message());
    assert_eq!(out, vec!["LR a UNRANKED||-1"]);
}

#[test]
fn no_tracked_participants_no_messages() {
    let g = game(420, GameMode::Classic, vec![participant("a", true, 100)]);
    let entries = vec![];
    let out = generate_messages(&g, &platform(), &entries, &message());
    assert!(out.is_empty());
}

#[test]
fn three_winners_one_loser_yield_two_messages() {
    let parts = vec![
        participant("w1", true, 100),
        participant("w2", true, 100),
        participant("w3", true, 100),
        participant("l1", false, 40),
    ];
    let g = game(420, GameMode::Classic, parts);
    let entries = vec![
        (player("w1"), participant("w1", true, 100), None::<League>),
        (player("w2"), participant("w2", true, 100), None),
        (player("w3"), participant("w3", true, 100), None),
        (player("l1"), participant("l1", false, 40), None),
    ];
    let out = generate_messages(&g, &platform(), &entries, &message());
    assert_eq!(out.len(), 2);
    assert_eq!(out[0], "L l1");
    assert!(out[1].starts_with("WM w1 &amp; w2 &amp; w3 ["));
    assert!(out[1].contains("W w1 Amumu"));
    assert!(out[1].contains("W w2 Amumu"));
    assert!(out[1].contains("W w3 Amumu"));
}

#[test]
fn oversized_bucket_is_suppressed_and_reported() {
    let mut parts = Vec::new();
    let mut entries = Vec::new();
    for i in 0..6 {
        let name = format!("p{i}");
        parts.push(participant(&name, true, 10));
        entries.push((player(&name), participant(&name, true, 10), None::<League>));
    }
    let g = game(420, GameMode::Classic, parts);
    let out = generate_messages(&g, &platform(), &entries, &message());
    assert!(out.is_empty());
    // the suppression is reported so that it can be warned about
    assert_eq!(suppressed_outcomes(&entries), vec![true]);
    let lone = vec![(player("p0"), participant("p0", true, 10), None::<League>)];
    assert_eq!(suppressed_outcomes(&lone), Vec::<bool>::new());
}
