use riot_tracker::lol::{Game, GameMode, League, Message, MessageTemplate, Participant};
use riot_tracker::pipeline::lol::{find_tracked, Action, Event, Processor};
use riot_tracker::queues::QueueType;
use riot_tracker::ranks::{Rank, Tier};
use riot_tracker::roster::{Platform, Player, RosterEntry};

fn player(name: &str) -> Player {
    Player {
        id: format!("id-{name}"),
        puuid: format!("puuid-{name}"),
        name: String::from(name),
    }
}

fn participant(name: &str, win: bool) -> Participant {
    Participant {
        puuid: format!("puuid-{name}"),
        win,
        champion_name: String::from("Sona"),
        kills: 1,
        deaths: 2,
        assists: 3,
        damage: 500,
    }
}

fn platform() -> Platform {
    Platform { code: String::from("EUW1"), region: String::from("euw") }
}

fn game(participants: Vec<Participant>) -> Game {
    Game {
        match_id: String::from("EUW1_999"),
        queue_id: 420,
        game_mode: GameMode::Classic,
        duration_secs: 1800,
        start_millis: 1609459200000,
        participants,
    }
}

fn message() -> Message {
    let t = MessageTemplate {
        win_single: String::from("win {sumoner_name}"),
        win_single_ranked: String::from("winr {sumoner_name} {tier} {rank} {lp}"),
        win_multiple: String::from("winm {sumoner_names}"),
        loss_single: String::from("loss {sumoner_name}"),
        loss_single_ranked: String::from("lossr {sumoner_name}"),
        loss_multiple: String::from("lossm {sumoner_names}"),
    };
    let t2 = MessageTemplate {
        win_single: t.win_single.clone(),
        win_single_ranked: t.win_single_ranked.clone(),
        win_multiple: t.win_multiple.clone(),
        loss_single: t.loss_single.clone(),
        loss_single_ranked: t.loss_single_ranked.clone(),
        loss_multiple: t.loss_multiple.clone(),
    };
    Message { single: t, multiple: t2 }
}

fn roster() -> Vec<RosterEntry> {
    vec![RosterEntry { player: player("ana"), chats: vec![10, 20] }]
}

#[test]
fn recorded_candidate_is_discarded_unfetched() {
    let roster = roster();
    let chats = vec![10i64, 20];
    let cfg = message();
    let s = Processor::Idle;
    let (s, a) = s.step(
        Event::Candidate { game_id: String::from("EUW1_999"), platform: platform() },
        &roster,
        &chats,
        &cfg,
    );
    match &a {
        Action::CheckStore { key } => {
            assert_eq!(key.game_id, "EUW1_999");
            assert_eq!(key.platform, "EUW1");
        },
        _ => panic!("expected a store check"),
    }
    // the store already has the key: the candidate is dropped at once
    let (s, a) = s.step(Event::DedupAnswer { present: true }, &roster, &chats, &cfg);
    assert!(matches!(a, Action::Discard));
    assert!(matches!(s, Processor::Idle));
}

#[test]
fn fresh_candidate_flows_to_delivery() {
    let roster = roster();
    let chats = vec![10i64, 20];
    let cfg = message();
    let s = Processor::Idle;
    let (s, _) = s.step(
        Event::Candidate { game_id: String::from("EUW1_999"), platform: platform() },
        &roster,
        &chats,
        &cfg,
    );
    let (s, a) = s.step(Event::DedupAnswer { present: false }, &roster, &chats, &cfg);
    match &a {
        Action::FetchGame { game_id, .. } => assert_eq!(game_id, "EUW1_999"),
        _ => panic!("expected a game fetch"),
    }
    let g = game(vec![participant("ana", true), participant("stranger", false)]);
    let (s, a) = s.step(Event::GameAnswer { game: Some(g) }, &roster, &chats, &cfg);
    match &a {
        Action::FetchLeagues { player, .. } => assert_eq!(player.puuid, "puuid-ana"),
        _ => panic!("expected a league fetch"),
    }
    let league = League {
        queue_type: QueueType::RankedSolo5x5,
        tier: Some(Tier::Master),
        rank: Some(Rank::I),
        points: 101,
    };
    let (s, a) = s.step(Event::LeagueAnswer { leagues: vec![league] }, &roster, &chats, &cfg);
    let record = match a {
        Action::Persist { record } => record,
        _ => panic!("expected a persist"),
    };
    assert_eq!(record.key.game_id, "EUW1_999");
    assert_eq!(record.key.platform, "EUW1");
    assert_eq!(record.queue_id, 420);
    assert_eq!(record.date.as_deref(), Some("2021-01-01T00:00:00"));
    assert_eq!(record.rows.len(), 1);
    assert_eq!(record.rows[0].player_id, "puuid-ana");
    assert_eq!(record.rows[0].outcome, 1);
    assert_eq!(record.rows[0].league, Some((180, 1, 101)));
    let (s, a) = s.step(Event::PersistAnswer { ok: true }, &roster, &chats, &cfg);
    assert!(matches!(s, Processor::Idle));
    let messages = match a {
        Action::Deliver { messages } => messages,
        _ => panic!("expected a delivery"),
    };
    // both channels follow ana: each gets the ranked single-win message
    assert_eq!(messages.len(), 2);
    assert_eq!(messages[0].0, 10);
    assert_eq!(messages[0].1, "winr ana MASTER I 101");
    assert_eq!(messages[1].0, 20);
    assert_eq!(messages[1].1, "winr ana MASTER I 101");
}

#[test]
fn untracked_match_persists_minimal_record_and_notifies_nobody() {
    let roster = roster();
    let chats = vec![10i64, 20];
    let cfg = message();
    let s = Processor::Idle;
    let (s, _) = s.step(
        Event::Candidate { game_id: String::from("EUW1_999"), platform: platform() },
        &roster,
        &chats,
        &cfg,
    );
    let (s, _) = s.step(Event::DedupAnswer { present: false }, &roster, &chats, &cfg);
    let g = game(vec![participant("stranger", true)]);
    let (s, a) = s.step(Event::GameAnswer { game: Some(g) }, &roster, &chats, &cfg);
    let record = match a {
        Action::Persist { record } => record,
        _ => panic!("expected a persist of the minimal record"),
    };
    assert!(record.rows.is_empty());
    assert_eq!(record.key.game_id, "EUW1_999");
    let (_, a) = s.step(Event::PersistAnswer { ok: true }, &roster, &chats, &cfg);
    let messages = match a {
        Action::Deliver { messages } => messages,
        _ => panic!("expected a delivery"),
    };
    assert!(messages.is_empty());
}

#[test]
fn failed_game_fetch_discards_candidate() {
    let roster = roster();
    let chats = vec![10i64];
    let cfg = message();
    let s = Processor::Idle;
    let (s, _) = s.step(
        Event::Candidate { game_id: String::from("EUW1_999"), platform: platform() },
        &roster,
        &chats,
        &cfg,
    );
    let (s, _) = s.step(Event::DedupAnswer { present: false }, &roster, &chats, &cfg);
    let (s, a) = s.step(Event::GameAnswer { game: None }, &roster, &chats, &cfg);
    assert!(matches!(a, Action::Discard));
    assert!(matches!(s, Processor::Idle));
}

#[test]
fn failed_persist_discards_without_notifying() {
    let roster = roster();
    let chats = vec![10i64];
    let cfg = message();
    let s = Processor::Idle;
    let (s, _) = s.step(
        Event::Candidate { game_id: String::from("EUW1_999"), platform: platform() },
        &roster,
        &chats,
        &cfg,
    );
    let (s, _) = s.step(Event::DedupAnswer { present: false }, &roster, &chats, &cfg);
    let g = game(vec![participant("ana", true)]);
    let (s, _) = s.step(Event::GameAnswer { game: Some(g) }, &roster, &chats, &cfg);
    let (s, _) = s.step(Event::LeagueAnswer { leagues: vec![] }, &roster, &chats, &cfg);
    let (s, a) = s.step(Event::PersistAnswer { ok: false }, &roster, &chats, &cfg);
    assert!(matches!(a, Action::Discard));
    assert!(matches!(s, Processor::Idle));
}

#[test]
fn identity_join_survives_display_name_change() {
    let parts = vec![participant("ana", true)];
    let old_roster = roster();
    let renamed = vec![RosterEntry {
        player: Player {
            id: String::from("id-ana"),
            puuid: String::from("puuid-ana"),
            name: String::from("AnaRenamed"),
        },
        chats: vec![10, 20],
    }];
    let before = find_tracked(&parts, &old_roster);
    let after = find_tracked(&parts, &renamed);
    assert_eq!(before.len(), 1);
    assert_eq!(after.len(), 1);
    assert_eq!(before[0].0.puuid, after[0].0.puuid);
    assert_eq!(before[0].2, after[0].2);
    assert_eq!(after[0].0.name, "AnaRenamed");
}
