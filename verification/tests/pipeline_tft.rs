use riot_tracker::pipeline::tft as pipe;
use riot_tracker::queues::QueueType;
use riot_tracker::ranks::{Rank, Tier};
use riot_tracker::roster::{Platform, Player, RosterEntry};
use riot_tracker::tft::{Game, League, Message, MessageTemplate, Participant};

fn player(name: &str) -> Player {
    Player {
        id: format!("id-{name}"),
        puuid: format!("puuid-{name}"),
        name: String::from(name),
    }
}

fn platform() -> Platform {
    Platform { code: String::from("EUW1"), region: String::from("euw") }
}

fn game(queue_id: i32, participants: Vec<Participant>) -> Game {
    Game {
        match_id: String::from("EUW1_777"),
        queue_id,
        duration_secs: 120,
        end_millis: 1609459200000,
        participants,
    }
}

fn message() -> Message {
    let t = || MessageTemplate {
        top_single: String::from("top{top} {sumoner_name} {tier} {rank} {lp}"),
        top_single_ranked: String::from("topr{top} {sumoner_name} {tier} {rank} {lp}"),
        top_duo: String::from("topduo{top} {sumoner_names}"),
        bottom_single: String::from("bottom{top} {sumoner_name}"),
        bottom_single_ranked: String::from("bottomr{top} {sumoner_name}"),
        bottom_duo: String::from("bottomduo{top} {sumoner_names}"),
    };
    Message { single: t(), duo: t() }
}

#[test]
fn tft_recorded_candidate_is_discarded_unfetched() {
    let roster = vec![RosterEntry { player: player("zoe"), chats: vec![3] }];
    let chats = vec![3i64];
    let cfg = message();
    let s = pipe::Processor::Idle;
    let (s, a) = s.step(
        pipe::Event::Candidate { game_id: String::from("EUW1_777"), platform: platform() },
        &roster,
        &chats,
        &cfg,
    );
    assert!(matches!(a, pipe::Action::CheckStore { .. }));
    let (s, a) = s.step(pipe::Event::DedupAnswer { present: true }, &roster, &chats, &cfg);
    assert!(matches!(a, pipe::Action::Discard));
    assert!(matches!(s, pipe::Processor::Idle));
}

#[test]
fn tft_candidate_flows_to_delivery_with_raw_queue_lookup() {
    let roster = vec![RosterEntry { player: player("zoe"), chats: vec![3] }];
    let chats = vec![3i64];
    let cfg = message();
    let s = pipe::Processor::Idle;
    let (s, _) = s.step(
        pipe::Event::Candidate { game_id: String::from("EUW1_777"), platform: platform() },
        &roster,
        &chats,
        &cfg,
    );
    let (s, _) = s.step(pipe::Event::DedupAnswer { present: false }, &roster, &chats, &cfg);
    let g = game(
        1100,
        vec![
            Participant { puuid: String::from("puuid-zoe"), placement: 6 },
            Participant { puuid: String::from("puuid-other"), placement: 1 },
        ],
    );
    let (s, a) = s.step(pipe::Event::GameAnswer { game: Some(g) }, &roster, &chats, &cfg);
    match &a {
        pipe::Action::FetchLeagues { player, .. } => assert_eq!(player.puuid, "puuid-zoe"),
        _ => panic!("expected a league fetch"),
    }
    // the snapshot for the ranked queue is found by the raw identifier; the
    // hyper-roll entry is passed over
    let leagues = vec![
        League {
            queue_type: QueueType::RankedTftTurbo,
            tier: Some(Tier::Iron),
            rank: Some(Rank::IV),
            points: Some(1),
        },
        League {
            queue_type: QueueType::RankedTft,
            tier: Some(Tier::Silver),
            rank: Some(Rank::III),
            points: Some(42),
        },
    ];
    let (s, a) = s.step(pipe::Event::LeagueAnswer { leagues }, &roster, &chats, &cfg);
    let record = match a {
        pipe::Action::Persist { record } => record,
        _ => panic!("expected a persist"),
    };
    assert_eq!(record.key.game_id, "EUW1_777");
    assert_eq!(record.queue_id, 1100);
    assert_eq!(record.rows.len(), 1);
    assert_eq!(record.rows[0].outcome, 6);
    assert_eq!(record.rows[0].league, Some((80, 3, 42)));
    let (_, a) = s.step(pipe::Event::PersistAnswer { ok: true }, &roster, &chats, &cfg);
    let messages = match a {
        pipe::Action::Deliver { messages } => messages,
        _ => panic!("expected a delivery"),
    };
    assert_eq!(messages.len(), 1);
    assert_eq!(messages[0].0, 3);
    assert_eq!(messages[0].1, "bottomr6 zoe");
}
