use riot_tracker::config::{all_chats, build_roster, Tracker};
use riot_tracker::roster::{find_in_roster, Player, RosterEntry};

fn tracker(chat: i64, lol: Vec<(&str, Vec<&str>)>, tft: Vec<(&str, Vec<&str>)>) -> Tracker {
    let conv = |lists: Vec<(&str, Vec<&str>)>| {
        lists
            .into_iter()
            .map(|(p, names)| {
                (String::from(p), names.into_iter().map(String::from).collect::<Vec<_>>())
            })
            .collect::<Vec<_>>()
    };
    Tracker {
        telegram_chat: chat,
        riot_lol_platforms_names: conv(lol),
        riot_tft_platforms_names: conv(tft),
    }
}

#[test]
fn roster_groups_channels_per_player() {
    let trackers = vec![
        tracker(1, vec![("EUW1", vec!["ana", "bo"])], vec![]),
        tracker(2, vec![("EUW1", vec!["ana"]), ("NA1", vec!["cy"])], vec![]),
    ];
    let roster = build_roster(&trackers, true);
    assert_eq!(roster.len(), 3);
    let ana = roster
        .iter()
        .find(|b| b.name == "ana" && b.platform == "EUW1")
        .expect("ana is tracked");
    assert_eq!(ana.chats, vec![1, 2]);
    let bo = roster.iter().find(|b| b.name == "bo").expect("bo is tracked");
    assert_eq!(bo.chats, vec![1]);
    let cy = roster.iter().find(|b| b.name == "cy").expect("cy is tracked");
    assert_eq!(cy.platform, "NA1");
    assert_eq!(cy.chats, vec![2]);
}

#[test]
fn duplicate_listings_do_not_duplicate_channels() {
    let trackers = vec![tracker(
        5,
        vec![("EUW1", vec!["ana"]), ("EUW1", vec!["ana"])],
        vec![],
    )];
    let roster = build_roster(&trackers, true);
    assert_eq!(roster.len(), 1);
    assert_eq!(roster[0].chats, vec![5]);
}

#[test]
fn titles_have_separate_rosters() {
    let trackers = vec![tracker(1, vec![("EUW1", vec!["ana"])], vec![("NA1", vec!["tt"])])];
    let lol = build_roster(&trackers, true);
    let tft = build_roster(&trackers, false);
    assert_eq!(lol.len(), 1);
    assert_eq!(lol[0].name, "ana");
    assert_eq!(tft.len(), 1);
    assert_eq!(tft[0].name, "tt");
}

#[test]
fn all_chats_deduplicates() {
    let trackers = vec![
        tracker(1, vec![], vec![]),
        tracker(2, vec![], vec![]),
        tracker(1, vec![], vec![]),
    ];
    assert_eq!(all_chats(&trackers), vec![1, 2]);
}

#[test]
fn roster_lookup_finds_first_entry_by_identity() {
    let entry = |puuid: &str, name: &str| RosterEntry {
        player: Player {
            id: String::from("x"),
            puuid: String::from(puuid),
            name: String::from(name),
        },
        chats: vec![],
    };
    let roster = vec![entry("p1", "first"), entry("p2", "second"), entry("p1", "shadow")];
    assert_eq!(find_in_roster(&roster, &String::from("p1")), Some(0));
    assert_eq!(find_in_roster(&roster, &String::from("p2")), Some(1));
    assert_eq!(find_in_roster(&roster, &String::from("p3")), None);
}
