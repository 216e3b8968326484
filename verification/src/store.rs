use vstd::prelude::*;

use crate::ranks::{rank_code, tier_code, Rank, Tier};
use crate::roster::{Platform, Player};

verus! {

/// Key under which a processed match is recorded: the match identifier
/// together with the code of the platform it was played on. Dedup never
/// involves a player's display name.
pub struct MatchKey {
    pub game_id: String,
    pub platform: String,
}

impl MatchKey {
    pub open spec fn view(self) -> (Seq<char>, Seq<char>) {
        (self.game_id@, self.platform@)
    }

    /// Whether two keys name the same (match, platform) pair.
    pub fn key_eq(&self, other: &MatchKey) -> (r: bool)
        ensures
            r == (self@ == other@),
    {
        self.game_id == other.game_id && self.platform == other.platform
    }

    /// A copy of this key, field for field.
    pub fn duplicate(&self) -> (r: MatchKey)
        ensures
            r == *self,
    {
        MatchKey { game_id: self.game_id.clone(), platform: self.platform.clone() }
    }
}

/// One persisted participant outcome: the player's identity, the outcome
/// value, and the ranking snapshot codes when a snapshot was found.
pub struct ResultRow {
    pub player_id: String,
    pub outcome: i32,
    pub league: Option<(u8, u8, i32)>,
}

/// The one transactional record persisted per observed match: its key, its
/// queue, its calendar date label when the timestamp is representable, and
/// one row per tracked participant (none for a match without any).
pub struct MatchRecord {
    pub key: MatchKey,
    pub queue_id: i32,
    pub date: Option<String>,
    pub rows: Vec<ResultRow>,
}

/// The calendar label (`%Y-%m-%dT%H:%M:%S`, UTC) of the instant `secs`
/// seconds after the epoch. A function of its arguments alone.
pub uninterp spec fn date_label_of(secs: i64, nanos: u32) -> Seq<char>;

/// Relies on chrono's `DateTime::from_timestamp` and its `%Y-%m-%dT%H:%M:%S`
/// formatting: a timestamp becomes its UTC calendar label exactly when its
/// seconds lie in the range of chrono's calendar (the first instant of year
/// -262143 through the last of year 262142) and the nanoseconds are below
/// one second.
#[verifier::external_body]
pub(crate) fn date_label(secs: i64, nanos: u32) -> (r: Option<String>)
    ensures
        r matches Some(s) ==> s@ == date_label_of(secs, nanos),
        nanos < 1_000_000_000 ==> (r is Some <==> -8_334_601_228_800 <= secs
            <= 8_210_266_876_799),
{
    chrono::DateTime::<chrono::Utc>::from_timestamp(secs, nanos)
        .map(|date| date.format("%Y-%m-%dT%H:%M:%S").to_string())
}

/// The whole seconds in `millis` milliseconds, truncated toward zero, and
/// the remainder in milliseconds, floored at zero for negative timestamps.
pub open spec fn spec_split_millis(millis: i64) -> (int, int) {
    if millis >= 0 {
        ((millis as int) / 1000, (millis as int) % 1000)
    } else {
        (-((-(millis as int)) / 1000), 0)
    }
}

/// Whether a millisecond timestamp falls in the range of timestamps that
/// carry a calendar date label.
pub open spec fn date_representable(millis: i64) -> bool {
    -8_334_601_228_800 <= spec_split_millis(millis).0 <= 8_210_266_876_799
}

/// Splits a millisecond timestamp into whole seconds (truncated toward zero)
/// and a non-negative remainder.
pub fn split_millis(millis: i64) -> (r: (i64, u32))
    ensures
        (r.0 as int, r.1 as int) == spec_split_millis(millis),
{
    if millis >= 0 {
        let m: u64 = millis as u64;
        ((m / 1000) as i64, (m % 1000) as u32)
    } else {
        let wide: i128 = -(millis as i128);
        let q: i128 = wide / 1000;
        ((-q) as i64, 0)
    }
}

/// The date label persisted for a millisecond timestamp: present exactly for
/// the timestamps whose calendar date is representable.
pub fn date_of_millis(millis: i64) -> (r: Option<String>)
    ensures
        r matches Some(s) ==> s@ == date_label_of(
            spec_split_millis(millis).0 as i64,
            spec_split_millis(millis).1 as u32,
        ),
        r is Some <==> date_representable(millis),
{
    let (secs, nanos) = split_millis(millis);
    proof {
        assert(spec_split_millis(millis).1 < 1_000_000_000);
    }
    date_label(secs, nanos)
}

/// The outcome row persisted for one tracked participant of a game, given
/// its outcome value and its optional ranking snapshot codes.
pub open spec fn spec_result_row(
    puuid: String,
    outcome: int,
    tier: Option<Tier>,
    rank: Option<Rank>,
    points: int,
    ranked: bool,
) -> ResultRow {
    ResultRow {
        player_id: puuid,
        outcome: outcome as i32,
        league: if ranked {
            Option::Some(
                (
                    tier_code(
                        match tier {
                            Option::Some(t) => t,
                            Option::None => Tier::Unranked,
                        },
                    ),
                    rank_code(
                        match rank {
                            Option::Some(d) => d,
                            Option::None => Rank::I,
                        },
                    ),
                    points as i32,
                ),
            )
        } else {
            Option::None
        },
    }
}

/// The row persisted for one tracked participant of a game of the first
/// title: the player's identity, 1 for a win and 0 for a loss, and the
/// snapshot codes with the unranked sentinels filled in.
pub open spec fn spec_lol_row(e: crate::lol::Entry) -> ResultRow {
    spec_result_row(
        e.1.puuid,
        if e.1.win {
            1int
        } else {
            0int
        },
        match e.2 {
            Option::Some(l) => l.tier,
            Option::None => Option::None,
        },
        match e.2 {
            Option::Some(l) => l.rank,
            Option::None => Option::None,
        },
        match e.2 {
            Option::Some(l) => l.points as int,
            Option::None => 0,
        },
        e.2 is Some,
    )
}

/// The rows persisted for the tracked participants of a game of the first
/// title, in order.
pub open spec fn spec_lol_rows(entries: Seq<crate::lol::Entry>) -> Seq<ResultRow> {
    entries.map_values(|e: crate::lol::Entry| spec_lol_row(e))
}

/// The row persisted for one tracked participant of a game of the other
/// title: the player's identity, the placement as outcome, and the snapshot
/// codes with the unranked sentinels filled in; absent points persist as the
/// sentinel -1.
pub open spec fn spec_tft_row(e: crate::tft::Entry) -> ResultRow {
    spec_result_row(
        e.1.puuid,
        e.1.placement as int,
        match e.2 {
            Option::Some(l) => l.tier,
            Option::None => Option::None,
        },
        match e.2 {
            Option::Some(l) => l.rank,
            Option::None => Option::None,
        },
        match e.2 {
            Option::Some(l) => match l.points {
                Option::Some(p) => p as int,
                Option::None => -1,
            },
            Option::None => 0,
        },
        e.2 is Some,
    )
}

/// The rows persisted for the tracked participants of a game of the other
/// title, in order.
pub open spec fn spec_tft_rows(entries: Seq<crate::tft::Entry>) -> Seq<ResultRow> {
    entries.map_values(|e: crate::tft::Entry| spec_tft_row(e))
}

fn lol_row(e: &crate::lol::Entry) -> (r: ResultRow)
    ensures
        r == spec_lol_row(*e),
{
    let league: Option<(u8, u8, i32)> = match &e.2 {
        Option::Some(l) => {
            let t = match l.tier {
                Option::Some(t) => t,
                Option::None => Tier::Unranked,
            };
            let d = match l.rank {
                Option::Some(d) => d,
                Option::None => Rank::I,
            };
            Option::Some((t.code(), d.code(), l.points))
        },
        Option::None => Option::None,
    };
    let r = ResultRow {
        player_id: e.1.puuid.clone(),
        outcome: if e.1.win {
            1
        } else {
            0
        },
        league,
    };
    r
}

fn tft_row(e: &crate::tft::Entry) -> (r: ResultRow)
    ensures
        r == spec_tft_row(*e),
{
    let league: Option<(u8, u8, i32)> = match &e.2 {
        Option::Some(l) => {
            let t = match l.tier {
                Option::Some(t) => t,
                Option::None => Tier::Unranked,
            };
            let d = match l.rank {
                Option::Some(d) => d,
                Option::None => Rank::I,
            };
            let p: i32 = match l.points {
                Option::Some(p) => p,
                Option::None => -1,
            };
            Option::Some((t.code(), d.code(), p))
        },
        Option::None => Option::None,
    };
    let r = ResultRow { player_id: e.1.puuid.clone(), outcome: e.1.placement as i32, league };
    r
}

/// The record persisted for a game of the first title and its tracked
/// participants; with no tracked participant it is the minimal record.
pub fn lol_match_record(
    game: &crate::lol::Game,
    platform: &Platform,
    entries: &Vec<crate::lol::Entry>,
) -> (r: MatchRecord)
    ensures
        r.key.game_id@ == game.match_id@,
        r.key.platform@ == platform.code@,
        r.queue_id == game.queue_id as i32,
        r.rows@ == spec_lol_rows(entries@),
        r.date matches Some(s) ==> s@ == date_label_of(
            spec_split_millis(game.start_millis).0 as i64,
            spec_split_millis(game.start_millis).1 as u32,
        ),
        r.date is Some <==> date_representable(game.start_millis),
{
    let key = MatchKey { game_id: game.match_id.clone(), platform: platform.code.clone() };
    let date = date_of_millis(game.start_millis);
    let mut rows: Vec<ResultRow> = Vec::new();
    let mut i: usize = 0;
    while i < entries.len()
        invariant
            i <= entries@.len(),
            rows@ == spec_lol_rows(entries@.subrange(0, i as int)),
        decreases entries@.len() - i,
    {
        let row = lol_row(&entries[i]);
        rows.push(row);
        proof {
            assert(rows@ =~= spec_lol_rows(entries@.subrange(0, (i + 1) as int)));
        }
        i = i + 1;
    }
    proof {
        assert(entries@.subrange(0, entries@.len() as int) =~= entries@);
    }
    MatchRecord { key, queue_id: game.queue_id as i32, date, rows }
}

/// The record persisted for a game of the other title and its tracked
/// participants; with no tracked participant it is the minimal record.
pub fn tft_match_record(
    game: &crate::tft::Game,
    platform: &Platform,
    entries: &Vec<crate::tft::Entry>,
) -> (r: MatchRecord)
    ensures
        r.key.game_id@ == game.match_id@,
        r.key.platform@ == platform.code@,
        r.queue_id == game.queue_id,
        r.rows@ == spec_tft_rows(entries@),
        r.date matches Some(s) ==> s@ == date_label_of(
            spec_split_millis(game.end_millis).0 as i64,
            spec_split_millis(game.end_millis).1 as u32,
        ),
        r.date is Some <==> date_representable(game.end_millis),
{
    let key = MatchKey { game_id: game.match_id.clone(), platform: platform.code.clone() };
    let date = date_of_millis(game.end_millis);
    let mut rows: Vec<ResultRow> = Vec::new();
    let mut i: usize = 0;
    while i < entries.len()
        invariant
            i <= entries@.len(),
            rows@ == spec_tft_rows(entries@.subrange(0, i as int)),
        decreases entries@.len() - i,
    {
        let row = tft_row(&entries[i]);
        rows.push(row);
        proof {
            assert(rows@ =~= spec_tft_rows(entries@.subrange(0, (i + 1) as int)));
        }
        i = i + 1;
    }
    proof {
        assert(entries@.subrange(0, entries@.len() as int) =~= entries@);
    }
    MatchRecord { key, queue_id: game.queue_id, date, rows }
}

/// The (identity, display name) pairs persisted for resolved players, in
/// order.
pub open spec fn spec_player_rows(players: Seq<Player>) -> Seq<(String, String)> {
    players.map_values(|p: Player| (p.puuid, p.name))
}

/// Builds the (identity, display name) pairs under which resolved players
/// are persisted.
pub fn player_rows(players: &Vec<Player>) -> (r: Vec<(String, String)>)
    ensures
        r@ == spec_player_rows(players@),
{
    let mut rows: Vec<(String, String)> = Vec::new();
    let mut i: usize = 0;
    while i < players.len()
        invariant
            i <= players@.len(),
            rows@ == spec_player_rows(players@.subrange(0, i as int)),
        decreases players@.len() - i,
    {
        let p = &players[i];
        rows.push((p.puuid.clone(), p.name.clone()));
        proof {
            assert(rows@ =~= spec_player_rows(players@.subrange(0, (i + 1) as int)));
        }
        i = i + 1;
    }
    proof {
        assert(players@.subrange(0, players@.len() as int) =~= players@);
    }
    rows
}

} // verus!
