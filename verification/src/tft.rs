use vstd::prelude::*;
use vstd::string::StringExecFns;

use crate::queues::{QUEUE_RANKED_TFT, QUEUE_RANKED_TFT_DOUBLE_UP, QUEUE_RANKED_TFT_TURBO};
use crate::ranks::{rank_label, tier_label, Rank, Tier};
use crate::roster::{Platform, Player};
use crate::text::{dec_int_of, dec_of, i64_to_string, replace_str, spec_replace, u64_to_string};

verus! {

/// One participant of a game: its player identity and final placement.
pub struct Participant {
    pub puuid: String,
    pub placement: u16,
}

impl Participant {
    /// A copy of this participant, field for field.
    pub fn duplicate(&self) -> (r: Participant)
        ensures
            r == *self,
    {
        Participant { puuid: self.puuid.clone(), placement: self.placement }
    }
}

/// A fetched game: its identity, raw queue identifier, timing and
/// participants.
pub struct Game {
    pub match_id: String,
    pub queue_id: i32,
    pub duration_secs: u64,
    pub end_millis: i64,
    pub participants: Vec<Participant>,
}

/// A player's league entry for one ranked queue.
#[derive(Clone, Copy)]
pub struct League {
    pub queue_type: crate::queues::QueueType,
    pub tier: Option<Tier>,
    pub rank: Option<Rank>,
    pub points: Option<i32>,
}

/// The message templates for one outcome-bucket cardinality.
pub struct MessageTemplate {
    pub top_single: String,
    pub top_single_ranked: String,
    pub top_duo: String,
    pub bottom_single: String,
    pub bottom_single_ranked: String,
    pub bottom_duo: String,
}

/// The configured message templates: one set for a lone tracked participant,
/// one for a pair sharing a placement bucket.
pub struct Message {
    pub single: MessageTemplate,
    pub duo: MessageTemplate,
}

/// A tracked participant as the composer sees it.
pub type Entry = (Player, Participant, Option<League>);

/// Whether the game was played under the double-up queue variant, which
/// halves the placement buckets.
pub open spec fn is_double_queue(game: Game) -> bool {
    game.queue_id == QUEUE_RANKED_TFT_DOUBLE_UP as i32
}

/// The mode label substituted for `{mode}`: a raw queue identifier out of
/// range counts as no known queue.
pub open spec fn mode_label(game: Game) -> Seq<char> {
    let q = if 0 <= game.queue_id <= u16::MAX as i32 {
        game.queue_id
    } else {
        0
    };
    if q == QUEUE_RANKED_TFT as i32 {
        "RANKED"@
    } else if q == QUEUE_RANKED_TFT_TURBO as i32 {
        "HYPER ROLL"@
    } else if q == QUEUE_RANKED_TFT_DOUBLE_UP as i32 {
        "DOUBLE UP"@
    } else {
        "NORMAL"@
    }
}

/// The game's duration in whole minutes, rounded to the nearest minute.
pub open spec fn rounded_minutes(secs: int) -> int {
    (secs + 30) / 60
}

/// The mode label of `game`.
pub fn get_queue_or_mode_string(game: &Game) -> (r: String)
    ensures
        r@ == mode_label(*game),
{
    let q: i32 = if game.queue_id >= 0 && game.queue_id <= u16::MAX as i32 {
        game.queue_id
    } else {
        0
    };
    if q == QUEUE_RANKED_TFT as i32 {
        String::from_str("RANKED")
    } else if q == QUEUE_RANKED_TFT_TURBO as i32 {
        String::from_str("HYPER ROLL")
    } else if q == QUEUE_RANKED_TFT_DOUBLE_UP as i32 {
        String::from_str("DOUBLE UP")
    } else {
        String::from_str("NORMAL")
    }
}

/// The text of `template` after the substitutions shared by every message
/// variant: mode label, placement bucket, duration in minutes, region label.
pub open spec fn common_text(game: Game, platform: Platform, result: int, template: Seq<char>) -> Seq<
    char,
> {
    let s0 = spec_replace(template, "{mode}"@, mode_label(game));
    let s1 = spec_replace(s0, "{top}"@, dec_of(result as nat));
    let s2 = spec_replace(
        s1,
        "{game_duration_min}"@,
        dec_of(rounded_minutes(game.duration_secs as int) as nat),
    );
    spec_replace(s2, "{region}"@, platform.region@)
}

/// Performs the substitutions shared by every message variant.
pub fn substitute_common(game: &Game, platform: &Platform, result: u32, message: &str) -> (r:
    String)
    ensures
        r@ == common_text(*game, *platform, result as int, message@),
{
    proof {
        reveal_strlit("{mode}");
        reveal_strlit("{top}");
        reveal_strlit("{game_duration_min}");
        reveal_strlit("{region}");
    }
    let mode = get_queue_or_mode_string(game);
    let s0 = replace_str(message, "{mode}", mode.as_str());
    let top = u64_to_string(result as u64);
    let s1 = replace_str(s0.as_str(), "{top}", top.as_str());
    let wide: u128 = (game.duration_secs as u128 + 30) / 60;
    let minutes_value: u64 = wide as u64;
    let minutes = u64_to_string(minutes_value);
    let s2 = replace_str(s1.as_str(), "{game_duration_min}", minutes.as_str());
    replace_str(s2.as_str(), "{region}", platform.region.as_str())
}

/// Whether a league entry is at hand, which selects the ranked variant of a
/// template.
pub open spec fn has_league(l: Option<League>) -> bool {
    l is Some
}

/// The tier shown for a league entry: its tier, or the unranked sentinel.
pub open spec fn shown_tier(l: Option<League>) -> Tier {
    match l {
        Option::Some(league) => match league.tier {
            Option::Some(t) => t,
            Option::None => Tier::Unranked,
        },
        Option::None => Tier::Unranked,
    }
}

/// The rank label shown for a league entry: its rank's label, or nothing.
pub open spec fn shown_rank(l: Option<League>) -> Seq<char> {
    match l {
        Option::Some(league) => match league.rank {
            Option::Some(r) => rank_label(r),
            Option::None => Seq::<char>::empty(),
        },
        Option::None => Seq::<char>::empty(),
    }
}

/// The league points shown for a league entry: its points, or the sentinel
/// -1 when the entry or its points are absent.
pub open spec fn shown_points(l: Option<League>) -> int {
    match l {
        Option::Some(league) => match league.points {
            Option::Some(p) => p as int,
            Option::None => -1,
        },
        Option::None => -1,
    }
}

/// The template for a lone tracked participant, selected by whether its
/// bucket is in the top half and whether a league entry is at hand.
pub open spec fn single_template(top: bool, ranked: bool, t: MessageTemplate) -> Seq<char> {
    if top {
        if ranked {
            t.top_single_ranked@
        } else {
            t.top_single@
        }
    } else {
        if ranked {
            t.bottom_single_ranked@
        } else {
            t.bottom_single@
        }
    }
}

/// The fully substituted text of a single-participant message.
pub open spec fn single_text(
    game: Game,
    platform: Platform,
    result: int,
    e: Entry,
    t: MessageTemplate,
    threshold: int,
) -> Seq<char> {
    let s0 = common_text(
        game,
        platform,
        result,
        single_template(result <= threshold, has_league(e.2), t),
    );
    let s1 = spec_replace(s0, "{sumoner_name}"@, e.0.name@);
    let s2 = spec_replace(s1, "{tier}"@, tier_label(shown_tier(e.2)));
    let s3 = spec_replace(s2, "{rank}"@, shown_rank(e.2));
    spec_replace(s3, "{lp}"@, dec_int_of(shown_points(e.2)))
}

/// Composes the message for a lone tracked participant in bucket `result`.
pub fn generate_message_single(
    game: &Game,
    platform: &Platform,
    result: u32,
    player_participant_league: &Entry,
    message_template: &MessageTemplate,
    threshold: u32,
) -> (r: String)
    ensures
        r@ == single_text(
            *game,
            *platform,
            result as int,
            *player_participant_league,
            *message_template,
            threshold as int,
        ),
{
    proof {
        reveal_strlit("{sumoner_name}");
        reveal_strlit("{tier}");
        reveal_strlit("{rank}");
        reveal_strlit("{lp}");
    }
    let template: &String = if result <= threshold {
        match &player_participant_league.2 {
            Option::None => &message_template.top_single,
            Option::Some(_) => &message_template.top_single_ranked,
        }
    } else {
        match &player_participant_league.2 {
            Option::None => &message_template.bottom_single,
            Option::Some(_) => &message_template.bottom_single_ranked,
        }
    };
    let s0 = substitute_common(game, platform, result, template.as_str());
    let s1 = replace_str(s0.as_str(), "{sumoner_name}", player_participant_league.0.name.as_str());
    let tier = match &player_participant_league.2 {
        Option::Some(league) => match league.tier {
            Option::Some(t) => t,
            Option::None => Tier::Unranked,
        },
        Option::None => Tier::Unranked,
    };
    let tier_text = tier.label();
    let s2 = replace_str(s1.as_str(), "{tier}", tier_text.as_str());
    let rank_text = match &player_participant_league.2 {
        Option::Some(league) => match league.rank {
            Option::Some(r) => r.label(),
            Option::None => String::new(),
        },
        Option::None => String::new(),
    };
    let s3 = replace_str(s2.as_str(), "{rank}", rank_text.as_str());
    let points: i64 = match &player_participant_league.2 {
        Option::Some(league) => match league.points {
            Option::Some(p) => p as i64,
            Option::None => -1,
        },
        Option::None => -1,
    };
    let points_text = i64_to_string(points);
    replace_str(s3.as_str(), "{lp}", points_text.as_str())
}

/// The template for a pair of tracked participants sharing a bucket.
pub open spec fn duo_template(top: bool, t: MessageTemplate) -> Seq<char> {
    if top {
        t.top_duo@
    } else {
        t.bottom_duo@
    }
}

/// The fully substituted text of a message about a pair of tracked
/// participants sharing a bucket.
pub open spec fn duo_text(
    game: Game,
    platform: Platform,
    result: int,
    a: Entry,
    b: Entry,
    t: MessageTemplate,
    threshold: int,
) -> Seq<char> {
    let s0 = common_text(game, platform, result, duo_template(result <= threshold, t));
    let s1 = spec_replace(s0, "{sumoner_names}"@, a.0.name@ + " &amp; "@ + b.0.name@);
    spec_replace(
        s1,
        "{singles}"@,
        single_text(game, platform, result, a, t, threshold) + single_text(
            game,
            platform,
            result,
            b,
            t,
            threshold,
        ),
    )
}

/// Composes the message for a pair of tracked participants sharing the
/// bucket `result`.
pub fn generate_message_duo(
    game: &Game,
    platform: &Platform,
    result: u32,
    player_participant_league_a: &Entry,
    player_participant_league_b: &Entry,
    message_template: &MessageTemplate,
    threshold: u32,
) -> (r: String)
    ensures
        r@ == duo_text(
            *game,
            *platform,
            result as int,
            *player_participant_league_a,
            *player_participant_league_b,
            *message_template,
            threshold as int,
        ),
{
    proof {
        reveal_strlit("{sumoner_names}");
        reveal_strlit("{singles}");
    }
    let template: &String = if result <= threshold {
        &message_template.top_duo
    } else {
        &message_template.bottom_duo
    };
    let s0 = substitute_common(game, platform, result, template.as_str());
    let mut names: String = player_participant_league_a.0.name.clone();
    names.append(" &amp; ");
    names.append(player_participant_league_b.0.name.as_str());
    let s1 = replace_str(s0.as_str(), "{sumoner_names}", names.as_str());
    let mut singles = generate_message_single(
        game,
        platform,
        result,
        player_participant_league_a,
        message_template,
        threshold,
    );
    let second = generate_message_single(
        game,
        platform,
        result,
        player_participant_league_b,
        message_template,
        threshold,
    );
    singles.append(second.as_str());
    replace_str(s1.as_str(), "{singles}", singles.as_str())
}

/// The placement bucket a participant falls in: its placement, halved and
/// rounded up under the double-up variant.
pub open spec fn bucket_index(p: Participant, is_double: bool) -> int {
    if is_double {
        (p.placement as int + 1) / 2
    } else {
        p.placement as int
    }
}

/// The sub-sequence of entries whose participant falls in bucket `result`,
/// in their original order.
pub open spec fn placement_bucket(entries: Seq<Entry>, result: int, is_double: bool) -> Seq<Entry>
    decreases entries.len(),
{
    if entries.len() == 0 {
        Seq::<Entry>::empty()
    } else {
        placement_bucket(entries.drop_last(), result, is_double) + if bucket_index(
            entries.last().1,
            is_double,
        ) == result {
            seq![entries.last()]
        } else {
            Seq::<Entry>::empty()
        }
    }
}

/// A copy of an entry, field for field.
pub fn copy_entry(e: &Entry) -> (r: Entry)
    ensures
        r == *e,
{
    let player = e.0.duplicate();
    let participant = Participant { puuid: e.1.puuid.clone(), placement: e.1.placement };
    let league = match &e.2 {
        Option::Some(l) => Option::Some(*l),
        Option::None => Option::None,
    };
    (player, participant, league)
}

/// Collects the placement bucket for `result`.
pub fn bucket_of(entries: &Vec<Entry>, result: u32, is_double: bool) -> (r: Vec<Entry>)
    ensures
        r@ == placement_bucket(entries@, result as int, is_double),
{
    let mut r: Vec<Entry> = Vec::new();
    let mut i: usize = 0;
    while i < entries.len()
        invariant
            i <= entries@.len(),
            r@ == placement_bucket(entries@.subrange(0, i as int), result as int, is_double),
        decreases entries@.len() - i,
    {
        proof {
            assert(entries@.subrange(0, (i + 1) as int).drop_last() =~= entries@.subrange(
                0,
                i as int,
            ));
        }
        let e = &entries[i];
        let bucket: u64 = if is_double {
            ((e.1.placement as u64) + 1) / 2
        } else {
            e.1.placement as u64
        };
        if bucket == result as u64 {
            r.push(copy_entry(e));
        }
        proof {
            assert(r@ =~= placement_bucket(
                entries@.subrange(0, (i + 1) as int),
                result as int,
                is_double,
            ));
        }
        i = i + 1;
    }
    proof {
        assert(entries@.subrange(0, entries@.len() as int) =~= entries@);
    }
    r
}

/// The messages owed to one placement bucket: none for an empty bucket, the
/// single variant for a lone participant, the duo variant for a pair, and
/// nothing (suppression) for a larger bucket.
pub open spec fn messages_for_bucket(
    game: Game,
    platform: Platform,
    entries: Seq<Entry>,
    result: int,
    m: Message,
    is_double: bool,
) -> Seq<Seq<char>> {
    let b = placement_bucket(entries, result, is_double);
    let threshold: int = if is_double {
        2
    } else {
        4
    };
    if b.len() == 1 {
        seq![single_text(game, platform, result, b[0], m.single, threshold)]
    } else if b.len() == 2 {
        seq![duo_text(game, platform, result, b[0], b[1], m.duo, threshold)]
    } else {
        Seq::<Seq<char>>::empty()
    }
}

/// The messages owed to the buckets 1 through `r`, in bucket order.
pub open spec fn messages_up_to(
    game: Game,
    platform: Platform,
    entries: Seq<Entry>,
    m: Message,
    is_double: bool,
    r: int,
) -> Seq<Seq<char>>
    decreases r,
{
    if r <= 0 {
        Seq::<Seq<char>>::empty()
    } else {
        messages_up_to(game, platform, entries, m, is_double, r - 1) + messages_for_bucket(
            game,
            platform,
            entries,
            r,
            m,
            is_double,
        )
    }
}

/// All messages owed to a game and its tracked participants: one bucket
/// after the other, buckets running 1 through 8, or 1 through 4 under the
/// double-up variant.
pub open spec fn spec_generate_messages(
    game: Game,
    platform: Platform,
    entries: Seq<Entry>,
    m: Message,
) -> Seq<Seq<char>> {
    let is_double = is_double_queue(game);
    messages_up_to(game, platform, entries, m, is_double, if is_double {
        4
    } else {
        8
    })
}

/// Composes every message owed to a game, given the tracked participants
/// visible to one channel.
pub fn generate_messages(
    game: &Game,
    platform: &Platform,
    players_participants_leagues: &Vec<Entry>,
    message: &Message,
) -> (r: Vec<String>)
    ensures
        r@.map_values(|s: String| s@) == spec_generate_messages(
            *game,
            *platform,
            players_participants_leagues@,
            *message,
        ),
{
    let is_double = game.queue_id == QUEUE_RANKED_TFT_DOUBLE_UP as i32;
    let count: u32 = if is_double {
        4
    } else {
        8
    };
    let threshold: u32 = if is_double {
        2
    } else {
        4
    };
    let mut out: Vec<String> = Vec::new();
    let mut result: u32 = 1;
    while result <= count
        invariant
            1 <= result <= count + 1,
            count == (if is_double { 4u32 } else { 8u32 }),
            threshold == (if is_double { 2u32 } else { 4u32 }),
            is_double == is_double_queue(*game),
            out@.map_values(|s: String| s@) == messages_up_to(
                *game,
                *platform,
                players_participants_leagues@,
                *message,
                is_double,
                result - 1,
            ),
        decreases count + 1 - result,
    {
        let bucket = bucket_of(players_participants_leagues, result, is_double);
        if bucket.len() == 1 {
            out.push(
                generate_message_single(
                    game,
                    platform,
                    result,
                    &bucket[0],
                    &message.single,
                    threshold,
                ),
            );
        } else if bucket.len() == 2 {
            let text = generate_message_duo(
                game,
                platform,
                result,
                &bucket[0],
                &bucket[1],
                &message.duo,
                threshold,
            );
            out.push(text);
        }
        proof {
            assert(out@.map_values(|s: String| s@) =~= messages_up_to(
                *game,
                *platform,
                players_participants_leagues@,
                *message,
                is_double,
                result as int,
            ));
        }
        result = result + 1;
    }
    proof {
        assert(out@.map_values(|s: String| s@) =~= spec_generate_messages(
            *game,
            *platform,
            players_participants_leagues@,
            *message,
        ));
    }
    out
}


/// The buckets, among 1 through `r`, that the composer suppresses for being
/// oversized (more than two tracked participants sharing the bucket), in
/// bucket order.
pub open spec fn spec_suppressed_up_to(entries: Seq<Entry>, is_double: bool, r: int) -> Seq<int>
    decreases r,
{
    if r <= 0 {
        Seq::<int>::empty()
    } else {
        spec_suppressed_up_to(entries, is_double, r - 1) + if placement_bucket(
            entries,
            r,
            is_double,
        ).len() > 2 {
            seq![r]
        } else {
            Seq::<int>::empty()
        }
    }
}

/// The buckets that `generate_messages` suppresses for a game and its
/// tracked participants.
pub open spec fn spec_suppressed_buckets(game: Game, entries: Seq<Entry>) -> Seq<int> {
    let is_double = is_double_queue(game);
    spec_suppressed_up_to(entries, is_double, if is_double {
        4
    } else {
        8
    })
}

/// Reports the buckets that `generate_messages` suppresses for being
/// oversized. Suppression is meant to be warned about, not silent: the
/// caller that performs logging reads this.
pub fn suppressed_buckets(game: &Game, players_participants_leagues: &Vec<Entry>) -> (r: Vec<u32>)
    ensures
        r@.map_values(|b: u32| b as int) == spec_suppressed_buckets(
            *game,
            players_participants_leagues@,
        ),
{
    let is_double = game.queue_id == QUEUE_RANKED_TFT_DOUBLE_UP as i32;
    let count: u32 = if is_double {
        4
    } else {
        8
    };
    let mut r: Vec<u32> = Vec::new();
    proof {
        assert(r@.map_values(|b: u32| b as int) =~= spec_suppressed_up_to(
            players_participants_leagues@,
            is_double,
            0,
        ));
    }
    let mut result: u32 = 1;
    while result <= count
        invariant
            1 <= result <= count + 1,
            count == (if is_double { 4u32 } else { 8u32 }),
            is_double == is_double_queue(*game),
            r@.map_values(|b: u32| b as int) == spec_suppressed_up_to(
                players_participants_leagues@,
                is_double,
                result - 1,
            ),
        decreases count + 1 - result,
    {
        let bucket = bucket_of(players_participants_leagues, result, is_double);
        if bucket.len() > 2 {
            r.push(result);
        }
        proof {
            assert(r@.map_values(|b: u32| b as int) =~= spec_suppressed_up_to(
                players_participants_leagues@,
                is_double,
                result as int,
            ));
        }
        result = result + 1;
    }
    r
}

} // verus!
