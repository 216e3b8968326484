use vstd::prelude::*;
use vstd::string::StringExecFns;

use crate::queues::{QUEUE_CUSTOM, QUEUE_RANKED_FLEX, QUEUE_RANKED_SOLO};
use crate::ranks::{rank_label, tier_label, Rank, Tier};
use crate::roster::{Platform, Player};
use crate::text::{
    dec_int_of, dec_of, i64_to_string, percent_label, replace_str, spec_replace, tenths_to_string,
    u64_to_string,
};

verus! {

/// One participant of a game, with the statistics notification text speaks of.
pub struct Participant {
    pub puuid: String,
    pub win: bool,
    pub champion_name: String,
    pub kills: u32,
    pub deaths: u32,
    pub assists: u32,
    pub damage: u32,
}

impl Participant {
    /// A copy of this participant, field for field.
    pub fn duplicate(&self) -> (r: Participant)
        ensures
            r == *self,
    {
        Participant {
            puuid: self.puuid.clone(),
            win: self.win,
            champion_name: self.champion_name.clone(),
            kills: self.kills,
            deaths: self.deaths,
            assists: self.assists,
            damage: self.damage,
        }
    }
}

/// The mode a game was played in: the classic mode, whose label depends on
/// the queue, or any other mode under its raw name.
pub enum GameMode {
    Classic,
    Other(String),
}

/// A fetched game: its identity, queue, mode, timing and participants.
pub struct Game {
    pub match_id: String,
    pub queue_id: u16,
    pub game_mode: GameMode,
    pub duration_secs: u64,
    pub start_millis: i64,
    pub participants: Vec<Participant>,
}

/// A player's league entry for one ranked queue.
#[derive(Clone, Copy)]
pub struct League {
    pub queue_type: crate::queues::QueueType,
    pub tier: Option<Tier>,
    pub rank: Option<Rank>,
    pub points: i32,
}

/// The message templates for one outcome-bucket cardinality.
pub struct MessageTemplate {
    pub win_single: String,
    pub win_single_ranked: String,
    pub win_multiple: String,
    pub loss_single: String,
    pub loss_single_ranked: String,
    pub loss_multiple: String,
}

/// The configured message templates: one set for a lone tracked participant,
/// one for several sharing an outcome.
pub struct Message {
    pub single: MessageTemplate,
    pub multiple: MessageTemplate,
}

/// A tracked participant as the composer sees it: the tracked player, the
/// participant row of the game, and the league entry matching the game's
/// queue, if any.
pub type Entry = (Player, Participant, Option<League>);

/// The mode label substituted for `{mode}`: explicit labels for the
/// ranked-solo, ranked-flex and custom queues of the classic mode; every
/// other (mode, queue) pair defaults to the raw mode name.
pub open spec fn mode_label(game: Game) -> Seq<char> {
    match game.game_mode {
        GameMode::Classic => {
            if game.queue_id == QUEUE_RANKED_SOLO {
                "RANKED"@
            } else if game.queue_id == QUEUE_RANKED_FLEX {
                "RANKED FLEX"@
            } else if game.queue_id == QUEUE_CUSTOM {
                "CUSTOM"@
            } else {
                "CLASSIC"@
            }
        },
        GameMode::Other(name) => name@,
    }
}

/// The text of `template` after the substitutions shared by every message
/// variant: mode label, duration in whole minutes, region label.
pub open spec fn common_text(game: Game, platform: Platform, template: Seq<char>) -> Seq<char> {
    let with_mode = spec_replace(template, "{mode}"@, mode_label(game));
    let with_duration = spec_replace(
        with_mode,
        "{game_duration_min}"@,
        dec_of((game.duration_secs / 60) as nat),
    );
    spec_replace(with_duration, "{region}"@, platform.region@)
}

/// The mode label of `game`.
pub fn get_queue_or_mode_string(game: &Game) -> (r: String)
    ensures
        r@ == mode_label(*game),
{
    match &game.game_mode {
        GameMode::Classic => {
            if game.queue_id == QUEUE_RANKED_SOLO {
                String::from_str("RANKED")
            } else if game.queue_id == QUEUE_RANKED_FLEX {
                String::from_str("RANKED FLEX")
            } else if game.queue_id == QUEUE_CUSTOM {
                String::from_str("CUSTOM")
            } else {
                String::from_str("CLASSIC")
            }
        },
        GameMode::Other(name) => name.clone(),
    }
}

/// Performs the substitutions shared by every message variant.
pub fn substitute_common(game: &Game, platform: &Platform, _result: bool, message: &str) -> (r:
    String)
    ensures
        r@ == common_text(*game, *platform, message@),
{
    proof {
        reveal_strlit("{mode}");
        reveal_strlit("{game_duration_min}");
        reveal_strlit("{region}");
    }
    let mode = get_queue_or_mode_string(game);
    let with_mode = replace_str(message, "{mode}", mode.as_str());
    let minutes = u64_to_string(game.duration_secs / 60);
    let with_duration = replace_str(with_mode.as_str(), "{game_duration_min}", minutes.as_str());
    replace_str(with_duration.as_str(), "{region}", platform.region.as_str())
}

/// The damage dealt to champions, summed over the participants of the game
/// that share the outcome `win`.
pub open spec fn team_damage(parts: Seq<Participant>, win: bool) -> int
    decreases parts.len(),
{
    if parts.len() == 0 {
        0
    } else {
        team_damage(parts.drop_last(), win) + if parts.last().win == win {
            parts.last().damage as int
        } else {
            0
        }
    }
}

/// The participant's share of its side's total damage, in tenths of a percent
/// rounded to the nearest tenth; a side with no damage at all counts as one
/// point of damage.
pub open spec fn damage_tenths(game: Game, result: bool, p: Participant) -> int {
    let total = team_damage(game.participants@, result);
    let denom = if total < 1 {
        1
    } else {
        total
    };
    (1000 * (p.damage as int) + denom / 2) / denom
}

/// The percentage of its side's total damage that this participant dealt,
/// formatted with one decimal digit.
pub fn get_damage_percentage(game: &Game, result: bool, participant: &Participant) -> (r: String)
    ensures
        r@ == percent_label(damage_tenths(*game, result, *participant)),
{
    let parts = &game.participants;
    let mut sum: u128 = 0;
    let mut i: usize = 0;
    while i < parts.len()
        invariant
            i <= parts.len(),
            sum as int == team_damage(parts@.subrange(0, i as int), result),
            sum as int <= (i as int) * 0xFFFF_FFFF,
        decreases parts.len() - i,
    {
        proof {
            assert(parts@.subrange(0, (i + 1) as int).drop_last() =~= parts@.subrange(
                0,
                i as int,
            ));
        }
        let p = &parts[i];
        if p.win == result {
            sum = sum + (p.damage as u128);
        }
        i = i + 1;
    }
    proof {
        assert(parts@.subrange(0, parts@.len() as int) =~= parts@);
    }
    let total: u128 = if sum < 1 {
        1
    } else {
        sum
    };
    let num: u128 = 1000u128 * (participant.damage as u128) + total / 2;
    let tenths_wide: u128 = num / total;
    proof {
        let n = 1000 * (participant.damage as int);
        let s = total as int;
        let q = (n + s / 2) / s;
        vstd::arithmetic::div_mod::lemma_fundamental_div_mod(n + s / 2, s);
        vstd::arithmetic::div_mod::lemma_mod_bound(n + s / 2, s);
        if q > n {
            assert(s * q >= s * (n + 1)) by (nonlinear_arith)
                requires
                    s >= 1,
                    q >= n + 1,
            ;
            assert(s * (n + 1) >= n + s) by (nonlinear_arith)
                requires
                    s >= 1,
                    n >= 0,
            ;
            assert(false);
        }
    }
    let tenths: u64 = tenths_wide as u64;
    tenths_to_string(tenths)
}

/// Whether a league entry is at hand, which selects the ranked variant of a
/// template.
pub open spec fn has_league(l: Option<League>) -> bool {
    l is Some
}

/// The tier shown for a league entry: its tier, or the unranked sentinel.
pub open spec fn shown_tier(l: Option<League>) -> Tier {
    match l {
        Option::Some(league) => match league.tier {
            Option::Some(t) => t,
            Option::None => Tier::Unranked,
        },
        Option::None => Tier::Unranked,
    }
}

/// The rank label shown for a league entry: its rank's label, or nothing.
pub open spec fn shown_rank(l: Option<League>) -> Seq<char> {
    match l {
        Option::Some(league) => match league.rank {
            Option::Some(r) => rank_label(r),
            Option::None => Seq::<char>::empty(),
        },
        Option::None => Seq::<char>::empty(),
    }
}

/// The league points shown for a league entry: its points, or the sentinel -1.
pub open spec fn shown_points(l: Option<League>) -> int {
    match l {
        Option::Some(league) => league.points as int,
        Option::None => -1,
    }
}

/// The template for a lone tracked participant, selected by outcome and by
/// whether a league entry is at hand.
pub open spec fn single_template(result: bool, ranked: bool, t: MessageTemplate) -> Seq<char> {
    if result {
        if ranked {
            t.win_single_ranked@
        } else {
            t.win_single@
        }
    } else {
        if ranked {
            t.loss_single_ranked@
        } else {
            t.loss_single@
        }
    }
}

/// The fully substituted text of a single-participant message.
pub open spec fn single_text(
    game: Game,
    platform: Platform,
    result: bool,
    e: Entry,
    t: MessageTemplate,
) -> Seq<char> {
    let s0 = common_text(game, platform, single_template(result, has_league(e.2), t));
    let s1 = spec_replace(s0, "{sumoner_name}"@, e.0.name@);
    let s2 = spec_replace(s1, "{champion}"@, e.1.champion_name@);
    let s3 = spec_replace(s2, "{kills}"@, dec_of(e.1.kills as nat));
    let s4 = spec_replace(s3, "{deaths}"@, dec_of(e.1.deaths as nat));
    let s5 = spec_replace(s4, "{assists}"@, dec_of(e.1.assists as nat));
    let s6 = spec_replace(s5, "{damage}"@, dec_of(e.1.damage as nat));
    let s7 = spec_replace(s6, "{damage_percentage}"@, percent_label(damage_tenths(game, result, e.1)));
    let s8 = spec_replace(s7, "{tier}"@, tier_label(shown_tier(e.2)));
    let s9 = spec_replace(s8, "{rank}"@, shown_rank(e.2));
    spec_replace(s9, "{lp}"@, dec_int_of(shown_points(e.2)))
}

/// Composes the message for a lone tracked participant with outcome `result`.
pub fn generate_message_single(
    game: &Game,
    platform: &Platform,
    result: bool,
    player_participant_league: &Entry,
    message_template: &MessageTemplate,
) -> (r: String)
    ensures
        r@ == single_text(*game, *platform, result, *player_participant_league, *message_template),
{
    proof {
        reveal_strlit("{sumoner_name}");
        reveal_strlit("{champion}");
        reveal_strlit("{kills}");
        reveal_strlit("{deaths}");
        reveal_strlit("{assists}");
        reveal_strlit("{damage}");
        reveal_strlit("{damage_percentage}");
        reveal_strlit("{tier}");
        reveal_strlit("{rank}");
        reveal_strlit("{lp}");
    }
    let template: &String = match (result, &player_participant_league.2) {
        (true, Option::None) => &message_template.win_single,
        (true, Option::Some(_)) => &message_template.win_single_ranked,
        (false, Option::None) => &message_template.loss_single,
        (false, Option::Some(_)) => &message_template.loss_single_ranked,
    };
    let s0 = substitute_common(game, platform, result, template.as_str());
    let s1 = replace_str(s0.as_str(), "{sumoner_name}", player_participant_league.0.name.as_str());
    let s2 = replace_str(
        s1.as_str(),
        "{champion}",
        player_participant_league.1.champion_name.as_str(),
    );
    let kills = u64_to_string(player_participant_league.1.kills as u64);
    let s3 = replace_str(s2.as_str(), "{kills}", kills.as_str());
    let deaths = u64_to_string(player_participant_league.1.deaths as u64);
    let s4 = replace_str(s3.as_str(), "{deaths}", deaths.as_str());
    let assists = u64_to_string(player_participant_league.1.assists as u64);
    let s5 = replace_str(s4.as_str(), "{assists}", assists.as_str());
    let damage = u64_to_string(player_participant_league.1.damage as u64);
    let s6 = replace_str(s5.as_str(), "{damage}", damage.as_str());
    let percentage = get_damage_percentage(game, result, &player_participant_league.1);
    let s7 = replace_str(s6.as_str(), "{damage_percentage}", percentage.as_str());
    let tier = match &player_participant_league.2 {
        Option::Some(league) => match league.tier {
            Option::Some(t) => t,
            Option::None => Tier::Unranked,
        },
        Option::None => Tier::Unranked,
    };
    let tier_text = tier.label();
    let s8 = replace_str(s7.as_str(), "{tier}", tier_text.as_str());
    let rank_text = match &player_participant_league.2 {
        Option::Some(league) => match league.rank {
            Option::Some(r) => r.label(),
            Option::None => String::new(),
        },
        Option::None => String::new(),
    };
    let s9 = replace_str(s8.as_str(), "{rank}", rank_text.as_str());
    let points: i64 = match &player_participant_league.2 {
        Option::Some(league) => league.points as i64,
        Option::None => -1,
    };
    let points_text = i64_to_string(points);
    replace_str(s9.as_str(), "{lp}", points_text.as_str())
}

/// The sub-sequence of entries whose participant has outcome `result`, in
/// their original order: one outcome bucket.
pub open spec fn win_bucket(entries: Seq<Entry>, result: bool) -> Seq<Entry>
    decreases entries.len(),
{
    if entries.len() == 0 {
        Seq::<Entry>::empty()
    } else {
        win_bucket(entries.drop_last(), result) + if entries.last().1.win == result {
            seq![entries.last()]
        } else {
            Seq::<Entry>::empty()
        }
    }
}

/// A copy of an entry, field for field.
pub fn copy_entry(e: &Entry) -> (r: Entry)
    ensures
        r == *e,
{
    let player = e.0.duplicate();
    let participant = Participant {
        puuid: e.1.puuid.clone(),
        win: e.1.win,
        champion_name: e.1.champion_name.clone(),
        kills: e.1.kills,
        deaths: e.1.deaths,
        assists: e.1.assists,
        damage: e.1.damage,
    };
    let league = match &e.2 {
        Option::Some(l) => Option::Some(*l),
        Option::None => Option::None,
    };
    (player, participant, league)
}

/// Collects the outcome bucket for `result`.
pub fn bucket_of(entries: &Vec<Entry>, result: bool) -> (r: Vec<Entry>)
    ensures
        r@ == win_bucket(entries@, result),
{
    let mut r: Vec<Entry> = Vec::new();
    let mut i: usize = 0;
    while i < entries.len()
        invariant
            i <= entries@.len(),
            r@ == win_bucket(entries@.subrange(0, i as int), result),
        decreases entries@.len() - i,
    {
        proof {
            assert(entries@.subrange(0, (i + 1) as int).drop_last() =~= entries@.subrange(
                0,
                i as int,
            ));
        }
        let e = &entries[i];
        if e.1.win == result {
            r.push(copy_entry(e));
        }
        proof {
            assert(r@ =~= win_bucket(entries@.subrange(0, (i + 1) as int), result));
        }
        i = i + 1;
    }
    proof {
        assert(entries@.subrange(0, entries@.len() as int) =~= entries@);
    }
    r
}

/// The names of a bucket's players, joined by the escaped ampersand.
pub open spec fn joined_names(b: Seq<Entry>) -> Seq<char>
    decreases b.len(),
{
    if b.len() == 0 {
        Seq::<char>::empty()
    } else if b.len() == 1 {
        b[0].0.name@
    } else {
        joined_names(b.drop_last()) + " &amp; "@ + b.last().0.name@
    }
}

/// The single-participant texts of a bucket's entries, concatenated in order.
pub open spec fn singles_text(
    game: Game,
    platform: Platform,
    result: bool,
    b: Seq<Entry>,
    t: MessageTemplate,
) -> Seq<char>
    decreases b.len(),
{
    if b.len() == 0 {
        Seq::<char>::empty()
    } else {
        singles_text(game, platform, result, b.drop_last(), t) + single_text(
            game,
            platform,
            result,
            b.last(),
            t,
        )
    }
}

/// The template for several tracked participants sharing an outcome.
pub open spec fn multiple_template(result: bool, t: MessageTemplate) -> Seq<char> {
    if result {
        t.win_multiple@
    } else {
        t.loss_multiple@
    }
}

/// The fully substituted text of a message about a whole outcome bucket.
pub open spec fn multiple_text(
    game: Game,
    platform: Platform,
    result: bool,
    b: Seq<Entry>,
    t: MessageTemplate,
) -> Seq<char> {
    let s0 = common_text(game, platform, multiple_template(result, t));
    let s1 = spec_replace(s0, "{sumoner_names}"@, joined_names(b));
    spec_replace(s1, "{singles}"@, singles_text(game, platform, result, b, t))
}

/// Composes the message for a whole outcome bucket of two or more tracked
/// participants.
pub fn generate_message_multiple(
    game: &Game,
    platform: &Platform,
    result: bool,
    players_participants_leagues: &Vec<Entry>,
    message_template: &MessageTemplate,
) -> (r: String)
    requires
        players_participants_leagues@.len() >= 1,
    ensures
        r@ == multiple_text(
            *game,
            *platform,
            result,
            players_participants_leagues@,
            *message_template,
        ),
{
    proof {
        reveal_strlit("{sumoner_names}");
        reveal_strlit("{singles}");
    }
    let b = players_participants_leagues;
    proof {
        assert(b@.subrange(0, 1).drop_last() =~= Seq::<Entry>::empty());
        assert(b@.subrange(0, 1).last() == b@[0]);
    }
    let first = &b[0];
    let mut names: String = first.0.name.clone();
    let mut singles: String = generate_message_single(
        game,
        platform,
        result,
        first,
        message_template,
    );
    proof {
        assert(singles_text(*game, *platform, result, Seq::<Entry>::empty(), *message_template)
            =~= Seq::<char>::empty());
        assert(singles@ =~= singles_text(
            *game,
            *platform,
            result,
            b@.subrange(0, 1),
            *message_template,
        ));
    }
    let mut i: usize = 1;
    while i < b.len()
        invariant
            1 <= i <= b@.len(),
            names@ == joined_names(b@.subrange(0, i as int)),
            singles@ == singles_text(
                *game,
                *platform,
                result,
                b@.subrange(0, i as int),
                *message_template,
            ),
        decreases b@.len() - i,
    {
        proof {
            assert(b@.subrange(0, (i + 1) as int).drop_last() =~= b@.subrange(0, i as int));
            assert(b@.subrange(0, (i + 1) as int).last() == b@[i as int]);
        }
        let e = &b[i];
        names.append(" &amp; ");
        names.append(e.0.name.as_str());
        let s = generate_message_single(game, platform, result, e, message_template);
        singles.append(s.as_str());
        i = i + 1;
    }
    proof {
        assert(b@.subrange(0, b@.len() as int) =~= b@);
    }
    let template: &String = if result {
        &message_template.win_multiple
    } else {
        &message_template.loss_multiple
    };
    let s0 = substitute_common(game, platform, result, template.as_str());
    let s1 = replace_str(s0.as_str(), "{sumoner_names}", names.as_str());
    replace_str(s1.as_str(), "{singles}", singles.as_str())
}

/// The messages owed to one outcome bucket: none for an empty bucket, the
/// single variant for a lone participant, the multiple variant for two to
/// five, and nothing (suppression) for a larger bucket.
pub open spec fn messages_for_result(
    game: Game,
    platform: Platform,
    result: bool,
    entries: Seq<Entry>,
    m: Message,
) -> Seq<Seq<char>> {
    let b = win_bucket(entries, result);
    if b.len() == 1 {
        seq![single_text(game, platform, result, b[0], m.single)]
    } else if 2 <= b.len() && b.len() <= 5 {
        seq![multiple_text(game, platform, result, b, m.multiple)]
    } else {
        Seq::<Seq<char>>::empty()
    }
}

/// All messages owed to a game and its tracked participants: those of the
/// loss bucket, then those of the win bucket.
pub open spec fn spec_generate_messages(
    game: Game,
    platform: Platform,
    entries: Seq<Entry>,
    m: Message,
) -> Seq<Seq<char>> {
    messages_for_result(game, platform, false, entries, m) + messages_for_result(
        game,
        platform,
        true,
        entries,
        m,
    )
}

/// Composes every message owed to a game, given the tracked participants
/// visible to one channel.
pub fn generate_messages(
    game: &Game,
    platform: &Platform,
    players_participants_leagues: &Vec<Entry>,
    message: &Message,
) -> (r: Vec<String>)
    ensures
        r@.map_values(|s: String| s@) == spec_generate_messages(
            *game,
            *platform,
            players_participants_leagues@,
            *message,
        ),
{
    let mut out: Vec<String> = Vec::new();
    let bucket_loss = bucket_of(players_participants_leagues, false);
    if bucket_loss.len() == 1 {
        out.push(
            generate_message_single(game, platform, false, &bucket_loss[0], &message.single),
        );
    } else if bucket_loss.len() >= 2 && bucket_loss.len() <= 5 {
        out.push(
            generate_message_multiple(game, platform, false, &bucket_loss, &message.multiple),
        );
    }
    let bucket_win = bucket_of(players_participants_leagues, true);
    if bucket_win.len() == 1 {
        out.push(generate_message_single(game, platform, true, &bucket_win[0], &message.single));
    } else if bucket_win.len() >= 2 && bucket_win.len() <= 5 {
        out.push(generate_message_multiple(game, platform, true, &bucket_win, &message.multiple));
    }
    proof {
        assert(out@.map_values(|s: String| s@) =~= spec_generate_messages(
            *game,
            *platform,
            players_participants_leagues@,
            *message,
        ));
    }
    out
}


/// The outcomes whose bucket the composer suppresses for being oversized
/// (more than five tracked participants sharing the outcome), in the order
/// the buckets are composed. Suppression is meant to be warned about, not
/// silent: the caller that performs logging reads this.
pub open spec fn spec_suppressed_outcomes(entries: Seq<Entry>) -> Seq<bool> {
    (if win_bucket(entries, false).len() > 5 {
        seq![false]
    } else {
        Seq::<bool>::empty()
    }) + (if win_bucket(entries, true).len() > 5 {
        seq![true]
    } else {
        Seq::<bool>::empty()
    })
}

/// Reports the outcomes whose bucket `generate_messages` suppresses for
/// being oversized.
pub fn suppressed_outcomes(players_participants_leagues: &Vec<Entry>) -> (r: Vec<bool>)
    ensures
        r@ == spec_suppressed_outcomes(players_participants_leagues@),
{
    let mut r: Vec<bool> = Vec::new();
    let bucket_loss = bucket_of(players_participants_leagues, false);
    if bucket_loss.len() > 5 {
        r.push(false);
    }
    let bucket_win = bucket_of(players_participants_leagues, true);
    if bucket_win.len() > 5 {
        r.push(true);
    }
    proof {
        assert(r@ =~= spec_suppressed_outcomes(players_participants_leagues@));
    }
    r
}

} // verus!
