use vstd::prelude::*;

use crate::lol::{
    generate_messages, spec_generate_messages, Entry, Game, League, Message, Participant,
};
use crate::queues::same_queue;
use crate::roster::{
    copy_chats, find_in_roster, first_match, lemma_first_match_valid, Platform, Player,
    RosterEntry,
};
use crate::store::{MatchKey, MatchRecord};

verus! {

/// A tracked participant of the game in hand, still awaiting its ranking
/// snapshot, together with the channels it is visible to.
pub type Pending = (Player, Participant, Vec<i64>);

/// A tracked participant enriched with its ranking snapshot, together with
/// the channels it is visible to.
pub type Enriched = (Player, Participant, Option<League>, Vec<i64>);

/// What a pending participant amounts to: the channel list taken as a
/// sequence.
pub open spec fn pending_view(p: Pending) -> (Player, Participant, Seq<i64>) {
    (p.0, p.1, p.2@)
}

/// The tracked participants of a game, in game order: each participant whose
/// identity the roster knows, joined — by identity alone — to the first
/// roster entry carrying it.
pub open spec fn spec_tracked(parts: Seq<Participant>, roster: Seq<RosterEntry>) -> Seq<
    (Player, Participant, Seq<i64>),
>
    decreases parts.len(),
{
    if parts.len() == 0 {
        Seq::<(Player, Participant, Seq<i64>)>::empty()
    } else {
        spec_tracked(parts.drop_last(), roster) + match first_match(
            roster,
            parts.last().puuid@,
        ) {
            Option::Some(i) => seq![(roster[i].player, parts.last(), roster[i].chats@)],
            Option::None => Seq::<(Player, Participant, Seq<i64>)>::empty(),
        }
    }
}

/// Intersects a game's participants with the tracked roster, joining by
/// identity.
pub fn find_tracked(parts: &Vec<Participant>, roster: &Vec<RosterEntry>) -> (r: Vec<Pending>)
    ensures
        r@.map_values(|p: Pending| pending_view(p)) == spec_tracked(parts@, roster@),
{
    let mut r: Vec<Pending> = Vec::new();
    proof {
        assert(r@.map_values(|p: Pending| pending_view(p)) =~= spec_tracked(
            parts@.subrange(0, 0),
            roster@,
        ));
    }
    let mut i: usize = 0;
    while i < parts.len()
        invariant
            i <= parts@.len(),
            r@.map_values(|p: Pending| pending_view(p)) == spec_tracked(
                parts@.subrange(0, i as int),
                roster@,
            ),
        decreases parts@.len() - i,
    {
        proof {
            assert(parts@.subrange(0, (i + 1) as int).drop_last() =~= parts@.subrange(0, i as int));
            assert(parts@.subrange(0, (i + 1) as int).last() == parts@[i as int]);
            lemma_first_match_valid(roster@, parts@[i as int].puuid@);
        }
        let p = &parts[i];
        match find_in_roster(roster, &p.puuid) {
            Option::Some(j) => {
                let entry = &roster[j];
                r.push((entry.player.duplicate(), p.duplicate(), copy_chats(&entry.chats)));
            },
            Option::None => {},
        }
        proof {
            assert(r@.map_values(|p: Pending| pending_view(p)) =~= spec_tracked(
                parts@.subrange(0, (i + 1) as int),
                roster@,
            ));
        }
        i = i + 1;
    }
    proof {
        assert(parts@.subrange(0, parts@.len() as int) =~= parts@);
    }
    r
}

/// The first league entry whose queue type is equivalent to the game's
/// queue, if any.
pub open spec fn spec_select_league(leagues: Seq<League>, queue: u16) -> Option<League>
    decreases leagues.len(),
{
    if leagues.len() == 0 {
        Option::None
    } else if same_queue(leagues[0].queue_type, queue) {
        Option::Some(leagues[0])
    } else {
        spec_select_league(leagues.drop_first(), queue)
    }
}

/// Selects the league entry matching the game's queue.
pub fn select_league(leagues: &Vec<League>, queue: u16) -> (r: Option<League>)
    ensures
        r == spec_select_league(leagues@, queue),
{
    proof {
        assert(leagues@.skip(0) =~= leagues@);
    }
    let mut j: usize = 0;
    while j < leagues.len()
        invariant
            j <= leagues@.len(),
            spec_select_league(leagues@, queue) == spec_select_league(
                leagues@.skip(j as int),
                queue,
            ),
        decreases leagues@.len() - j,
    {
        proof {
            assert(leagues@.skip(j as int)[0] == leagues@[j as int]);
            assert(leagues@.skip(j as int).drop_first() =~= leagues@.skip((j + 1) as int));
        }
        let candidate = &leagues[j];
        if crate::queues::are_same_queue(&candidate.queue_type, queue) {
            return Option::Some(*candidate);
        }
        j = j + 1;
    }
    proof {
        assert(leagues@.skip(leagues@.len() as int) =~= Seq::<League>::empty());
    }
    Option::None
}

/// Whether a channel list contains `chat`.
pub fn chat_contains(chats: &Vec<i64>, chat: i64) -> (r: bool)
    ensures
        r == chats@.contains(chat),
{
    let mut j: usize = 0;
    while j < chats.len()
        invariant
            j <= chats@.len(),
            forall|k: int| 0 <= k < j ==> chats@[k] != chat,
        decreases chats@.len() - j,
    {
        if chats[j] == chat {
            return true;
        }
        j = j + 1;
    }
    proof {
        if chats@.contains(chat) {
            let k = choose|k: int| 0 <= k < chats@.len() && chats@[k] == chat;
            assert(false);
        }
    }
    false
}

/// The composer's view of an enriched participant: its channel list
/// stripped.
pub open spec fn entry_of(e: Enriched) -> Entry {
    (e.0, e.1, e.2)
}

/// The enriched participants visible to one channel, as composer entries,
/// in order.
pub open spec fn spec_visible(done: Seq<Enriched>, chat: i64) -> Seq<Entry>
    decreases done.len(),
{
    if done.len() == 0 {
        Seq::<Entry>::empty()
    } else {
        spec_visible(done.drop_last(), chat) + if done.last().3@.contains(chat) {
            seq![entry_of(done.last())]
        } else {
            Seq::<Entry>::empty()
        }
    }
}

/// Collects the participants visible to `chat`.
pub fn visible_entries(done: &Vec<Enriched>, chat: i64) -> (r: Vec<Entry>)
    ensures
        r@ == spec_visible(done@, chat),
{
    let mut r: Vec<Entry> = Vec::new();
    let mut i: usize = 0;
    while i < done.len()
        invariant
            i <= done@.len(),
            r@ == spec_visible(done@.subrange(0, i as int), chat),
        decreases done@.len() - i,
    {
        proof {
            assert(done@.subrange(0, (i + 1) as int).drop_last() =~= done@.subrange(0, i as int));
        }
        let e = &done[i];
        if chat_contains(&e.3, chat) {
            r.push((e.0.duplicate(), e.1.duplicate(), e.2));
        }
        proof {
            assert(r@ =~= spec_visible(done@.subrange(0, (i + 1) as int), chat));
        }
        i = i + 1;
    }
    proof {
        assert(done@.subrange(0, done@.len() as int) =~= done@);
    }
    r
}

/// The composer entries of the enriched participants, in order: what the
/// persisted record's rows are built from.
pub open spec fn spec_entries(done: Seq<Enriched>) -> Seq<Entry> {
    done.map_values(|e: Enriched| entry_of(e))
}

/// Strips the channel lists off the enriched participants.
pub fn entries_of(done: &Vec<Enriched>) -> (r: Vec<Entry>)
    ensures
        r@ == spec_entries(done@),
{
    let mut r: Vec<Entry> = Vec::new();
    let mut i: usize = 0;
    while i < done.len()
        invariant
            i <= done@.len(),
            r@ == spec_entries(done@.subrange(0, i as int)),
        decreases done@.len() - i,
    {
        let e = &done[i];
        r.push((e.0.duplicate(), e.1.duplicate(), e.2));
        proof {
            assert(r@ =~= spec_entries(done@.subrange(0, (i + 1) as int)));
        }
        i = i + 1;
    }
    proof {
        assert(done@.subrange(0, done@.len() as int) =~= done@);
    }
    r
}

/// The texts owed to one channel, each tagged with that channel.
pub open spec fn tag_chat(chat: i64, texts: Seq<Seq<char>>) -> Seq<(i64, Seq<char>)> {
    texts.map_values(|t: Seq<char>| (chat, t))
}

/// The per-subscriber fan-out: for each channel, in order, the messages the
/// composer owes it for the participants it can see.
pub open spec fn spec_fanout(
    chats: Seq<i64>,
    done: Seq<Enriched>,
    game: Game,
    platform: Platform,
    cfg: Message,
) -> Seq<(i64, Seq<char>)>
    decreases chats.len(),
{
    if chats.len() == 0 {
        Seq::<(i64, Seq<char>)>::empty()
    } else {
        spec_fanout(chats.drop_last(), done, game, platform, cfg) + tag_chat(
            chats.last(),
            spec_generate_messages(game, platform, spec_visible(done, chats.last()), cfg),
        )
    }
}

/// What an outbound pair amounts to: the text taken as a sequence.
pub open spec fn outbound_view(p: (i64, String)) -> (i64, Seq<char>) {
    (p.0, p.1@)
}

/// The outbound pairs, each taken at its view.
pub open spec fn out_view(v: Seq<(i64, String)>) -> Seq<(i64, Seq<char>)> {
    v.map_values(|p: (i64, String)| outbound_view(p))
}

/// Fans the enriched match out to the channels: one composer call per
/// channel over the participants visible to it.
pub fn fanout(
    chats: &Vec<i64>,
    done: &Vec<Enriched>,
    game: &Game,
    platform: &Platform,
    cfg: &Message,
) -> (r: Vec<(i64, String)>)
    ensures
        out_view(r@) == spec_fanout(chats@, done@, *game, *platform, *cfg),
{
    let mut r: Vec<(i64, String)> = Vec::new();
    proof {
        assert(out_view(r@) =~= spec_fanout(chats@.subrange(0, 0), done@, *game, *platform, *cfg));
    }
    let mut c: usize = 0;
    while c < chats.len()
        invariant
            c <= chats@.len(),
            out_view(r@) == spec_fanout(chats@.subrange(0, c as int), done@, *game, *platform, *cfg),
        decreases chats@.len() - c,
    {
        proof {
            assert(chats@.subrange(0, (c + 1) as int).drop_last() =~= chats@.subrange(0, c as int));
            assert(chats@.subrange(0, (c + 1) as int).last() == chats@[c as int]);
        }
        let chat = chats[c];
        let vis = visible_entries(done, chat);
        let msgs = generate_messages(game, platform, &vis, cfg);
        let ghost before = out_view(r@);
        let ghost texts = msgs@.map_values(|s: String| s@);
        let mut k: usize = 0;
        while k < msgs.len()
            invariant
                k <= msgs@.len(),
                texts == msgs@.map_values(|s: String| s@),
                out_view(r@) == before + tag_chat(chat, texts.subrange(0, k as int)),
            decreases msgs@.len() - k,
        {
            let text = msgs[k].clone();
            proof {
                assert(text@ == texts[k as int]);
            }
            let ghost pre = r@;
            r.push((chat, text));
            proof {
                let grown = before + tag_chat(chat, texts.subrange(0, (k + 1) as int));
                assert(out_view(pre).len() == pre.len());
                assert(out_view(r@).len() == grown.len());
                assert forall|l: int| 0 <= l < r@.len() implies out_view(r@)[l] == grown[l] by {
                    assert(out_view(r@)[l] == outbound_view(r@[l]));
                    if l < before.len() {
                        assert(r@[l] == pre[l]);
                        assert(out_view(pre)[l] == outbound_view(pre[l]));
                        assert(grown[l] == before[l]);
                    } else if l < pre.len() {
                        let m = l - before.len();
                        assert(r@[l] == pre[l]);
                        assert(out_view(pre)[l] == outbound_view(pre[l]));
                        assert(out_view(pre)[l] == tag_chat(chat, texts.subrange(0, k as int))[m]);
                        assert(tag_chat(chat, texts.subrange(0, k as int))[m] == (
                            chat,
                            texts.subrange(0, k as int)[m],
                        ));
                        assert(texts.subrange(0, k as int)[m] == texts[m]);
                        assert(grown[l] == tag_chat(chat, texts.subrange(0, (k + 1) as int))[m]);
                        assert(tag_chat(chat, texts.subrange(0, (k + 1) as int))[m] == (
                            chat,
                            texts.subrange(0, (k + 1) as int)[m],
                        ));
                        assert(texts.subrange(0, (k + 1) as int)[m] == texts[m]);
                    } else {
                        assert(r@[l] == (chat, text));
                        assert(tag_chat(chat, texts.subrange(0, (k + 1) as int))[k as int] == (
                            chat,
                            texts.subrange(0, (k + 1) as int)[k as int],
                        ));
                        assert(texts.subrange(0, (k + 1) as int)[k as int] == texts[k as int]);
                    }
                }
                assert(out_view(r@) =~= grown);
            }
            k = k + 1;
        }
        proof {
            assert(texts.subrange(0, texts.len() as int) =~= texts);
            assert(out_view(r@) =~= spec_fanout(
                chats@.subrange(0, (c + 1) as int),
                done@,
                *game,
                *platform,
                *cfg,
            ));
        }
        c = c + 1;
    }
    proof {
        assert(chats@.subrange(0, chats@.len() as int) =~= chats@);
    }
    r
}

/// A match with no tracked participant notifies nobody: the fan-out over an
/// empty participant set owes no channel any message.
pub proof fn lemma_no_tracked_no_messages(
    chats: Seq<i64>,
    game: Game,
    platform: Platform,
    cfg: Message,
)
    ensures
        spec_fanout(chats, Seq::<Enriched>::empty(), game, platform, cfg) == Seq::<(
            i64,
            Seq<char>,
        )>::empty(),
    decreases chats.len(),
{
    if chats.len() > 0 {
        lemma_no_tracked_no_messages(chats.drop_last(), game, platform, cfg);
        let chat = chats.last();
        assert(spec_visible(Seq::<Enriched>::empty(), chat) =~= Seq::<Entry>::empty());
        assert(crate::lol::win_bucket(Seq::<Entry>::empty(), false) =~= Seq::<Entry>::empty());
        assert(crate::lol::win_bucket(Seq::<Entry>::empty(), true) =~= Seq::<Entry>::empty());
        assert(spec_generate_messages(game, platform, Seq::<Entry>::empty(), cfg) =~= Seq::<
            Seq<char>,
        >::empty());
        assert(tag_chat(chat, Seq::<Seq<char>>::empty()) =~= Seq::<(i64, Seq<char>)>::empty());
        assert(spec_fanout(chats, Seq::<Enriched>::empty(), game, platform, cfg) =~= Seq::<(
            i64,
            Seq<char>,
        )>::empty());
    } else {
        assert(spec_fanout(chats, Seq::<Enriched>::empty(), game, platform, cfg) =~= Seq::<(
            i64,
            Seq<char>,
        )>::empty());
    }
}


/// The per-candidate control state of the match processor: which answer from
/// a collaborator the candidate in hand is waiting for, and what has been
/// gathered about it so far.
pub enum Processor {
    Idle,
    AwaitDedup { game_id: String, platform: Platform },
    AwaitGame { game_id: String, platform: Platform },
    AwaitLeagues { platform: Platform, game: Game, pending: Vec<Pending>, done: Vec<Enriched> },
    AwaitPersist { platform: Platform, game: Game, done: Vec<Enriched> },
}

/// An answer from a collaborator, handed to the processor by the loop that
/// performs its actions. A failed or not-found game fetch arrives as no
/// game; a failed ranking fetch arrives as an empty league list; a failed
/// persist arrives as a negative answer.
pub enum Event {
    Candidate { game_id: String, platform: Platform },
    DedupAnswer { present: bool },
    GameAnswer { game: Option<Game> },
    LeagueAnswer { leagues: Vec<League> },
    PersistAnswer { ok: bool },
}

/// What the processor asks its surrounding loop to do next.
pub enum Action {
    Discard,
    CheckStore { key: MatchKey },
    FetchGame { game_id: String, platform: Platform },
    FetchLeagues { player: Player, platform: Platform },
    Persist { record: MatchRecord },
    Deliver { messages: Vec<(i64, String)> },
}

/// Which event a state is waiting for.
pub open spec fn accepts(s: Processor, ev: Event) -> bool {
    match (s, ev) {
        (Processor::Idle, Event::Candidate { .. }) => true,
        (Processor::AwaitDedup { .. }, Event::DedupAnswer { .. }) => true,
        (Processor::AwaitGame { .. }, Event::GameAnswer { .. }) => true,
        (Processor::AwaitLeagues { .. }, Event::LeagueAnswer { .. }) => true,
        (Processor::AwaitPersist { .. }, Event::PersistAnswer { .. }) => true,
        _ => false,
    }
}

/// A state awaiting ranking snapshots always has a participant left to
/// enrich.
pub open spec fn well_formed(s: Processor) -> bool {
    match s {
        Processor::AwaitLeagues { pending, .. } => pending@.len() > 0,
        _ => true,
    }
}

/// What the record persisted for `game` with the enriched participants
/// `done` holds: the (match, platform) key, the queue, the calendar label of
/// the game's start, and one outcome row per tracked participant.
pub open spec fn record_for(
    record: MatchRecord,
    game: Game,
    platform: Platform,
    done: Seq<Enriched>,
) -> bool {
    &&& record.key.game_id@ == game.match_id@
    &&& record.key.platform@ == platform.code@
    &&& record.queue_id == game.queue_id as i32
    &&& record.rows@ == crate::store::spec_lol_rows(spec_entries(done))
    &&& (record.date matches Some(s) ==> s@ == crate::store::date_label_of(
        crate::store::spec_split_millis(game.start_millis).0 as i64,
        crate::store::spec_split_millis(game.start_millis).1 as u32,
    ))
    &&& (record.date is Some <==> crate::store::date_representable(game.start_millis))
}

impl Processor {
    /// Feeds one collaborator answer to the processor and yields the next
    /// state and the action owed for it. Dedup comes before any fetch: a
    /// candidate the store already knows is discarded at once, unfetched and
    /// never notified. A match without tracked participants is persisted as
    /// the minimal record and composes nothing. Messages go out only after
    /// the record has landed; a failed persist discards the candidate, to be
    /// rediscovered by a later poll.
    pub fn step(self, ev: Event, roster: &Vec<RosterEntry>, chats: &Vec<i64>, cfg: &Message) -> (r:
        (Processor, Action))
        requires
            accepts(self, ev),
            well_formed(self),
        ensures
            well_formed(r.0),
            self matches Processor::Idle ==> (ev matches Event::Candidate { game_id, platform }
                ==> r.0 == (Processor::AwaitDedup { game_id, platform }) && r.1 == (
            Action::CheckStore {
                key: MatchKey { game_id, platform: platform.code },
            })),
            self matches Processor::AwaitDedup { game_id, platform } ==> (ev matches
                Event::DedupAnswer { present } ==> {
                if present {
                    r.0 is Idle && r.1 is Discard
                } else {
                    r.0 == (Processor::AwaitGame { game_id, platform }) && r.1 == (
                    Action::FetchGame { game_id, platform })
                }
            }),
            self matches Processor::AwaitGame { game_id, platform } ==> (ev matches
                Event::GameAnswer { game } ==> {
                match game {
                    Option::None => r.0 is Idle && r.1 is Discard,
                    Option::Some(g) => {
                        let joined = spec_tracked(g.participants@, roster@);
                        if joined.len() == 0 {
                            &&& r.0 matches Processor::AwaitPersist {
                                platform: p2,
                                game: g2,
                                done: d2,
                            } && p2 == platform && g2 == g && d2@ == Seq::<Enriched>::empty()
                            &&& r.1 matches Action::Persist { record } && record_for(
                                record,
                                g,
                                platform,
                                Seq::<Enriched>::empty(),
                            )
                        } else {
                            &&& r.0 matches Processor::AwaitLeagues {
                                platform: p2,
                                game: g2,
                                pending: pd,
                                done: dn,
                            } && p2 == platform && g2 == g && pd@.map_values(
                                |p: Pending| pending_view(p),
                            ) == joined && dn@ == Seq::<Enriched>::empty()
                            &&& r.1 matches Action::FetchLeagues { player, platform: fp } && player
                                == joined[0].0 && fp == platform
                        }
                    },
                }
            }),
            self matches Processor::AwaitLeagues { platform, game, pending, done } ==> (ev matches
                Event::LeagueAnswer { leagues } ==> {
                let enriched = (
                    pending@[0].0,
                    pending@[0].1,
                    spec_select_league(leagues@, game.queue_id),
                    pending@[0].2,
                );
                if pending@.len() == 1 {
                    &&& r.0 matches Processor::AwaitPersist { platform: p2, game: g2, done: d2 }
                        && p2 == platform && g2 == game && d2@ == done@.push(enriched)
                    &&& r.1 matches Action::Persist { record } && record_for(
                        record,
                        game,
                        platform,
                        done@.push(enriched),
                    )
                } else {
                    &&& r.0 matches Processor::AwaitLeagues {
                        platform: p2,
                        game: g2,
                        pending: pd2,
                        done: d2,
                    } && p2 == platform && g2 == game && pd2@ == pending@.drop_first() && d2@
                        == done@.push(enriched)
                    &&& r.1 matches Action::FetchLeagues { player, platform: fp } && player
                        == pending@[1].0 && fp == platform
                }
            }),
            self matches Processor::AwaitPersist { platform, game, done } ==> (ev matches
                Event::PersistAnswer { ok } ==> {
                if ok {
                    r.0 is Idle && (r.1 matches Action::Deliver { messages } && out_view(messages@)
                        == spec_fanout(chats@, done@, game, platform, *cfg))
                } else {
                    r.0 is Idle && r.1 is Discard
                }
            }),
    {
        match (self, ev) {
            (Processor::Idle, Event::Candidate { game_id, platform }) => {
                let key = MatchKey { game_id: game_id.clone(), platform: platform.code.clone() };
                (Processor::AwaitDedup { game_id, platform }, Action::CheckStore { key })
            },
            (Processor::AwaitDedup { game_id, platform }, Event::DedupAnswer { present }) => {
                if present {
                    (Processor::Idle, Action::Discard)
                } else {
                    let id2 = game_id.clone();
                    let p2 = platform.duplicate();
                    (
                        Processor::AwaitGame { game_id, platform },
                        Action::FetchGame { game_id: id2, platform: p2 },
                    )
                }
            },
            (Processor::AwaitGame { game_id: _, platform }, Event::GameAnswer { game }) => {
                match game {
                    Option::None => (Processor::Idle, Action::Discard),
                    Option::Some(g) => {
                        let pending = find_tracked(&g.participants, roster);
                        if pending.len() == 0 {
                            let entries: Vec<Entry> = Vec::new();
                            let record = crate::store::lol_match_record(&g, &platform, &entries);
                            proof {
                                assert(spec_entries(Seq::<Enriched>::empty()) =~= Seq::<
                                    Entry,
                                >::empty());
                                assert(entries@ =~= spec_entries(Seq::<Enriched>::empty()));
                            }
                            let done: Vec<Enriched> = Vec::new();
                            (
                                Processor::AwaitPersist { platform, game: g, done },
                                Action::Persist { record },
                            )
                        } else {
                            let player = pending[0].0.duplicate();
                            let fp = platform.duplicate();
                            proof {
                                let joined = spec_tracked(g.participants@, roster@);
                                assert(pending@.map_values(|p: Pending| pending_view(p))[0]
                                    == joined[0]);
                                assert(pending_view(pending@[0]).0 == pending@[0].0);
                            }
                            let done: Vec<Enriched> = Vec::new();
                            (
                                Processor::AwaitLeagues { platform, game: g, pending, done },
                                Action::FetchLeagues { player, platform: fp },
                            )
                        }
                    },
                }
            },
            (
                Processor::AwaitLeagues { platform, game, mut pending, mut done },
                Event::LeagueAnswer { leagues },
            ) => {
                let head = pending.remove(0);
                let (pl, pa, ch) = head;
                let league = select_league(&leagues, game.queue_id);
                done.push((pl, pa, league, ch));
                if pending.len() == 0 {
                    let entries = entries_of(&done);
                    let record = crate::store::lol_match_record(&game, &platform, &entries);
                    (
                        Processor::AwaitPersist { platform, game, done },
                        Action::Persist { record },
                    )
                } else {
                    let player = pending[0].0.duplicate();
                    let fp = platform.duplicate();
                    (
                        Processor::AwaitLeagues { platform, game, pending, done },
                        Action::FetchLeagues { player, platform: fp },
                    )
                }
            },
            (Processor::AwaitPersist { platform, game, done }, Event::PersistAnswer { ok }) => {
                if ok {
                    let messages = fanout(chats, &done, &game, &platform, cfg);
                    (Processor::Idle, Action::Deliver { messages })
                } else {
                    (Processor::Idle, Action::Discard)
                }
            },
            _ => {
                proof {
                    assert(false);
                }
                (Processor::Idle, Action::Discard)
            },
        }
    }
}

} // verus!
