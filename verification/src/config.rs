use vstd::prelude::*;

verus! {

/// One subscriber: its channel, and per title the platform-to-names lists
/// of the players it follows.
pub struct Tracker {
    pub telegram_chat: i64,
    pub riot_lol_platforms_names: Vec<(String, Vec<String>)>,
    pub riot_tft_platforms_names: Vec<(String, Vec<String>)>,
}

/// The whole configuration: the credentials, the message templates of both
/// titles, and the subscribers.
pub struct Config {
    pub telegram_api_key: String,
    pub riot_lol_api_key: String,
    pub riot_tft_api_key: String,
    pub riot_lol_message: crate::lol::Message,
    pub riot_tft_message: crate::tft::Message,
    pub trackers: Vec<Tracker>,
}

/// One roster key — a player name on a platform — with the channels
/// following it.
pub struct RosterBinding {
    pub name: String,
    pub platform: String,
    pub chats: Vec<i64>,
}

/// Whether the channel `chat` follows the player `name` on `platform`
/// according to the bindings `r`.
pub open spec fn roster_has(
    r: Seq<RosterBinding>,
    platform: Seq<char>,
    name: Seq<char>,
    chat: i64,
) -> bool {
    exists|b: int|
        0 <= b < r.len() && (#[trigger] r[b]).platform@ == platform && r[b].name@ == name
            && r[b].chats@.contains(chat)
}

/// No two bindings share a (platform, name) key.
pub open spec fn keys_unique(r: Seq<RosterBinding>) -> bool {
    forall|b1: int, b2: int|
        0 <= b1 < b2 < r.len() ==> !((#[trigger] r[b1]).platform@ == (#[trigger] r[b2]).platform@
            && r[b1].name@ == r[b2].name@)
}

/// No binding lists a channel twice: the followers of a key are a set.
pub open spec fn chats_unique(r: Seq<RosterBinding>) -> bool {
    forall|b: int, i1: int, i2: int|
        0 <= b < r.len() && 0 <= i1 < i2 < r[b].chats@.len()
            ==> #[trigger] r[b].chats@[i1] != #[trigger] r[b].chats@[i2]
}

fn find_binding(r: &Vec<RosterBinding>, platform: &String, name: &String) -> (idx: Option<usize>)
    ensures
        match idx {
            Option::Some(i) => i < r@.len() && r@[i as int].platform@ == platform@
                && r@[i as int].name@ == name@,
            Option::None => forall|b: int|
                0 <= b < r@.len() ==> !((#[trigger] r@[b]).platform@ == platform@ && r@[b].name@
                    == name@),
        },
{
    let mut j: usize = 0;
    while j < r.len()
        invariant
            j <= r@.len(),
            forall|b: int|
                0 <= b < j ==> !((#[trigger] r@[b]).platform@ == platform@ && r@[b].name@
                    == name@),
        decreases r@.len() - j,
    {
        let b = &r[j];
        if b.platform == *platform && b.name == *name {
            return Option::Some(j);
        }
        j = j + 1;
    }
    Option::None
}

/// Records that `chat` follows `name` on `platform`: the binding for the key
/// gains the channel (once), or a fresh binding is made. Every other
/// following is left as it was.
pub fn add_follower(r: &mut Vec<RosterBinding>, platform: &String, name: &String, chat: i64)
    requires
        keys_unique(old(r)@),
        chats_unique(old(r)@),
    ensures
        keys_unique(final(r)@),
        chats_unique(final(r)@),
        forall|p: Seq<char>, n: Seq<char>, c: i64|
            #[trigger] roster_has(final(r)@, p, n, c) <==> roster_has(old(r)@, p, n, c) || (p
                == platform@ && n == name@ && c == chat),
{
    let ghost r0 = r@;
    match find_binding(r, platform, name) {
        Option::Some(i) => {
            let present = crate::pipeline::lol::chat_contains(&r[i].chats, chat);
            if present {
                proof {
                    assert forall|p: Seq<char>, n: Seq<char>, c: i64|
                        #[trigger] roster_has(r@, p, n, c) <==> roster_has(r0, p, n, c) || (p
                            == platform@ && n == name@ && c == chat) by {
                        if p == platform@ && n == name@ && c == chat {
                            assert(0 <= i < r0.len() && r0[i as int].platform@ == p
                                && r0[i as int].name@ == n && r0[i as int].chats@.contains(c));
                            assert(roster_has(r0, p, n, c));
                        }
                    }
                }
            } else {
                let mut b = r.remove(i);
                let ghost old_b = b;
                b.chats.push(chat);
                let ghost new_b = b;
                r.insert(i, b);
                proof {
                    assert(r@ =~= r0.update(i as int, new_b));
                    assert(new_b.chats@ == old_b.chats@.push(chat));
                    assert(forall|k: int|
                        0 <= k < old_b.chats@.len() ==> #[trigger] new_b.chats@[k]
                            == old_b.chats@[k]);
                    assert(new_b.chats@[old_b.chats@.len() as int] == chat);
                    // the pushed channel was not listed before
                    assert(forall|k: int|
                        0 <= k < old_b.chats@.len() ==> #[trigger] old_b.chats@[k] != chat);
                    assert(chats_unique(r@));
                    assert(keys_unique(r@));
                    assert forall|p: Seq<char>, n: Seq<char>, c: i64|
                        #[trigger] roster_has(r@, p, n, c) <==> roster_has(r0, p, n, c) || (p
                            == platform@ && n == name@ && c == chat) by {
                        if roster_has(r@, p, n, c) {
                            let b2 = choose|b2: int|
                                0 <= b2 < r@.len() && (#[trigger] r@[b2]).platform@ == p
                                    && r@[b2].name@ == n && r@[b2].chats@.contains(c);
                            if b2 == i {
                                let k = choose|k: int|
                                    0 <= k < new_b.chats@.len() && new_b.chats@[k] == c;
                                if k < old_b.chats@.len() {
                                    assert(old_b.chats@.contains(c));
                                    assert(roster_has(r0, p, n, c));
                                } else {
                                    assert(c == chat);
                                }
                            } else {
                                assert(r0[b2] == r@[b2]);
                                assert(roster_has(r0, p, n, c));
                            }
                        }
                        if roster_has(r0, p, n, c) {
                            let b2 = choose|b2: int|
                                0 <= b2 < r0.len() && (#[trigger] r0[b2]).platform@ == p
                                    && r0[b2].name@ == n && r0[b2].chats@.contains(c);
                            if b2 == i {
                                let k = choose|k: int|
                                    0 <= k < old_b.chats@.len() && old_b.chats@[k] == c;
                                assert(new_b.chats@[k] == c);
                                assert(r@[b2].chats@.contains(c));
                                assert(roster_has(r@, p, n, c));
                            } else {
                                assert(r@[b2] == r0[b2]);
                                assert(roster_has(r@, p, n, c));
                            }
                        }
                        if p == platform@ && n == name@ && c == chat {
                            assert(r@[i as int].chats@[old_b.chats@.len() as int] == chat);
                            assert(r@[i as int].chats@.contains(c));
                            assert(roster_has(r@, p, n, c));
                        }
                    }
                }
            }
        },
        Option::None => {
            let mut chats: Vec<i64> = Vec::new();
            chats.push(chat);
            let binding = RosterBinding { name: name.clone(), platform: platform.clone(), chats };
            r.push(binding);
            proof {
                let ghost newb = r@[r0.len() as int];
                assert(newb.platform@ == platform@ && newb.name@ == name@);
                assert(newb.chats@.len() == 1 && newb.chats@[0] == chat);
                assert(keys_unique(r@));
                assert(chats_unique(r@));
                assert forall|p: Seq<char>, n: Seq<char>, c: i64|
                    #[trigger] roster_has(r@, p, n, c) <==> roster_has(r0, p, n, c) || (p
                        == platform@ && n == name@ && c == chat) by {
                    if roster_has(r@, p, n, c) {
                        let b2 = choose|b2: int|
                            0 <= b2 < r@.len() && (#[trigger] r@[b2]).platform@ == p
                                && r@[b2].name@ == n && r@[b2].chats@.contains(c);
                        if b2 < r0.len() {
                            assert(r0[b2] == r@[b2]);
                            assert(roster_has(r0, p, n, c));
                        } else {
                            let k = choose|k: int|
                                0 <= k < newb.chats@.len() && newb.chats@[k] == c;
                            assert(c == chat);
                        }
                    }
                    if roster_has(r0, p, n, c) {
                        let b2 = choose|b2: int|
                            0 <= b2 < r0.len() && (#[trigger] r0[b2]).platform@ == p
                                && r0[b2].name@ == n && r0[b2].chats@.contains(c);
                        assert(r@[b2] == r0[b2]);
                        assert(roster_has(r@, p, n, c));
                    }
                    if p == platform@ && n == name@ && c == chat {
                        assert(r@[r0.len() as int].chats@.contains(c));
                        assert(roster_has(r@, p, n, c));
                    }
                }
            }
        },
    }
}

/// Whether `n` is one of `names`.
pub open spec fn name_listed(names: Seq<String>, n: Seq<char>) -> bool {
    exists|j: int| 0 <= j < names.len() && (#[trigger] names[j])@ == n
}

/// Records that `chat` follows each of `names` on `platform`.
pub fn add_names(r: &mut Vec<RosterBinding>, platform: &String, names: &Vec<String>, chat: i64)
    requires
        keys_unique(old(r)@),
        chats_unique(old(r)@),
    ensures
        keys_unique(final(r)@),
        chats_unique(final(r)@),
        forall|p: Seq<char>, n: Seq<char>, c: i64|
            #[trigger] roster_has(final(r)@, p, n, c) <==> roster_has(old(r)@, p, n, c) || (p
                == platform@ && name_listed(names@, n) && c == chat),
{
    let ghost r0 = r@;
    let mut j: usize = 0;
    while j < names.len()
        invariant
            j <= names@.len(),
            keys_unique(r@),
            chats_unique(r@),
            forall|p: Seq<char>, n: Seq<char>, c: i64|
                #[trigger] roster_has(r@, p, n, c) <==> roster_has(r0, p, n, c) || (p == platform@
                    && name_listed(names@.subrange(0, j as int), n) && c == chat),
        decreases names@.len() - j,
    {
        let ghost rprev = r@;
        add_follower(r, platform, &names[j], chat);
        proof {
            assert forall|p: Seq<char>, n: Seq<char>, c: i64|
                #[trigger] roster_has(r@, p, n, c) <==> roster_has(r0, p, n, c) || (p == platform@
                    && name_listed(names@.subrange(0, (j + 1) as int), n) && c == chat) by {
                assert(roster_has(r@, p, n, c) <==> roster_has(rprev, p, n, c) || (p == platform@
                    && n == names@[j as int]@ && c == chat));
                assert(roster_has(rprev, p, n, c) <==> roster_has(r0, p, n, c) || (p == platform@
                    && name_listed(names@.subrange(0, j as int), n) && c == chat));
                if name_listed(names@.subrange(0, (j + 1) as int), n) {
                    let jj = choose|jj: int|
                        0 <= jj < names@.subrange(0, (j + 1) as int).len() && (#[trigger] names@.subrange(
                            0,
                            (j + 1) as int,
                        )[jj])@ == n;
                    if jj < j {
                        assert(names@.subrange(0, j as int)[jj]@ == n);
                        assert(name_listed(names@.subrange(0, j as int), n));
                    } else {
                        assert(names@[j as int]@ == n);
                    }
                }
                if name_listed(names@.subrange(0, j as int), n) {
                    let jj = choose|jj: int|
                        0 <= jj < names@.subrange(0, j as int).len() && (#[trigger] names@.subrange(
                            0,
                            j as int,
                        )[jj])@ == n;
                    assert(names@.subrange(0, (j + 1) as int)[jj]@ == n);
                    assert(name_listed(names@.subrange(0, (j + 1) as int), n));
                }
                if names@[j as int]@ == n {
                    assert(names@.subrange(0, (j + 1) as int)[j as int]@ == n);
                    assert(name_listed(names@.subrange(0, (j + 1) as int), n));
                }
            }
        }
        j = j + 1;
    }
    proof {
        assert(names@.subrange(0, names@.len() as int) =~= names@);
    }
}

/// Whether some platform list among `lists` carries `platform` and lists
/// `n`.
pub open spec fn pair_listed(
    lists: Seq<(String, Vec<String>)>,
    platform: Seq<char>,
    n: Seq<char>,
) -> bool {
    exists|i: int|
        0 <= i < lists.len() && (#[trigger] lists[i]).0@ == platform && name_listed(
            lists[i].1@,
            n,
        )
}

/// Records that `chat` follows every (platform, name) pair of `lists`.
pub fn add_lists(r: &mut Vec<RosterBinding>, lists: &Vec<(String, Vec<String>)>, chat: i64)
    requires
        keys_unique(old(r)@),
        chats_unique(old(r)@),
    ensures
        keys_unique(final(r)@),
        chats_unique(final(r)@),
        forall|p: Seq<char>, n: Seq<char>, c: i64|
            #[trigger] roster_has(final(r)@, p, n, c) <==> roster_has(old(r)@, p, n, c) || (
            pair_listed(lists@, p, n) && c == chat),
{
    let ghost r0 = r@;
    let mut i: usize = 0;
    while i < lists.len()
        invariant
            i <= lists@.len(),
            keys_unique(r@),
            chats_unique(r@),
            forall|p: Seq<char>, n: Seq<char>, c: i64|
                #[trigger] roster_has(r@, p, n, c) <==> roster_has(r0, p, n, c) || (pair_listed(
                    lists@.subrange(0, i as int),
                    p,
                    n,
                ) && c == chat),
        decreases lists@.len() - i,
    {
        let ghost rprev = r@;
        let pair = &lists[i];
        add_names(r, &pair.0, &pair.1, chat);
        proof {
            assert forall|p: Seq<char>, n: Seq<char>, c: i64|
                #[trigger] roster_has(r@, p, n, c) <==> roster_has(r0, p, n, c) || (pair_listed(
                    lists@.subrange(0, (i + 1) as int),
                    p,
                    n,
                ) && c == chat) by {
                assert(roster_has(r@, p, n, c) <==> roster_has(rprev, p, n, c) || (p
                    == lists@[i as int].0@ && name_listed(lists@[i as int].1@, n) && c == chat));
                assert(roster_has(rprev, p, n, c) <==> roster_has(r0, p, n, c) || (pair_listed(
                    lists@.subrange(0, i as int),
                    p,
                    n,
                ) && c == chat));
                if pair_listed(lists@.subrange(0, (i + 1) as int), p, n) {
                    let ii = choose|ii: int|
                        0 <= ii < lists@.subrange(0, (i + 1) as int).len() && (#[trigger] lists@.subrange(
                            0,
                            (i + 1) as int,
                        )[ii]).0@ == p && name_listed(lists@.subrange(0, (i + 1) as int)[ii].1@, n);
                    if ii < i {
                        assert(lists@.subrange(0, i as int)[ii].0@ == p);
                        assert(pair_listed(lists@.subrange(0, i as int), p, n));
                    } else {
                        assert(lists@[i as int].0@ == p);
                    }
                }
                if pair_listed(lists@.subrange(0, i as int), p, n) {
                    let ii = choose|ii: int|
                        0 <= ii < lists@.subrange(0, i as int).len() && (#[trigger] lists@.subrange(
                            0,
                            i as int,
                        )[ii]).0@ == p && name_listed(lists@.subrange(0, i as int)[ii].1@, n);
                    assert(lists@.subrange(0, (i + 1) as int)[ii].0@ == p);
                    assert(pair_listed(lists@.subrange(0, (i + 1) as int), p, n));
                }
                if p == lists@[i as int].0@ && name_listed(lists@[i as int].1@, n) {
                    assert((lists@.subrange(0, (i + 1) as int)[i as int]).0@ == p);
                    assert(pair_listed(lists@.subrange(0, (i + 1) as int), p, n));
                }
            }
        }
        i = i + 1;
    }
    proof {
        assert(lists@.subrange(0, lists@.len() as int) =~= lists@);
    }
}

/// The platform lists of a tracker for one title.
pub open spec fn title_lists(t: Tracker, lol_title: bool) -> Seq<(String, Vec<String>)> {
    if lol_title {
        t.riot_lol_platforms_names@
    } else {
        t.riot_tft_platforms_names@
    }
}

/// Whether the channel `chat` follows the player `name` on `platform`
/// according to the subscribers `trackers`, for one title.
pub open spec fn follows(
    trackers: Seq<Tracker>,
    lol_title: bool,
    platform: Seq<char>,
    name: Seq<char>,
    chat: i64,
) -> bool {
    exists|k: int|
        0 <= k < trackers.len() && (#[trigger] trackers[k]).telegram_chat == chat && pair_listed(
            title_lists(trackers[k], lol_title),
            platform,
            name,
        )
}

/// Builds, for one title, the mapping from tracked-player key to the set of
/// channels following it: a channel is bound to a key exactly when some
/// tracker with that channel lists the key, each key is bound once, and no
/// key lists a channel twice.
pub fn build_roster(trackers: &Vec<Tracker>, lol_title: bool) -> (r: Vec<RosterBinding>)
    ensures
        keys_unique(r@),
        chats_unique(r@),
        forall|p: Seq<char>, n: Seq<char>, c: i64|
            #[trigger] roster_has(r@, p, n, c) <==> follows(trackers@, lol_title, p, n, c),
{
    let mut r: Vec<RosterBinding> = Vec::new();
    let ghost r0 = r@;
    let mut k: usize = 0;
    while k < trackers.len()
        invariant
            k <= trackers@.len(),
            keys_unique(r@),
            chats_unique(r@),
            r0.len() == 0,
            forall|p: Seq<char>, n: Seq<char>, c: i64|
                #[trigger] roster_has(r@, p, n, c) <==> follows(
                    trackers@.subrange(0, k as int),
                    lol_title,
                    p,
                    n,
                    c,
                ),
        decreases trackers@.len() - k,
    {
        let ghost rprev = r@;
        let t = &trackers[k];
        let lists = if lol_title {
            &t.riot_lol_platforms_names
        } else {
            &t.riot_tft_platforms_names
        };
        add_lists(&mut r, lists, t.telegram_chat);
        proof {
            assert(lists@ == title_lists(trackers@[k as int], lol_title));
            assert forall|p: Seq<char>, n: Seq<char>, c: i64|
                #[trigger] roster_has(r@, p, n, c) <==> follows(
                    trackers@.subrange(0, (k + 1) as int),
                    lol_title,
                    p,
                    n,
                    c,
                ) by {
                assert(roster_has(r@, p, n, c) <==> roster_has(rprev, p, n, c) || (pair_listed(
                    title_lists(trackers@[k as int], lol_title),
                    p,
                    n,
                ) && c == trackers@[k as int].telegram_chat));
                assert(roster_has(rprev, p, n, c) <==> follows(
                    trackers@.subrange(0, k as int),
                    lol_title,
                    p,
                    n,
                    c,
                ));
                if follows(trackers@.subrange(0, (k + 1) as int), lol_title, p, n, c) {
                    let kk = choose|kk: int|
                        0 <= kk < trackers@.subrange(0, (k + 1) as int).len() && (#[trigger] trackers@.subrange(
                            0,
                            (k + 1) as int,
                        )[kk]).telegram_chat == c && pair_listed(
                            title_lists(trackers@.subrange(0, (k + 1) as int)[kk], lol_title),
                            p,
                            n,
                        );
                    if kk < k {
                        assert(trackers@.subrange(0, k as int)[kk].telegram_chat == c);
                        assert(follows(trackers@.subrange(0, k as int), lol_title, p, n, c));
                    } else {
                        assert(trackers@[k as int].telegram_chat == c);
                    }
                }
                if follows(trackers@.subrange(0, k as int), lol_title, p, n, c) {
                    let kk = choose|kk: int|
                        0 <= kk < trackers@.subrange(0, k as int).len() && (#[trigger] trackers@.subrange(
                            0,
                            k as int,
                        )[kk]).telegram_chat == c && pair_listed(
                            title_lists(trackers@.subrange(0, k as int)[kk], lol_title),
                            p,
                            n,
                        );
                    assert(trackers@.subrange(0, (k + 1) as int)[kk].telegram_chat == c);
                    assert(follows(trackers@.subrange(0, (k + 1) as int), lol_title, p, n, c));
                }
                if pair_listed(title_lists(trackers@[k as int], lol_title), p, n) && c
                    == trackers@[k as int].telegram_chat {
                    assert((trackers@.subrange(0, (k + 1) as int)[k as int]).telegram_chat == c);
                    assert(follows(trackers@.subrange(0, (k + 1) as int), lol_title, p, n, c));
                }
            }
        }
        k = k + 1;
    }
    proof {
        assert(trackers@.subrange(0, trackers@.len() as int) =~= trackers@);
    }
    r
}

/// The distinct channels of the subscribers, in order of first appearance.
pub fn all_chats(trackers: &Vec<Tracker>) -> (r: Vec<i64>)
    ensures
        forall|c: i64|
            #[trigger] r@.contains(c) <==> exists|k: int|
                0 <= k < trackers@.len() && (#[trigger] trackers@[k]).telegram_chat == c,
        forall|i1: int, i2: int| 0 <= i1 < i2 < r@.len() ==> r@[i1] != r@[i2],
{
    let mut r: Vec<i64> = Vec::new();
    let mut k: usize = 0;
    while k < trackers.len()
        invariant
            k <= trackers@.len(),
            forall|c: i64|
                #[trigger] r@.contains(c) <==> exists|kk: int|
                    0 <= kk < k && (#[trigger] trackers@[kk]).telegram_chat == c,
            forall|i1: int, i2: int| 0 <= i1 < i2 < r@.len() ==> r@[i1] != r@[i2],
        decreases trackers@.len() - k,
    {
        let ghost rprev = r@;
        let chat = trackers[k].telegram_chat;
        if !crate::pipeline::lol::chat_contains(&r, chat) {
            r.push(chat);
        }
        proof {
            assert forall|c: i64|
                #[trigger] r@.contains(c) <==> exists|kk: int|
                    0 <= kk < k + 1 && (#[trigger] trackers@[kk]).telegram_chat == c by {
                if r@.contains(c) {
                    let idx = choose|idx: int| 0 <= idx < r@.len() && r@[idx] == c;
                    if idx < rprev.len() {
                        assert(rprev[idx] == c);
                        assert(rprev.contains(c));
                    } else {
                        assert(c == chat);
                        assert(trackers@[k as int].telegram_chat == c);
                    }
                }
                if exists|kk: int| 0 <= kk < k + 1 && (#[trigger] trackers@[kk]).telegram_chat
                    == c {
                    let kk = choose|kk: int|
                        0 <= kk < k + 1 && (#[trigger] trackers@[kk]).telegram_chat == c;
                    if kk < k {
                        assert(rprev.contains(c));
                        let idx = choose|idx: int| 0 <= idx < rprev.len() && rprev[idx] == c;
                        assert(r@[idx] == c);
                        assert(r@.contains(c));
                    } else {
                        if rprev.contains(c) {
                            let idx = choose|idx: int| 0 <= idx < rprev.len() && rprev[idx] == c;
                            assert(r@[idx] == c);
                            assert(r@.contains(c));
                        } else {
                            assert(r@[rprev.len() as int] == c);
                            assert(r@.contains(c));
                        }
                    }
                }
            }
        }
        k = k + 1;
    }
    r
}

} // verus!
