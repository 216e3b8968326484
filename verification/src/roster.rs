use vstd::prelude::*;

verus! {

/// A resolved tracked player. The `puuid` is the stable identity and the join
/// key everywhere; the display name is carried only for presentation and
/// persistence, and may change upstream between cycles.
pub struct Player {
    pub id: String,
    pub puuid: String,
    pub name: String,
}

/// A platform a player is tracked on: its code (used in persisted keys) and
/// the label of its region (used in notification text).
pub struct Platform {
    pub code: String,
    pub region: String,
}

impl Player {
    /// A copy of this player, field for field.
    pub fn duplicate(&self) -> (r: Player)
        ensures
            r == *self,
    {
        Player { id: self.id.clone(), puuid: self.puuid.clone(), name: self.name.clone() }
    }
}

impl Platform {
    /// A copy of this platform, field for field.
    pub fn duplicate(&self) -> (r: Platform)
        ensures
            r == *self,
    {
        Platform { code: self.code.clone(), region: self.region.clone() }
    }
}

/// A resolved tracked player together with the subscriber channels
/// following it.
pub struct RosterEntry {
    pub player: Player,
    pub chats: Vec<i64>,
}

/// A copy of a channel list.
pub fn copy_chats(chats: &Vec<i64>) -> (r: Vec<i64>)
    ensures
        r@ == chats@,
{
    let mut r: Vec<i64> = Vec::new();
    let mut i: usize = 0;
    while i < chats.len()
        invariant
            i <= chats@.len(),
            r@ == chats@.subrange(0, i as int),
        decreases chats@.len() - i,
    {
        r.push(chats[i]);
        proof {
            assert(r@ =~= chats@.subrange(0, (i + 1) as int));
        }
        i = i + 1;
    }
    proof {
        assert(chats@.subrange(0, chats@.len() as int) =~= chats@);
    }
    r
}

/// The position of the first roster entry whose player carries the identity
/// `puuid`. The join goes by the stable identity alone, never by the
/// mutable display name.
pub open spec fn first_match(roster: Seq<RosterEntry>, puuid: Seq<char>) -> Option<int>
    decreases roster.len(),
{
    if roster.len() == 0 {
        Option::None
    } else if roster[0].player.puuid@ == puuid {
        Option::Some(0int)
    } else {
        match first_match(roster.drop_first(), puuid) {
            Option::Some(i) => Option::Some(i + 1),
            Option::None => Option::None,
        }
    }
}

/// A found position is in range and carries the identity looked for.
pub proof fn lemma_first_match_valid(roster: Seq<RosterEntry>, puuid: Seq<char>)
    ensures
        first_match(roster, puuid) matches Some(i) ==> 0 <= i < roster.len()
            && roster[i].player.puuid@ == puuid,
    decreases roster.len(),
{
    if roster.len() > 0 && !(roster[0].player.puuid@ == puuid) {
        lemma_first_match_valid(roster.drop_first(), puuid);
    }
}

/// A tracked player's identity is stable across cycles: the join reads the
/// identity alone, so two rosters that agree on identities — display names
/// and channel lists free to differ — agree on where any identity is found.
pub proof fn lemma_join_ignores_display_names(
    r1: Seq<RosterEntry>,
    r2: Seq<RosterEntry>,
    puuid: Seq<char>,
)
    requires
        r1.len() == r2.len(),
        forall|i: int| 0 <= i < r1.len() ==> #[trigger] r1[i].player.puuid@ == r2[i].player.puuid@,
    ensures
        first_match(r1, puuid) == first_match(r2, puuid),
    decreases r1.len(),
{
    if r1.len() > 0 {
        assert(r1[0].player.puuid@ == r2[0].player.puuid@);
        if !(r1[0].player.puuid@ == puuid) {
            assert forall|i: int| 0 <= i < r1.drop_first().len() implies #[trigger] r1.drop_first()[i].player.puuid@
                == r2.drop_first()[i].player.puuid@ by {
                assert(r1.drop_first()[i] == r1[i + 1]);
                assert(r2.drop_first()[i] == r2[i + 1]);
            }
            lemma_join_ignores_display_names(r1.drop_first(), r2.drop_first(), puuid);
        }
    }
}

/// Finds the first roster entry for the identity `puuid`.
pub fn find_in_roster(roster: &Vec<RosterEntry>, puuid: &String) -> (r: Option<usize>)
    ensures
        match r {
            Option::Some(i) => first_match(roster@, puuid@) == Option::Some(i as int),
            Option::None => first_match(roster@, puuid@) is None,
        },
{
    proof {
        assert(roster@.skip(0) =~= roster@);
    }
    let mut j: usize = 0;
    while j < roster.len()
        invariant
            j <= roster@.len(),
            match first_match(roster@.skip(j as int), puuid@) {
                Option::Some(i) => first_match(roster@, puuid@) == Option::Some(i + j),
                Option::None => first_match(roster@, puuid@) is None,
            },
        decreases roster@.len() - j,
    {
        proof {
            assert(roster@.skip(j as int)[0] == roster@[j as int]);
            assert(roster@.skip(j as int).drop_first() =~= roster@.skip((j + 1) as int));
        }
        if roster[j].player.puuid == *puuid {
            return Option::Some(j);
        }
        j = j + 1;
    }
    proof {
        assert(roster@.skip(roster@.len() as int) =~= Seq::<RosterEntry>::empty());
    }
    Option::None
}

} // verus!
