//! Who is connected to a project's live channel.

use vstd::prelude::*;

verus! {

/// A user connected to a project; `connected_at` in nanoseconds since the
/// Unix epoch.
pub struct PresenceEntry {
    pub user_id: u128,
    pub user_name: String,
    pub connected_at: i64,
}

/// The users connected to one project, in the order in which they joined.
pub struct Presence {
    pub entries: Vec<PresenceEntry>,
}

/// The entries of `s` that are not the user's, in order.
pub open spec fn without_user(s: Seq<PresenceEntry>, user_id: u128) -> Seq<PresenceEntry>
    decreases s.len(),
{
    if s.len() == 0 {
        s
    } else {
        without_user(s.drop_last(), user_id) + if s.last().user_id == user_id {
            Seq::empty()
        } else {
            seq![s.last()]
        }
    }
}

/// The name under which the user first appears, if they do.
pub open spec fn first_name(s: Seq<PresenceEntry>, user_id: u128) -> Option<Seq<char>>
    decreases s.len(),
{
    if s.len() == 0 {
        None
    } else if s[0].user_id == user_id {
        Some(s[0].user_name@)
    } else {
        first_name(s.drop_first(), user_id)
    }
}

/// The number of the user's entries.
pub open spec fn entries_of(s: Seq<PresenceEntry>, user_id: u128) -> nat
    decreases s.len(),
{
    if s.len() == 0 {
        0
    } else {
        entries_of(s.drop_last(), user_id) + if s.last().user_id == user_id {
            1nat
        } else {
            0nat
        }
    }
}

/// Dropping a user's entries keeps the others'.
proof fn lemma_without_user_counts(s: Seq<PresenceEntry>, user_id: u128, other: u128)
    ensures
        entries_of(without_user(s, user_id), user_id) == 0,
        other != user_id ==> entries_of(without_user(s, user_id), other) == entries_of(s, other),
    decreases s.len(),
{
    if s.len() > 0 {
        lemma_without_user_counts(s.drop_last(), user_id, other);
        let rest = without_user(s.drop_last(), user_id);
        if s.last().user_id != user_id {
            assert((rest + seq![s.last()]).drop_last() =~= rest);
        } else {
            assert(rest + Seq::<PresenceEntry>::empty() =~= rest);
        }
    }
}

/// The entries of `s` that are not the user's.
fn drop_user(s: &Vec<PresenceEntry>, user_id: u128) -> (r: Vec<PresenceEntry>)
    ensures
        r@ == without_user(s@, user_id),
{
    let mut r: Vec<PresenceEntry> = Vec::new();
    let mut i: usize = 0;
    while i < s.len()
        invariant
            i <= s@.len(),
            r@ == without_user(s@.take(i as int), user_id),
        decreases s@.len() - i,
    {
        assert(s@.take(i + 1).drop_last() =~= s@.take(i as int));
        if s[i].user_id != user_id {
            let e = PresenceEntry {
                user_id: s[i].user_id,
                user_name: s[i].user_name.clone(),
                connected_at: s[i].connected_at,
            };
            r.push(e);
        }
        i = i + 1;
    }
    assert(s@.take(i as int) =~= s@);
    r
}

/// The name under which the user first appears, if they do.
fn name_of(s: &Vec<PresenceEntry>, user_id: u128) -> (r: Option<String>)
    ensures
        match r {
            Some(n) => first_name(s@, user_id) == Some(n@),
            None => first_name(s@, user_id) is None,
        },
{
    let mut i: usize = 0;
    assert(s@.skip(0) =~= s@);
    while i < s.len()
        invariant
            i <= s@.len(),
            first_name(s@, user_id) == first_name(s@.skip(i as int), user_id),
        decreases s@.len() - i,
    {
        assert(s@.skip(i as int)[0] == s@[i as int]);
        if s[i].user_id == user_id {
            return Some(s[i].user_name.clone());
        }
        assert(s@.skip(i as int).drop_first() =~= s@.skip(i + 1));
        i = i + 1;
    }
    assert(s@.skip(i as int) =~= Seq::<PresenceEntry>::empty());
    None
}

impl Presence {
    /// Nobody connected.
    pub fn new() -> (r: Presence)
        ensures
            r.entries@.len() == 0,
    {
        Presence { entries: Vec::new() }
    }

    /// The user connects (or reconnects) at `now`: any entry of theirs goes,
    /// and they come last.
    pub fn join(&mut self, user_id: u128, user_name: String, now: i64)
        ensures
            final(self).entries@ == without_user(old(self).entries@, user_id).push(
                PresenceEntry { user_id, user_name, connected_at: now },
            ),
    {
        let mut kept = drop_user(&self.entries, user_id);
        kept.push(PresenceEntry { user_id, user_name, connected_at: now });
        self.entries = kept;
    }

    /// The user disconnects: their entries go; gives the name under which
    /// they were first listed, for the others to be told, if they were.
    pub fn leave(&mut self, user_id: u128) -> (r: Option<String>)
        ensures
            final(self).entries@ == without_user(old(self).entries@, user_id),
            match r {
                Some(n) => first_name(old(self).entries@, user_id) == Some(n@),
                None => first_name(old(self).entries@, user_id) is None,
            },
    {
        let name = name_of(&self.entries, user_id);
        self.entries = drop_user(&self.entries, user_id);
        name
    }
}

/// After a user joins, they are listed exactly once, and everyone else as
/// often as before.
pub proof fn lemma_join_lists_once(s: Seq<PresenceEntry>, user_id: u128, e: PresenceEntry, other: u128)
    requires
        e.user_id == user_id,
    ensures
        entries_of(without_user(s, user_id).push(e), user_id) == 1,
        other != user_id ==> entries_of(without_user(s, user_id).push(e), other) == entries_of(s, other),
{
    lemma_without_user_counts(s, user_id, other);
    let t = without_user(s, user_id).push(e);
    assert(t.drop_last() =~= without_user(s, user_id));
}

/// After a user leaves, they are not listed, and everyone else is as often
/// as before.
pub proof fn lemma_leave_lists_none(s: Seq<PresenceEntry>, user_id: u128, other: u128)
    ensures
        entries_of(without_user(s, user_id), user_id) == 0,
        other != user_id ==> entries_of(without_user(s, user_id), other) == entries_of(s, other),
{
    lemma_without_user_counts(s, user_id, other);
}


/// No user is listed twice.
pub open spec fn listed_at_most_once(s: Seq<PresenceEntry>) -> bool {
    forall|id: u128| #[trigger] entries_of(s, id) <= 1
}

/// Joining keeps every user listed at most once; the user who joined is the
/// last entry, with the name and time of the join.
pub proof fn lemma_join_keeps_users_distinct(s: Seq<PresenceEntry>, user_id: u128, e: PresenceEntry)
    requires
        e.user_id == user_id,
        listed_at_most_once(s),
    ensures
        listed_at_most_once(without_user(s, user_id).push(e)),
        without_user(s, user_id).push(e).last() == e,
{
    let t = without_user(s, user_id).push(e);
    assert forall|id: u128| #[trigger] entries_of(t, id) <= 1 by {
        lemma_join_lists_once(s, user_id, e, id);
        assert(entries_of(s, id) <= 1);
    }
}

} // verus!
