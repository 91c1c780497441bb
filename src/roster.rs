//! The administrator and banned lists, and the record they are stored in.

use vstd::prelude::*;
use crate::text::views;

verus! {

broadcast use vstd::seq_lib::lemma_seq_contains_after_push;

/// The record kept in the backing store: the login credentials, which this
/// library never changes, and the two identity lists.
pub struct Secrets {
    pub username: String,
    pub password: String,
    pub character: String,
    pub admin_list: Vec<String>,
    pub ban_list: Vec<String>,
}

/// The two lists of stable identifiers, as sequences of their texts.
pub ghost struct RosterView {
    pub administrators: Seq<Seq<char>>,
    pub banned: Seq<Seq<char>>,
}

/// `s` with every copy of `x` taken out, the rest in order.
pub open spec fn without(s: Seq<Seq<char>>, x: Seq<char>) -> Seq<Seq<char>>
    decreases s.len(),
{
    if s.len() == 0 {
        s
    } else if s.last() == x {
        without(s.drop_last(), x)
    } else {
        without(s.drop_last(), x).push(s.last())
    }
}

impl RosterView {
    pub open spec fn is_admin(self, id: Seq<char>) -> bool {
        self.administrators.contains(id)
    }

    pub open spec fn is_banned(self, id: Seq<char>) -> bool {
        self.banned.contains(id)
    }

    /// No identifier stands in both lists.
    pub open spec fn disjoint(self) -> bool {
        forall|id: Seq<char>| !(self.is_admin(id) && self.is_banned(id))
    }

    /// The roster after `id` is promoted: it joins the administrators unless it
    /// is banned or already one of them.
    pub open spec fn promoted(self, id: Seq<char>) -> RosterView {
        if self.is_banned(id) || self.is_admin(id) {
            self
        } else {
            RosterView { administrators: self.administrators.push(id), ..self }
        }
    }

    /// The roster after `id` is banned: it joins the banned unless it is an
    /// administrator or already banned.
    pub open spec fn with_ban(self, id: Seq<char>) -> RosterView {
        if self.is_admin(id) || self.is_banned(id) {
            self
        } else {
            RosterView { banned: self.banned.push(id), ..self }
        }
    }

    /// The roster after `id` is unbanned.
    pub open spec fn unbanned(self, id: Seq<char>) -> RosterView {
        RosterView { banned: without(self.banned, id), ..self }
    }
}

/// The roster that a record holds.
pub open spec fn roster_of(record: &Secrets) -> RosterView {
    RosterView { administrators: views(record.admin_list@), banned: views(record.ban_list@) }
}

/// Whatever is left after taking out `x` was there before, and `x` is gone.
pub proof fn lemma_without(s: Seq<Seq<char>>, x: Seq<char>, y: Seq<char>)
    ensures
        without(s, x).contains(y) <==> (s.contains(y) && y != x),
    decreases s.len(),
{
    if s.len() > 0 {
        let p = s.drop_last();
        lemma_without(p, x, y);
        assert(s == p.push(s.last()));
    }
}

/// Taking out what is not there changes nothing.
pub proof fn lemma_without_absent(s: Seq<Seq<char>>, x: Seq<char>)
    requires
        !s.contains(x),
    ensures
        without(s, x) == s,
    decreases s.len(),
{
    if s.len() > 0 {
        let p = s.drop_last();
        assert(s == p.push(s.last()));
        lemma_without_absent(p, x);
    }
}

/// Promoting an identifier that is not banned makes it an administrator and
/// leaves it unbanned, and the roster read back from a record that it was
/// stored into says the same.
pub proof fn lemma_promote_persists(v: RosterView, id: Seq<char>, record: Secrets)
    requires
        !v.is_banned(id),
        roster_of(&record) == v.promoted(id),
    ensures
        roster_of(&record).is_admin(id),
        !roster_of(&record).is_banned(id),
{
    if !v.is_admin(id) {
        assert(v.administrators.push(id)[v.administrators.len() as int] == id);
    }
}

/// Promoting a banned identifier changes nothing: the administrators stay as
/// they were.
pub proof fn lemma_promote_banned(v: RosterView, id: Seq<char>)
    requires
        v.is_banned(id),
    ensures
        v.promoted(id) == v,
{
}

/// Promotion, banning and unbanning never put one identifier in both lists.
pub proof fn lemma_mutations_keep_disjoint(v: RosterView, id: Seq<char>)
    requires
        v.disjoint(),
    ensures
        v.promoted(id).disjoint(),
        v.with_ban(id).disjoint(),
        v.unbanned(id).disjoint(),
{
    assert forall|x: Seq<char>| !(v.promoted(id).is_admin(x) && v.promoted(id).is_banned(x)) by {
        assert(!(v.is_admin(x) && v.is_banned(x)));
    }
    assert forall|x: Seq<char>| !(v.with_ban(id).is_admin(x) && v.with_ban(id).is_banned(x)) by {
        assert(!(v.is_admin(x) && v.is_banned(x)));
    }
    assert forall|x: Seq<char>| !(v.unbanned(id).is_admin(x) && v.unbanned(id).is_banned(x)) by {
        assert(!(v.is_admin(x) && v.is_banned(x)));
        lemma_without(v.banned, id, x);
    }
}

/// What a promotion did.
#[derive(PartialEq, Eq, Structural, Clone, Copy, Debug)]
pub enum Promotion {
    Promoted,
    AlreadyAdmin,
    RefusedBanned,
}

/// What a ban did.
#[derive(PartialEq, Eq, Structural, Clone, Copy, Debug)]
pub enum Banning {
    Banned,
    AlreadyBanned,
    RefusedAdmin,
}

/// The administrator and banned lists of stable identifiers.
pub struct Roster {
    administrators: Vec<String>,
    banned: Vec<String>,
}

impl View for Roster {
    type V = RosterView;

    closed spec fn view(&self) -> RosterView {
        RosterView { administrators: views(self.administrators@), banned: views(self.banned@) }
    }
}

fn contains(v: &Vec<String>, id: &String) -> (r: bool)
    ensures
        r == views(v@).contains(id@),
{
    let mut i: usize = 0;
    while i < v.len()
        invariant
            i <= v@.len(),
            forall|k: int| 0 <= k < i ==> v@[k]@ != id@,
        decreases v@.len() - i,
    {
        if v[i] == *id {
            proof {
                assert(views(v@)[i as int] == id@);
            }
            return true;
        }
        i = i + 1;
    }
    proof {
        if views(v@).contains(id@) {
            let k = choose|k: int| 0 <= k < views(v@).len() && views(v@)[k] == id@;
            assert(v@[k]@ == id@);
        }
    }
    false
}

fn copy_strings(v: &Vec<String>) -> (r: Vec<String>)
    ensures
        views(r@) == views(v@),
{
    let mut r: Vec<String> = Vec::new();
    let mut i: usize = 0;
    while i < v.len()
        invariant
            i <= v@.len(),
            views(r@) == views(v@).take(i as int),
        decreases v@.len() - i,
    {
        let ghost before = r@;
        let c = v[i].clone();
        r.push(c);
        proof {
            assert(c@ == v@[i as int]@);
            assert(views(r@) =~= views(before).push(v@[i as int]@));
            assert(views(v@).take(i + 1) =~= views(v@).take(i as int).push(v@[i as int]@));
        }
        i = i + 1;
    }
    proof {
        assert(views(v@).take(v@.len() as int) == views(v@));
    }
    r
}

impl Roster {
    /// A roster with both lists empty.
    pub fn new() -> (r: Roster)
        ensures
            r@.administrators.len() == 0,
            r@.banned.len() == 0,
    {
        proof {
            assert(views(Seq::<String>::empty()) == Seq::<Seq<char>>::empty());
        }
        Roster { administrators: Vec::new(), banned: Vec::new() }
    }

    /// The roster held by a record, as it stands there.
    pub fn load(record: &Secrets) -> (r: Roster)
        ensures
            r@ == roster_of(record),
    {
        Roster {
            administrators: copy_strings(&record.admin_list),
            banned: copy_strings(&record.ban_list),
        }
    }

    /// `record` with its two lists replaced by this roster's and every other
    /// field kept.
    pub fn store_into(&self, record: Secrets) -> (r: Secrets)
        ensures
            r.username == record.username,
            r.password == record.password,
            r.character == record.character,
            roster_of(&r) == self@,
    {
        Secrets {
            admin_list: copy_strings(&self.administrators),
            ban_list: copy_strings(&self.banned),
            ..record
        }
    }

    pub fn is_admin(&self, id: &String) -> (r: bool)
        ensures
            r == self@.is_admin(id@),
    {
        contains(&self.administrators, id)
    }

    pub fn is_banned(&self, id: &String) -> (r: bool)
        ensures
            r == self@.is_banned(id@),
    {
        contains(&self.banned, id)
    }

    /// Whether nobody is an administrator yet.
    pub fn has_no_admins(&self) -> (r: bool)
        ensures
            r == (self@.administrators.len() == 0),
    {
        self.administrators.len() == 0
    }

    /// Adds `id` to the administrators unless it is banned or already there.
    pub fn promote(&mut self, id: &String) -> (r: Promotion)
        ensures
            final(self)@ == old(self)@.promoted(id@),
            r == (if old(self)@.is_banned(id@) {
                Promotion::RefusedBanned
            } else if old(self)@.is_admin(id@) {
                Promotion::AlreadyAdmin
            } else {
                Promotion::Promoted
            }),
    {
        if contains(&self.banned, id) {
            Promotion::RefusedBanned
        } else if contains(&self.administrators, id) {
            Promotion::AlreadyAdmin
        } else {
            let ghost before = self.administrators@;
            self.administrators.push(id.clone());
            proof {
                assert(views(self.administrators@) == views(before).push(id@));
            }
            Promotion::Promoted
        }
    }

    /// Adds `id` to the banned unless it is an administrator or already there.
    pub fn ban(&mut self, id: &String) -> (r: Banning)
        ensures
            final(self)@ == old(self)@.with_ban(id@),
            r == (if old(self)@.is_admin(id@) {
                Banning::RefusedAdmin
            } else if old(self)@.is_banned(id@) {
                Banning::AlreadyBanned
            } else {
                Banning::Banned
            }),
    {
        if contains(&self.administrators, id) {
            Banning::RefusedAdmin
        } else if contains(&self.banned, id) {
            Banning::AlreadyBanned
        } else {
            let ghost before = self.banned@;
            self.banned.push(id.clone());
            proof {
                assert(views(self.banned@) == views(before).push(id@));
            }
            Banning::Banned
        }
    }

    /// Takes every copy of `id` out of the banned list; tells whether there was one.
    pub fn unban(&mut self, id: &String) -> (r: bool)
        ensures
            final(self)@ == old(self)@.unbanned(id@),
            r == old(self)@.is_banned(id@),
            !r ==> final(self)@ == old(self)@,
    {
        let ghost old_banned = views(self.banned@);
        let mut kept: Vec<String> = Vec::new();
        let mut found = false;
        let mut i: usize = 0;
        while i < self.banned.len()
            invariant
                i <= self.banned@.len(),
                old_banned == views(self.banned@),
                views(kept@) == without(old_banned.take(i as int), id@),
                found == old_banned.take(i as int).contains(id@),
            decreases self.banned@.len() - i,
        {
            let ghost t = old_banned.take(i + 1);
            proof {
                assert(t.drop_last() == old_banned.take(i as int));
                assert(t.last() == self.banned@[i as int]@);
                if old_banned.take(i as int).contains(id@) {
                    let k = choose|k: int| 0 <= k < i && old_banned.take(i as int)[k] == id@;
                    assert(t[k] == id@);
                }
            }
            if self.banned[i] == *id {
                found = true;
                proof {
                    assert(t[i as int] == id@);
                }
            } else {
                let ghost before = kept@;
                kept.push(self.banned[i].clone());
                proof {
                    assert(views(kept@) == views(before).push(self.banned@[i as int]@));
                    if t.contains(id@) {
                        let k = choose|k: int| 0 <= k < i + 1 && t[k] == id@;
                        assert(old_banned.take(i as int)[k] == id@);
                    }
                }
            }
            i = i + 1;
        }
        proof {
            assert(old_banned.take(old_banned.len() as int) == old_banned);
            if !found {
                lemma_without_absent(old_banned, id@);
            }
        }
        self.banned = kept;
        found
    }

    /// The administrators, in the order they were added.
    pub fn administrators(&self) -> (r: &Vec<String>)
        ensures
            views(r@) == self@.administrators,
    {
        &self.administrators
    }

    /// The banned identifiers, in the order they were added.
    pub fn banned(&self) -> (r: &Vec<String>)
        ensures
            views(r@) == self@.banned,
    {
        &self.banned
    }
}

} // verus!
