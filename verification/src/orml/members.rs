//! Member sets of the token pallet's test runtime: the fixed set of tippers
//! ten to fourteen, and an elected member set that checks every change it is
//! asked to make.
use crate::ordering::{lemma_sorted_permutation_is_sorted_values, lemma_sorted_values, sort_values, sorted_values, value_leq};
use vstd::prelude::*;
use vstd::relations::sorted_by;

verus! {

/// Accounts.
pub type AccountId = u64;

/// The sorted members ten to fourteen.
pub struct TenToFourteen {
    pub members: Vec<AccountId>,
}

impl TenToFourteen {
    /// The accounts ten, eleven, twelve, thirteen and fourteen.
    pub fn new() -> (r: Self)
        ensures
            r.members@ == seq![10u64, 11u64, 12u64, 13u64, 14u64],
    {
        TenToFourteen { members: vec![10u64, 11u64, 12u64, 13u64, 14u64] }
    }

    /// The members, sorted.
    pub fn sorted_members(&self) -> (r: Vec<AccountId>)
        ensures
            r@ == self.members@,
    {
        let mut r: Vec<AccountId> = Vec::new();
        let mut i: usize = 0;
        while i < self.members.len()
            invariant
                i <= self.members.len(),
                r@ == self.members@.take(i as int),
            decreases self.members.len() - i,
        {
            r.push(self.members[i]);
            i = i + 1;
            proof {
                assert(r@ =~= self.members@.take(i as int));
            }
        }
        proof {
            assert(self.members@.take(self.members.len() as int) =~= self.members@);
        }
        r
    }

    /// Add a member, keeping the members sorted.
    pub fn add(&mut self, new: AccountId)
        ensures
            final(self).members@ == sorted_values(old(self).members@.push(new)),
    {
        self.members.push(new);
        self.members = sort_values(&self.members);
    }

    /// The most members there can be: as many as there are.
    pub fn max_len(&self) -> (r: usize)
        ensures
            r == self.members.len(),
    {
        self.members.len()
    }

    /// The fewest members there can be.
    pub fn min_len() -> (r: usize)
        ensures
            r == 0,
    {
        0
    }
}

/// Whether a sequence of accounts is sorted.
pub open spec fn is_sorted(s: Seq<AccountId>) -> bool {
    forall|i: int, j: int| 0 <= i < j < s.len() ==> s[i] <= s[j]
}

/// Whether changing the members `old` into `new`, with `incoming` joining
/// and `outgoing` leaving, is a consistent change: the three lists are sorted,
/// no account both joins and leaves, and the old members with the incoming
/// ones are the new members with the outgoing ones.
pub open spec fn valid_change(
    old: Seq<AccountId>,
    incoming: Seq<AccountId>,
    outgoing: Seq<AccountId>,
    new: Seq<AccountId>,
) -> bool {
    &&& is_sorted(new)
    &&& is_sorted(incoming)
    &&& is_sorted(outgoing)
    &&& forall|i: int| 0 <= i < incoming.len() ==> !outgoing.contains(#[trigger] incoming[i])
    &&& (old + incoming).to_multiset() == (new + outgoing).to_multiset()
}

/// An elected member set and its prime member.
pub struct TestChangeMembers {
    pub members: Vec<AccountId>,
    pub prime: Option<AccountId>,
}

fn copy_accounts(v: &Vec<AccountId>) -> (r: Vec<AccountId>)
    ensures
        r@ == v@,
{
    let mut r: Vec<AccountId> = Vec::new();
    let mut i: usize = 0;
    while i < v.len()
        invariant
            i <= v.len(),
            r@ == v@.take(i as int),
        decreases v.len() - i,
    {
        r.push(v[i]);
        i = i + 1;
        proof {
            assert(r@ =~= v@.take(i as int));
        }
    }
    proof {
        assert(v@.take(v.len() as int) =~= v@);
    }
    r
}

fn check_sorted(v: &Vec<AccountId>) -> (r: bool)
    ensures
        r == is_sorted(v@),
{
    let mut i: usize = 1;
    if v.len() == 0 {
        return true;
    }
    while i < v.len()
        invariant
            1 <= i <= v.len(),
            forall|a: int, b: int| 0 <= a < b < i ==> v@[a] <= v@[b],
        decreases v.len() - i,
    {
        if v[i - 1] > v[i] {
            return false;
        }
        i = i + 1;
    }
    true
}

fn contains_account(v: &Vec<AccountId>, x: AccountId) -> (r: bool)
    ensures
        r == v@.contains(x),
{
    let mut i: usize = 0;
    while i < v.len()
        invariant
            i <= v.len(),
            forall|k: int| 0 <= k < i ==> v@[k] != x,
        decreases v.len() - i,
    {
        if v[i] == x {
            assert(v@[i as int] == x);
            return true;
        }
        i = i + 1;
    }
    false
}

fn concat(a: &Vec<AccountId>, b: &Vec<AccountId>) -> (r: Vec<AccountId>)
    ensures
        r@ == a@ + b@,
{
    let mut r = copy_accounts(a);
    let mut i: usize = 0;
    while i < b.len()
        invariant
            i <= b.len(),
            r@ == a@ + b@.take(i as int),
        decreases b.len() - i,
    {
        r.push(b[i]);
        i = i + 1;
        proof {
            assert(r@ =~= a@ + b@.take(i as int));
        }
    }
    proof {
        assert(b@.take(b.len() as int) =~= b@);
    }
    r
}

/// Two sequences hold the same accounts, as many times each, exactly when
/// their ascending orders agree.
proof fn lemma_same_accounts(a: Seq<AccountId>, b: Seq<AccountId>)
    ensures
        (a.to_multiset() == b.to_multiset()) == (sorted_values(a) == sorted_values(b)),
{
    lemma_sorted_values(a);
    lemma_sorted_values(b);
    if sorted_values(a) == sorted_values(b) {
        assert(a.to_multiset() == b.to_multiset());
    }
    if a.to_multiset() == b.to_multiset() {
        lemma_sorted_permutation_is_sorted_values(b, sorted_values(a));
    }
}

impl TestChangeMembers {
    /// No members and no prime.
    pub fn new() -> (r: Self)
        ensures
            r.members@ == Seq::<AccountId>::empty(),
            r.prime is None,
    {
        TestChangeMembers { members: Vec::new(), prime: None }
    }

    /// Whether `incoming`, `outgoing` and `new` describe a consistent change of
    /// the current members.
    pub fn is_valid_change(
        &self,
        incoming: &Vec<AccountId>,
        outgoing: &Vec<AccountId>,
        new: &Vec<AccountId>,
    ) -> (r: bool)
        ensures
            r == valid_change(self.members@, incoming@, outgoing@, new@),
    {
        if !check_sorted(new) || !check_sorted(incoming) || !check_sorted(outgoing) {
            return false;
        }
        let mut i: usize = 0;
        while i < incoming.len()
            invariant
                i <= incoming.len(),
                is_sorted(new@),
                is_sorted(incoming@),
                is_sorted(outgoing@),
                forall|k: int| 0 <= k < i ==> !outgoing@.contains(#[trigger] incoming@[k]),
            decreases incoming.len() - i,
        {
            if contains_account(outgoing, incoming[i]) {
                return false;
            }
            i = i + 1;
        }
        let old_plus_incoming = sort_values(&concat(&self.members, incoming));
        let new_plus_outgoing = sort_values(&concat(new, outgoing));
        proof {
            lemma_same_accounts(self.members@ + incoming@, new@ + outgoing@);
        }
        if old_plus_incoming.len() != new_plus_outgoing.len() {
            return false;
        }
        let mut k: usize = 0;
        while k < old_plus_incoming.len()
            invariant
                k <= old_plus_incoming.len(),
                old_plus_incoming.len() == new_plus_outgoing.len(),
                valid_change(self.members@, incoming@, outgoing@, new@) == (old_plus_incoming@
                    == new_plus_outgoing@),
                forall|m: int| 0 <= m < k ==> old_plus_incoming@[m] == new_plus_outgoing@[m],
            decreases old_plus_incoming.len() - k,
        {
            if old_plus_incoming[k] != new_plus_outgoing[k] {
                return false;
            }
            k = k + 1;
        }
        proof {
            assert(old_plus_incoming@ =~= new_plus_outgoing@);
        }
        true
    }

    /// Change the members: `new` becomes the member set and the prime is
    /// cleared.
    pub fn change_members_sorted(
        &mut self,
        incoming: &Vec<AccountId>,
        outgoing: &Vec<AccountId>,
        new: &Vec<AccountId>,
    )
        requires
            valid_change(old(self).members@, incoming@, outgoing@, new@),
        ensures
            final(self).members@ == new@,
            final(self).prime is None,
    {
        self.members = copy_accounts(new);
        self.prime = None;
    }

    /// Set the prime member.
    pub fn set_prime(&mut self, who: Option<AccountId>)
        ensures
            final(self).prime == who,
            final(self).members@ == old(self).members@,
    {
        self.prime = who;
    }
}

} // verus!
