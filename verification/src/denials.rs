//! Accounts that have just been refused by the model service, and until when.

use crate::account_pool::AccountModel;
use crate::account_pool::ManagedAccount;
use crate::text;
use vstd::prelude::*;

verus! {

/// One refused login.
#[derive(Debug, PartialEq, Eq)]
pub struct Denial {
    user_id: String,
    workspace_id: String,
    until: i64,
}

/// The refused logins of a session. Account identities, rather than changing pool positions, own
/// the evidence.
#[derive(Debug, PartialEq, Eq)]
pub struct Denials {
    entries: Vec<Denial>,
}

impl Denial {
    /// The refused user and workspace.
    pub closed spec fn identity(self) -> (Seq<char>, Seq<char>) {
        (self.user_id@, self.workspace_id@)
    }

    /// When the refusal lapses.
    pub closed spec fn until(self) -> i64 {
        self.until
    }

    /// Whether the entry is about an account's login.
    fn is_of(&self, account: &ManagedAccount) -> (same: bool)
        ensures
            same == (self.identity() == account@.identity()),
    {
        text::same_text(self.user_id.as_str(), account.user_id.as_str()) && text::same_text(
            self.workspace_id.as_str(),
            account.workspace_id.as_str(),
        )
    }
}

/// The refusals in a list, by login.
pub open spec fn denial_map(entries: Seq<Denial>) -> Map<(Seq<char>, Seq<char>), i64> {
    Map::new(
        |identity: (Seq<char>, Seq<char>)|
            exists|i: int| 0 <= i < entries.len() && #[trigger] entries[i].identity() == identity,
        |identity: (Seq<char>, Seq<char>)|
            entries[choose|i: int|
                0 <= i < entries.len() && #[trigger] entries[i].identity() == identity].until(),
    )
}

/// No login is listed twice.
pub open spec fn distinct(entries: Seq<Denial>) -> bool {
    forall|i: int, j: int|
        #![trigger entries[i].identity(), entries[j].identity()]
        0 <= i < j < entries.len() ==> entries[i].identity() != entries[j].identity()
}

/// An entry of a list without repetition is what the list maps its login to.
proof fn lemma_entry(entries: Seq<Denial>, i: int)
    requires
        distinct(entries),
        0 <= i < entries.len(),
    ensures
        denial_map(entries).contains_key(entries[i].identity()),
        denial_map(entries)[entries[i].identity()] == entries[i].until(),
{
    let identity = entries[i].identity();
    let j = choose|j: int| 0 <= j < entries.len() && #[trigger] entries[j].identity() == identity;
    assert(entries[i].identity() == identity);
    if i < j {
        assert(entries[i].identity() != entries[j].identity());
    } else if j < i {
        assert(entries[j].identity() != entries[i].identity());
    }
}

impl View for Denials {
    type V = Map<(Seq<char>, Seq<char>), i64>;

    closed spec fn view(&self) -> Map<(Seq<char>, Seq<char>), i64> {
        denial_map(self.entries@)
    }
}

/// Some account of the list has the login.
pub open spec fn listed(accounts: Seq<AccountModel>, identity: (Seq<char>, Seq<char>)) -> bool {
    exists|i: int| 0 <= i < accounts.len() && #[trigger] accounts[i].identity() == identity
}

impl Denials {
    /// No login is listed twice.
    pub closed spec fn wf(self) -> bool {
        distinct(self.entries@)
    }

    /// No refusals.
    pub fn new() -> (denials: Denials)
        ensures
            denials.wf(),
            denials@ == Map::<(Seq<char>, Seq<char>), i64>::empty(),
    {
        let denials: Denials = Denials { entries: Vec::new() };
        assert(denials@ =~= Map::empty());
        denials
    }

    /// Records that an account was refused.
    pub fn insert(&mut self, account: &ManagedAccount, until: i64)
        requires
            old(self).wf(),
        ensures
            final(self).wf(),
            final(self)@ == old(self)@.insert(account@.identity(), until),
    {
        let ghost before = self.entries@;
        let ghost identity = account@.identity();
        let mut i: usize = 0;
        while i < self.entries.len()
            invariant
                i <= self.entries.len(),
                self.entries@ == before,
                distinct(before),
                identity == account@.identity(),
                before == old(self).entries@,
                forall|j: int| 0 <= j < i ==> #[trigger] before[j].identity() != identity,
            decreases self.entries.len() - i,
        {
            if self.entries[i].is_of(account) {
                let entry: Denial = Denial {
                    user_id: account.user_id.clone(),
                    workspace_id: account.workspace_id.clone(),
                    until,
                };
                self.entries.set(i, entry);
                proof {
                    let after = self.entries@;
                    assert(after == before.update(i as int, entry));
                    assert forall|j: int| 0 <= j < after.len() implies
                        #[trigger] after[j].identity() == before[j].identity() by {}
                    assert(distinct(after));
                    lemma_same_map(before, after, identity, until, i as int);
                }
                return ;
            }
            i = i + 1;
        }
        let entry: Denial = Denial {
            user_id: account.user_id.clone(),
            workspace_id: account.workspace_id.clone(),
            until,
        };
        self.entries.push(entry);
        proof {
            let after = self.entries@;
            assert(after == before.push(entry));
            assert(distinct(after));
            lemma_same_map(before, after, identity, until, before.len() as int);
        }
    }

    /// Forgets a refusal.
    pub fn remove(&mut self, account: &ManagedAccount)
        requires
            old(self).wf(),
        ensures
            final(self).wf(),
            final(self)@ == old(self)@.remove(account@.identity()),
    {
        let ghost before = self.entries@;
        let ghost identity = account@.identity();
        let mut i: usize = 0;
        while i < self.entries.len()
            invariant
                i <= self.entries.len(),
                self.entries@ == before,
                before == old(self).entries@,
                distinct(before),
                identity == account@.identity(),
                forall|j: int| 0 <= j < i ==> #[trigger] before[j].identity() != identity,
            decreases self.entries.len() - i,
        {
            if self.entries[i].is_of(account) {
                let _ = self.entries.remove(i);
                proof {
                    let after = self.entries@;
                    assert(after == before.remove(i as int));
                    assert forall|j: int, k: int|
                        #![trigger after[j].identity(), after[k].identity()]
                        0 <= j < k < after.len() implies after[j].identity()
                        != after[k].identity() by {
                        let j0 = if j < i { j } else { j + 1 };
                        let k0 = if k < i { k } else { k + 1 };
                        assert(before[j0].identity() != before[k0].identity());
                    }
                    let want = denial_map(before).remove(identity);
                    assert forall|key: (Seq<char>, Seq<char>)|
                        denial_map(after).contains_key(key) <==> want.contains_key(key) by {
                        if want.contains_key(key) {
                            let j = choose|j: int|
                                0 <= j < before.len() && #[trigger] before[j].identity() == key;
                            let j1 = if j < i { j } else { j - 1 };
                            assert(before[i as int].identity() == identity);
                            assert(after[j1].identity() == key);
                        }
                        if denial_map(after).contains_key(key) {
                            let j = choose|j: int|
                                0 <= j < after.len() && #[trigger] after[j].identity() == key;
                            let j0 = if j < i { j } else { j + 1 };
                            assert(before[j0].identity() == key);
                            if key == identity {
                                if j0 < i {
                                    assert(before[j0].identity() != before[i as int].identity());
                                } else {
                                    assert(before[i as int].identity() != before[j0].identity());
                                }
                            }
                        }
                    }
                    assert forall|key: (Seq<char>, Seq<char>)|
                        denial_map(after).contains_key(key) implies denial_map(after)[key]
                        == want[key] by {
                        let j = choose|j: int|
                            0 <= j < after.len() && #[trigger] after[j].identity() == key;
                        lemma_entry(after, j);
                        let j0 = if j < i { j } else { j + 1 };
                        lemma_entry(before, j0);
                    }
                    assert(denial_map(after) =~= want);
                }
                return ;
            }
            i = i + 1;
        }
        proof {
            assert(!denial_map(before).contains_key(identity));
            assert(denial_map(before) =~= denial_map(before).remove(identity));
        }
    }

    /// Keeps the refusals of the listed accounts.
    pub fn retain(&mut self, accounts: &Vec<ManagedAccount>)
        requires
            old(self).wf(),
        ensures
            final(self).wf(),
            final(self)@ == old(self)@.restrict(
                Set::new(
                    |identity: (Seq<char>, Seq<char>)| listed(text::views(accounts@), identity),
                ),
            ),
    {
        let ghost before = self.entries@;
        let ghost models = text::views(accounts@);
        let mut kept: Vec<Denial> = Vec::new();
        let mut i: usize = 0;
        while i < self.entries.len()
            invariant
                i <= self.entries.len(),
                self.entries@ == before,
                before == old(self).entries@,
                distinct(before),
                distinct(kept@),
                models == text::views(accounts@),
                forall|j: int|
                    0 <= j < kept@.len() ==> exists|k: int|
                        0 <= k < i && #[trigger] before[k].identity()
                            == (#[trigger] kept@[j]).identity() && before[k].until()
                            == kept@[j].until() && listed(models, kept@[j].identity()),
                forall|k: int|
                    0 <= k < i && listed(models, (#[trigger] before[k]).identity()) ==> exists|
                        j: int,
                    |
                        0 <= j < kept@.len() && (#[trigger] kept@[j]).identity()
                            == before[k].identity(),
            decreases self.entries.len() - i,
        {
            let ghost kept_before = kept@;
            if lists_identity(accounts, &self.entries[i]) {
                let entry: Denial = Denial {
                    user_id: self.entries[i].user_id.clone(),
                    workspace_id: self.entries[i].workspace_id.clone(),
                    until: self.entries[i].until,
                };
                kept.push(entry);
                proof {
                    assert(kept@[kept_before.len() as int].identity()
                        == before[i as int].identity());
                    assert forall|j: int, k: int|
                        #![trigger kept@[j].identity(), kept@[k].identity()]
                        0 <= j < k < kept@.len() implies kept@[j].identity()
                        != kept@[k].identity() by {
                        if k == kept_before.len() {
                            assert(kept_before[j] == kept@[j]);
                            let m = choose|m: int|
                                0 <= m < i && #[trigger] before[m].identity()
                                    == kept_before[j].identity() && before[m].until()
                                    == kept_before[j].until() && listed(
                                    models,
                                    kept_before[j].identity(),
                                );
                            assert(before[m].identity() != before[i as int].identity());
                        } else {
                            assert(kept_before[j].identity() != kept_before[k].identity());
                        }
                    }
                    assert forall|j: int| 0 <= j < kept@.len() implies exists|k: int|
                        0 <= k < i + 1 && #[trigger] before[k].identity()
                            == (#[trigger] kept@[j]).identity() && before[k].until()
                            == kept@[j].until() && listed(models, kept@[j].identity()) by {
                        if j < kept_before.len() {
                            assert(kept_before[j] == kept@[j]);
                        }
                    }
                    assert forall|k: int|
                        0 <= k < i + 1 && listed(
                            models,
                            (#[trigger] before[k]).identity(),
                        ) implies exists|j: int|
                        0 <= j < kept@.len() && (#[trigger] kept@[j]).identity()
                            == before[k].identity() by {
                        if k < i {
                            let j = choose|j: int|
                                0 <= j < kept_before.len() && (
                                #[trigger] kept_before[j]).identity() == before[k].identity();
                            assert(kept@[j].identity() == before[k].identity());
                        }
                    }
                }
            }
            i = i + 1;
        }
        self.entries = kept;
        proof {
            let after = self.entries@;
            let members = Set::new(
                |identity: (Seq<char>, Seq<char>)| listed(models, identity),
            );
            let want = denial_map(before).restrict(members);
            assert forall|key: (Seq<char>, Seq<char>)|
                denial_map(after).contains_key(key) <==> want.contains_key(key) by {
                if denial_map(after).contains_key(key) {
                    let j = choose|j: int|
                        0 <= j < after.len() && #[trigger] after[j].identity() == key;
                    assert(after[j].identity() == key);
                }
                if want.contains_key(key) {
                    let k = choose|k: int|
                        0 <= k < before.len() && #[trigger] before[k].identity() == key;
                    assert(listed(models, before[k].identity()));
                }
            }
            assert forall|key: (Seq<char>, Seq<char>)|
                denial_map(after).contains_key(key) implies denial_map(after)[key]
                == want[key] by {
                let j = choose|j: int| 0 <= j < after.len() && #[trigger] after[j].identity() == key;
                lemma_entry(after, j);
                let k = choose|k: int|
                    0 <= k < before.len() && #[trigger] before[k].identity()
                        == after[j].identity() && before[k].until() == after[j].until() && listed(
                        models,
                        after[j].identity(),
                    );
                lemma_entry(before, k);
            }
            assert(denial_map(after) =~= want);
        }
    }

    /// Whether an account is refused at a time.
    pub fn denies(&self, account: &ManagedAccount, now: i64) -> (denied: bool)
        requires
            self.wf(),
        ensures
            denied == (self@.contains_key(account@.identity()) && self@[account@.identity()] > now),
    {
        let mut i: usize = 0;
        while i < self.entries.len()
            invariant
                i <= self.entries.len(),
                self.wf(),
                forall|j: int|
                    0 <= j < i ==> #[trigger] self.entries@[j].identity() != account@.identity(),
            decreases self.entries.len() - i,
        {
            if self.entries[i].is_of(account) {
                proof {
                    lemma_entry(self.entries@, i as int);
                }
                return self.entries[i].until > now;
            }
            i = i + 1;
        }
        false
    }
}

/// Whether an account of the list has the login of a refusal.
fn lists_identity(accounts: &Vec<ManagedAccount>, denial: &Denial) -> (found: bool)
    ensures
        found == listed(text::views(accounts@), denial.identity()),
{
    let ghost models = text::views(accounts@);
    let mut i: usize = 0;
    while i < accounts.len()
        invariant
            i <= accounts.len(),
            models == text::views(accounts@),
            forall|j: int| 0 <= j < i ==> #[trigger] models[j].identity() != denial.identity(),
        decreases accounts.len() - i,
    {
        if denial.is_of(&accounts[i]) {
            assert(models[i as int].identity() == denial.identity());
            return true;
        }
        i = i + 1;
    }
    false
}

/// Setting one entry of a list without repetition sets that login.
proof fn lemma_same_map(
    before: Seq<Denial>,
    after: Seq<Denial>,
    identity: (Seq<char>, Seq<char>),
    until: i64,
    i: int,
)
    requires
        distinct(before),
        distinct(after),
        0 <= i < after.len(),
        before.len() <= after.len() <= before.len() + 1,
        after.len() == before.len() + 1 ==> i == before.len(),
        after[i].identity() == identity,
        after[i].until() == until,
        forall|j: int| 0 <= j < before.len() && j != i ==> #[trigger] after[j] == before[j],
        i < before.len() ==> before[i].identity() == identity,
    ensures
        denial_map(after) == denial_map(before).insert(identity, until),
{
    let want = denial_map(before).insert(identity, until);
    assert forall|key: (Seq<char>, Seq<char>)|
        denial_map(after).contains_key(key) <==> want.contains_key(key) by {
        if want.contains_key(key) && key != identity {
            let j = choose|j: int| 0 <= j < before.len() && #[trigger] before[j].identity() == key;
            assert(after[j].identity() == key);
        }
        if denial_map(after).contains_key(key) && key != identity {
            let j = choose|j: int| 0 <= j < after.len() && #[trigger] after[j].identity() == key;
            assert(before[j].identity() == key);
        }
    }
    assert forall|key: (Seq<char>, Seq<char>)| denial_map(after).contains_key(key) implies
        denial_map(after)[key] == want[key] by {
        let j = choose|j: int| 0 <= j < after.len() && #[trigger] after[j].identity() == key;
        lemma_entry(after, j);
        if key != identity {
            lemma_entry(before, j);
        }
    }
    assert(denial_map(after) =~= want);
}

/// An account is listed by its login: no login is in an empty list, and one more account adds its
/// own login and no other.
pub proof fn law_accounts_are_listed_by_login(
    accounts: Seq<AccountModel>,
    account: AccountModel,
    user_id: Seq<char>,
    workspace_id: Seq<char>,
)
    ensures
        !listed(Seq::empty(), (user_id, workspace_id)),
        listed(accounts.push(account), (user_id, workspace_id)) <==> listed(
            accounts,
            (user_id, workspace_id),
        ) || (account.user_id == user_id && account.workspace_id == workspace_id),
{
    let identity = (user_id, workspace_id);
    let more = accounts.push(account);
    assert(more[accounts.len() as int] == account);
    if listed(accounts, identity) {
        let i = choose|i: int|
            0 <= i < accounts.len() && #[trigger] accounts[i].identity() == identity;
        assert(more[i].identity() == identity);
    }
    if account.identity() == identity {
        assert(more[accounts.len() as int].identity() == identity);
    }
    if listed(more, identity) {
        let i = choose|i: int| 0 <= i < more.len() && #[trigger] more[i].identity() == identity;
        if i < accounts.len() {
            assert(accounts[i].identity() == identity);
        }
    }
}

} // verus!
