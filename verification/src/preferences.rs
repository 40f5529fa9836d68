//! The account that last served each pool. Pool preferences affect new sessions only; existing
//! threads keep their own account.

use crate::account_pool::AccountModel;
use crate::account_pool::AccountPool;
use crate::account_pool::AccountSelection;
use crate::account_pool::ManagedAccount;
use crate::account_pool::PoolModel;
use crate::account_pool::SelectionModel;
use crate::lists;
use crate::text;
use vstd::prelude::*;

verus! {

/// The account that last served one pool.
#[derive(Clone, Debug, PartialEq, Eq)]
pub struct Preference {
    pub pool: String,
    pub account: ManagedAccount,
}

/// The account that last served each pool.
#[derive(Clone, Debug, PartialEq, Eq)]
pub struct Preferences {
    entries: Vec<Preference>,
}

/// The preferences in a list, by pool.
pub open spec fn preference_map(entries: Seq<Preference>) -> Map<Seq<char>, AccountModel> {
    Map::new(
        |pool: Seq<char>|
            exists|i: int| 0 <= i < entries.len() && #[trigger] entries[i].pool@ == pool,
        |pool: Seq<char>|
            entries[choose|i: int|
                0 <= i < entries.len() && #[trigger] entries[i].pool@ == pool].account@,
    )
}

/// No pool is listed twice.
pub open spec fn distinct(entries: Seq<Preference>) -> bool {
    forall|i: int, j: int|
        #![trigger entries[i].pool@, entries[j].pool@]
        0 <= i < j < entries.len() ==> entries[i].pool@ != entries[j].pool@
}

/// An entry of a list without repetition is what the list maps its pool to.
proof fn lemma_entry(entries: Seq<Preference>, i: int)
    requires
        distinct(entries),
        0 <= i < entries.len(),
    ensures
        preference_map(entries).contains_key(entries[i].pool@),
        preference_map(entries)[entries[i].pool@] == entries[i].account@,
{
    let pool = entries[i].pool@;
    let j = choose|j: int| 0 <= j < entries.len() && #[trigger] entries[j].pool@ == pool;
    assert(entries[i].pool@ == pool);
    if i < j {
        assert(entries[i].pool@ != entries[j].pool@);
    } else if j < i {
        assert(entries[j].pool@ != entries[i].pool@);
    }
}

/// Setting one entry of a list without repetition sets that pool.
proof fn lemma_set_entry(
    before: Seq<Preference>,
    after: Seq<Preference>,
    pool: Seq<char>,
    account: AccountModel,
    i: int,
)
    requires
        distinct(before),
        distinct(after),
        0 <= i < after.len(),
        before.len() <= after.len() <= before.len() + 1,
        after.len() == before.len() + 1 ==> i == before.len(),
        after[i].pool@ == pool,
        after[i].account@ == account,
        forall|j: int| 0 <= j < before.len() && j != i ==> #[trigger] after[j] == before[j],
        i < before.len() ==> before[i].pool@ == pool,
    ensures
        preference_map(after) == preference_map(before).insert(pool, account),
{
    let want = preference_map(before).insert(pool, account);
    assert forall|key: Seq<char>|
        preference_map(after).contains_key(key) <==> want.contains_key(key) by {
        if want.contains_key(key) && key != pool {
            let j = choose|j: int| 0 <= j < before.len() && #[trigger] before[j].pool@ == key;
            assert(after[j].pool@ == key);
        }
        if preference_map(after).contains_key(key) && key != pool {
            let j = choose|j: int| 0 <= j < after.len() && #[trigger] after[j].pool@ == key;
            assert(before[j].pool@ == key);
        }
    }
    assert forall|key: Seq<char>| preference_map(after).contains_key(key) implies preference_map(
        after,
    )[key] == want[key] by {
        let j = choose|j: int| 0 <= j < after.len() && #[trigger] after[j].pool@ == key;
        lemma_entry(after, j);
        if key != pool {
            lemma_entry(before, j);
        }
    }
    assert(preference_map(after) =~= want);
}

impl View for Preferences {
    type V = Map<Seq<char>, AccountModel>;

    closed spec fn view(&self) -> Map<Seq<char>, AccountModel> {
        preference_map(self.entries@)
    }
}

/// Some pool of the list has the name.
pub open spec fn listed(pools: Seq<PoolModel>, name: Seq<char>) -> bool {
    exists|i: int| 0 <= i < pools.len() && #[trigger] pools[i].name == name
}

/// Whether some pool of the list has the name.
fn lists_pool(pools: &Vec<AccountPool>, name: &str) -> (found: bool)
    ensures
        found == listed(text::views(pools@), name@),
{
    let ghost models = text::views(pools@);
    let mut i: usize = 0;
    while i < pools.len()
        invariant
            i <= pools.len(),
            models == text::views(pools@),
            forall|j: int| 0 <= j < i ==> #[trigger] models[j].name != name@,
        decreases pools.len() - i,
    {
        if text::same_text(pools[i].name.as_str(), name) {
            assert(models[i as int].name == name@);
            return true;
        }
        i = i + 1;
    }
    false
}

impl Preferences {
    /// No pool is listed twice.
    pub closed spec fn wf(self) -> bool {
        distinct(self.entries@)
    }

    /// No preferences.
    pub fn new() -> (preferences: Preferences)
        ensures
            preferences.wf(),
            preferences@ == Map::<Seq<char>, AccountModel>::empty(),
    {
        let preferences: Preferences = Preferences { entries: Vec::new() };
        assert(preferences@ =~= Map::empty());
        preferences
    }

    /// The preferences as a list, each pool once.
    pub fn entries(&self) -> (entries: &Vec<Preference>)
        requires
            self.wf(),
        ensures
            distinct(entries@),
            preference_map(entries@) == self@,
    {
        &self.entries
    }

    /// The account that last served a pool.
    pub fn get(&self, pool: &str) -> (account: Option<&ManagedAccount>)
        requires
            self.wf(),
        ensures
            (match account {
                Some(account) => Some(account@),
                None => None,
            }) == (if self@.contains_key(pool@) {
                Some(self@[pool@])
            } else {
                None
            }),
    {
        let mut i: usize = 0;
        while i < self.entries.len()
            invariant
                i <= self.entries.len(),
                self.wf(),
                forall|j: int| 0 <= j < i ==> #[trigger] self.entries@[j].pool@ != pool@,
            decreases self.entries.len() - i,
        {
            if text::same_text(self.entries[i].pool.as_str(), pool) {
                proof {
                    lemma_entry(self.entries@, i as int);
                }
                return Some(&self.entries[i].account);
            }
            i = i + 1;
        }
        None
    }

    /// Remembers the account that served a pool.
    pub fn insert(&mut self, pool: &str, account: &ManagedAccount)
        requires
            old(self).wf(),
        ensures
            final(self).wf(),
            final(self)@ == old(self)@.insert(pool@, account@),
    {
        let ghost before = self.entries@;
        let mut i: usize = 0;
        while i < self.entries.len()
            invariant
                i <= self.entries.len(),
                self.entries@ == before,
                distinct(before),
                before == old(self).entries@,
                forall|j: int| 0 <= j < i ==> #[trigger] before[j].pool@ != pool@,
            decreases self.entries.len() - i,
        {
            if text::same_text(self.entries[i].pool.as_str(), pool) {
                let entry: Preference = Preference {
                    pool: pool.to_owned(),
                    account: account.clone(),
                };
                self.entries.set(i, entry);
                proof {
                    let after = self.entries@;
                    assert(after == before.update(i as int, entry));
                    assert forall|j: int| 0 <= j < after.len() implies #[trigger] after[j].pool@
                        == before[j].pool@ by {}
                    assert(distinct(after));
                    lemma_set_entry(before, after, pool@, account@, i as int);
                }
                return ;
            }
            i = i + 1;
        }
        let entry: Preference = Preference { pool: pool.to_owned(), account: account.clone() };
        self.entries.push(entry);
        proof {
            let after = self.entries@;
            assert(after == before.push(entry));
            assert(distinct(after));
            lemma_set_entry(before, after, pool@, account@, before.len() as int);
        }
    }

    /// Keeps the preferences of the listed pools.
    pub fn retain(&mut self, pools: &Vec<AccountPool>)
        requires
            old(self).wf(),
        ensures
            final(self).wf(),
            final(self)@ == old(self)@.restrict(
                Set::new(|name: Seq<char>| listed(text::views(pools@), name)),
            ),
    {
        let ghost before = self.entries@;
        let ghost models = text::views(pools@);
        let mut kept: Preferences = Preferences::new();
        let mut i: usize = 0;
        assert(before.take(0) =~= Seq::empty());
        assert(preference_map(before.take(0)) =~= Map::empty());
        assert(kept@ =~= preference_map(before.take(0)).restrict(
            Set::new(|name: Seq<char>| listed(models, name)),
        ));
        while i < self.entries.len()
            invariant
                i <= self.entries.len(),
                self.entries@ == before,
                before == old(self).entries@,
                distinct(before),
                kept.wf(),
                models == text::views(pools@),
                kept@ == preference_map(before.take(i as int)).restrict(
                    Set::new(|name: Seq<char>| listed(models, name)),
                ),
            decreases self.entries.len() - i,
        {
            proof {
                let shorter = before.take(i as int);
                let longer = before.take(i + 1);
                let members = Set::new(|name: Seq<char>| listed(models, name));
                let pool = before[i as int].pool@;
                let account = before[i as int].account@;
                assert(longer == shorter.push(before[i as int]));
                assert forall|j: int, k: int|
                    #![trigger shorter[j].pool@, shorter[k].pool@]
                    0 <= j < k < shorter.len() implies shorter[j].pool@ != shorter[k].pool@ by {
                    assert(before[j].pool@ != before[k].pool@);
                }
                assert forall|j: int, k: int|
                    #![trigger longer[j].pool@, longer[k].pool@]
                    0 <= j < k < longer.len() implies longer[j].pool@ != longer[k].pool@ by {
                    assert(before[j].pool@ != before[k].pool@);
                }
                lemma_set_entry(shorter, longer, pool, account, i as int);
                if listed(models, pool) {
                    assert(preference_map(longer).restrict(members) =~= preference_map(
                        shorter,
                    ).restrict(members).insert(pool, account));
                } else {
                    assert(preference_map(longer).restrict(members) =~= preference_map(
                        shorter,
                    ).restrict(members));
                }
            }
            if lists_pool(pools, self.entries[i].pool.as_str()) {
                kept.insert(self.entries[i].pool.as_str(), &self.entries[i].account);
            }
            i = i + 1;
        }
        assert(before.take(i as int) =~= before);
        self.entries = kept.entries;
    }
}

/// The preferences of a list; a later entry for a pool replaces an earlier one.
pub open spec fn collected(entries: Seq<Preference>) -> Map<Seq<char>, AccountModel>
    decreases entries.len(),
{
    if entries.len() == 0 {
        Map::empty()
    } else {
        collected(entries.drop_last()).insert(entries.last().pool@, entries.last().account@)
    }
}

/// Collects preferences from a list; a later entry for a pool replaces an earlier one.
pub fn collect_preferences(entries: &Vec<Preference>) -> (preferences: Preferences)
    ensures
        preferences.wf(),
        preferences@ == collected(entries@),
{
    let mut preferences: Preferences = Preferences::new();
    let mut i: usize = 0;
    while i < entries.len()
        invariant
            i <= entries.len(),
            preferences.wf(),
            preferences@ == collected(entries@.take(i as int)),
        decreases entries.len() - i,
    {
        assert(entries@.take(i + 1).drop_last() =~= entries@.take(i as int));
        preferences.insert(entries[i].pool.as_str(), &entries[i].account);
        i = i + 1;
    }
    assert(entries@.take(i as int) =~= entries@);
    preferences
}

/// The position of the account that last served a pool, if it is still a member under the same
/// alias.
pub open spec fn preferred(
    preferences: Option<Map<Seq<char>, AccountModel>>,
    selection: SelectionModel,
    accounts: Seq<AccountModel>,
) -> Option<int> {
    match (preferences, selection) {
        (Some(map), SelectionModel::Pool(pool)) => if map.contains_key(pool) {
            lists::first(Seq::new(accounts.len(), |i: int| accounts[i].names(map[pool])))
        } else {
            None
        },
        _ => None,
    }
}

/// The position of a login under its alias.
fn position_named(accounts: &Vec<ManagedAccount>, saved: &ManagedAccount) -> (found: Option<usize>)
    ensures
        (match found {
            Some(i) => Some(i as int),
            None => None,
        }) == lists::first(
            Seq::new(
                text::views(accounts@).len(),
                |i: int| text::views(accounts@)[i].names(saved@),
            ),
        ),
        found matches Some(i) ==> i < accounts.len(),
{
    let ghost models = text::views(accounts@);
    let ghost flags = Seq::new(models.len(), |i: int| models[i].names(saved@));
    let mut i: usize = 0;
    while i < accounts.len()
        invariant
            i <= accounts.len(),
            models == text::views(accounts@),
            flags == Seq::new(models.len(), |i: int| models[i].names(saved@)),
            forall|j: int| 0 <= j < i ==> !#[trigger] flags[j],
        decreases accounts.len() - i,
    {
        if accounts[i].same_named(saved) {
            proof {
                lists::lemma_first_is(flags, i as int);
            }
            return Some(i);
        }
        i = i + 1;
    }
    proof {
        lists::lemma_first_none(flags);
    }
    None
}

/// The position of the account that last served a pool. This optional hint never prevents startup
/// if absent or externally damaged.
pub fn preferred_account(
    preferences: &Option<Preferences>,
    selection: &AccountSelection,
    accounts: &Vec<ManagedAccount>,
) -> (found: Option<usize>)
    requires
        preferences matches Some(preferences) ==> preferences.wf(),
    ensures
        (match found {
            Some(i) => Some(i as int),
            None => None,
        }) == preferred(
            text::opt_view(*preferences),
            selection@,
            text::views(accounts@),
        ),
        found matches Some(i) ==> i < accounts.len(),
{
    let pool: &String = match selection {
        AccountSelection::Pool(pool) => pool,
        AccountSelection::Account(_) => {
            return None;
        },
    };
    let preferences: &Preferences = match preferences {
        Some(preferences) => preferences,
        None => {
            return None;
        },
    };
    let saved: &ManagedAccount = match preferences.get(pool.as_str()) {
        Some(saved) => saved,
        None => {
            return None;
        },
    };
    position_named(accounts, saved)
}

/// Every pool prefers the account of its last entry.
pub proof fn law_last_entry_counts(entries: Seq<Preference>, next: Preference, pool: Seq<char>)
    ensures
        collected(entries.push(next)).contains_key(next.pool@),
        collected(entries.push(next))[next.pool@] == next.account@,
        pool != next.pool@ ==> (collected(entries.push(next)).contains_key(pool) <==> collected(
            entries,
        ).contains_key(pool)),
        pool != next.pool@ && collected(entries).contains_key(pool) ==> collected(
            entries.push(next),
        )[pool] == collected(entries)[pool],
        !collected(Seq::empty()).contains_key(pool),
{
    assert(entries.push(next).drop_last() =~= entries);
}

/// A pool's preference is for the first member with the alias, user and workspace that were kept for
/// it; a single account has none, and neither has a pool without an entry or whose entry is no
/// member.
pub proof fn law_preferred_member(
    preferences: Map<Seq<char>, AccountModel>,
    pool: Seq<char>,
    accounts: Seq<AccountModel>,
    i: int,
)
    ensures
        preferred(Some(preferences), SelectionModel::Account(pool), accounts) is None,
        preferred(None, SelectionModel::Pool(pool), accounts) is None,
        !preferences.contains_key(pool) ==> preferred(
            Some(preferences),
            SelectionModel::Pool(pool),
            accounts,
        ) is None,
        preferences.contains_key(pool) ==> {
            let wanted = preferences[pool];
            preferred(Some(preferences), SelectionModel::Pool(pool), accounts) == Some(i) <==> {
                &&& 0 <= i < accounts.len()
                &&& accounts[i].alias == wanted.alias && accounts[i].user_id == wanted.user_id
                    && accounts[i].workspace_id == wanted.workspace_id
                &&& forall|j: int|
                    0 <= j < i ==> (#[trigger] accounts[j]).alias != wanted.alias
                        || accounts[j].user_id != wanted.user_id || accounts[j].workspace_id
                        != wanted.workspace_id
            }
        },
{
    if preferences.contains_key(pool) {
        let wanted = preferences[pool];
        let flags = Seq::new(accounts.len(), |k: int| accounts[k].names(wanted));
        lists::lemma_first(flags);
        if lists::first(flags) == Some(i) {
            assert forall|j: int| 0 <= j < i implies !(#[trigger] accounts[j]).names(wanted) by {
                assert(!flags[j]);
            }
        }
        if 0 <= i < accounts.len() && accounts[i].names(wanted) && (forall|j: int|
            0 <= j < i ==> !(#[trigger] accounts[j]).names(wanted)) {
            lists::lemma_first_is(flags, i);
        }
    }
}

/// A pool is listed by its name: no name is in an empty list, and one more pool adds its own name
/// and no other.
pub proof fn law_pools_are_listed_by_name(pools: Seq<PoolModel>, pool: PoolModel, name: Seq<char>)
    ensures
        !listed(Seq::empty(), name),
        listed(pools.push(pool), name) <==> listed(pools, name) || pool.name == name,
{
    let more = pools.push(pool);
    assert(more[pools.len() as int] == pool);
    if listed(pools, name) {
        let i = choose|i: int| 0 <= i < pools.len() && #[trigger] pools[i].name == name;
        assert(more[i].name == name);
    }
    if listed(more, name) {
        let i = choose|i: int| 0 <= i < more.len() && #[trigger] more[i].name == name;
        if i < pools.len() {
            assert(pools[i].name == name);
        }
    }
}

} // verus!
