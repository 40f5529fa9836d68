//! The accounts that a selection stands for, and the pool's policy.

use crate::account_pool;
use crate::account_pool::AccountModel;
use crate::account_pool::AccountPoolConfig;
use crate::account_pool::AccountSelection;
use crate::account_pool::ConfigModel;
use crate::account_pool::ManagedAccount;
use crate::account_pool::SelectionModel;
use crate::lists;
use crate::storage;
use crate::storage::StoreError;
use crate::text;
use vstd::prelude::*;

verus! {

/// The accounts of a selection in order, and whether banked resets may be spent for them.
#[derive(Debug, PartialEq, Eq)]
pub struct PoolMembership {
    pub accounts: Vec<ManagedAccount>,
    pub redeem_weekly: bool,
}

/// A `PoolMembership` as a mathematical value.
pub struct MembershipModel {
    pub accounts: Seq<AccountModel>,
    pub redeem_weekly: bool,
}

impl View for PoolMembership {
    type V = MembershipModel;

    open spec fn view(&self) -> MembershipModel {
        MembershipModel {
            accounts: text::views(self.accounts@),
            redeem_weekly: self.redeem_weekly,
        }
    }
}

impl Clone for PoolMembership {
    fn clone(&self) -> (copy: Self)
        ensures
            copy@ == self@,
    {
        PoolMembership {
            accounts: account_pool::clone_accounts(&self.accounts),
            redeem_weekly: self.redeem_weekly,
        }
    }
}

impl ConfigModel {
    /// The aliases of a selection, and whether banked resets may be spent for them.
    pub open spec fn selected(self, selection: SelectionModel) -> Result<
        (Seq<Seq<char>>, bool),
        StoreError,
    > {
        match selection {
            SelectionModel::Account(alias) => Ok((seq![alias], false)),
            SelectionModel::Pool(name) => match self.pool_at(name) {
                Some(i) => Ok((self.pools[i].accounts, self.pools[i].redeem_weekly_resets)),
                None => Err(StoreError::UnknownPool),
            },
        }
    }

    /// The accounts of a selection: every alias must be of an account in the store.
    pub open spec fn membership(self, selection: SelectionModel) -> Result<
        MembershipModel,
        StoreError,
    > {
        match self.selected(selection) {
            Ok((aliases, redeem_weekly)) => if forall|i: int|
                0 <= i < aliases.len() ==> self.has_account(#[trigger] aliases[i]) {
                Ok(
                    MembershipModel {
                        accounts: Seq::new(
                            aliases.len(),
                            |i: int| self.accounts[self.account_at(aliases[i])->0],
                        ),
                        redeem_weekly,
                    },
                )
            } else {
                Err(StoreError::UnknownAccount)
            },
            Err(error) => Err(error),
        }
    }
}

impl PoolMembership {
    /// The accounts that a selection stands for. Accounts and pools come from the same validated
    /// store.
    pub fn from_config(config: &AccountPoolConfig, selection: &AccountSelection) -> (membership:
        Result<PoolMembership, StoreError>)
        ensures
            (match membership {
                Ok(membership) => Ok(membership@),
                Err(error) => Err(error),
            }) == config@.membership(selection@),
    {
        let (aliases, redeem_weekly): (Vec<String>, bool) = match selection {
            AccountSelection::Account(alias) => {
                let mut aliases: Vec<String> = Vec::new();
                aliases.push(alias.clone());
                assert(text::views(aliases@) =~= seq![alias@]);
                (aliases, false)
            },
            AccountSelection::Pool(name) => match storage::find_pool(config, name.as_str()) {
                Some(i) => {
                    assert(config@.pools[i as int] == config.pools@[i as int]@);
                    (
                        text::clone_texts(&config.pools[i].accounts),
                        config.pools[i].redeem_weekly_resets,
                    )
                },
                None => {
                    return Err(StoreError::UnknownPool);
                },
            },
        };
        let ghost names = text::views(aliases@);
        assert(config@.selected(selection@) == Ok::<_, StoreError>((names, redeem_weekly)));
        let mut accounts: Vec<ManagedAccount> = Vec::new();
        let mut i: usize = 0;
        while i < aliases.len()
            invariant
                i <= aliases.len(),
                accounts.len() == i,
                names == text::views(aliases@),
                config@.selected(selection@) == Ok::<_, StoreError>((names, redeem_weekly)),
                forall|j: int|
                    0 <= j < i ==> config@.has_account(#[trigger] names[j]) && accounts@[j]@
                        == config@.accounts[config@.account_at(names[j])->0],
            decreases aliases.len() - i,
        {
            assert(names[i as int] == aliases@[i as int]@);
            match storage::find_account(config, aliases[i].as_str()) {
                Some(found) => {
                    assert(config@.accounts[found as int] == config.accounts@[found as int]@);
                    accounts.push(config.accounts[found].clone());
                },
                None => {
                    assert(!config@.has_account(names[i as int]));
                    return Err(StoreError::UnknownAccount);
                },
            }
            i = i + 1;
        }
        let membership: PoolMembership = PoolMembership { accounts, redeem_weekly };
        assert(membership@.accounts =~= Seq::new(
            names.len(),
            |i: int| config@.accounts[config@.account_at(names[i])->0],
        ));
        Ok(membership)
    }

    /// Whether two memberships agree in every account and in their policy.
    pub fn same(&self, other: &PoolMembership) -> (same: bool)
        ensures
            same == (self@ == other@),
    {
        self.redeem_weekly == other.redeem_weekly && account_pool::same_accounts(
            &self.accounts,
            &other.accounts,
        )
    }
}

/// Whether a membership that was read again, if it could be, is still the same.
pub fn unchanged(again: &Option<PoolMembership>, membership: &PoolMembership) -> (same: bool)
    ensures
        same == (text::opt_view(*again) == Some(membership@)),
{
    match again {
        Some(again) => again.same(membership),
        None => false,
    }
}

/// Every selection that a valid store offers stands for one to 128 of its accounts, all of
/// different names and logins; an account stands for itself, without spending resets.
pub proof fn law_valid_store_serves_every_selection(config: ConfigModel, selection: SelectionModel)
    requires
        config.valid(),
        config.offers(selection),
    ensures
        config.membership(selection) is Ok,
        1 <= config.membership(selection)->Ok_0.accounts.len() <= storage::POOL_LIMIT,
        forall|i: int, j: int|
            #![trigger config.membership(selection)->Ok_0.accounts[i], config.membership(selection)->Ok_0.accounts[j]]
            0 <= i < j < config.membership(selection)->Ok_0.accounts.len() ==> {
                let accounts = config.membership(selection)->Ok_0.accounts;
                &&& accounts[i].identity() != accounts[j].identity()
                &&& accounts[i].alias != accounts[j].alias
            },
        selection matches SelectionModel::Account(alias) ==> {
            &&& config.membership(selection)->Ok_0.accounts.len() == 1
            &&& config.membership(selection)->Ok_0.accounts[0].alias == alias
            &&& !config.membership(selection)->Ok_0.redeem_weekly
        },
{
    if let SelectionModel::Pool(name) = selection {
        let flags = Seq::new(config.pools.len(), |i: int| config.pools[i].name == name);
        lists::lemma_first(flags);
        let i = choose|i: int|
            0 <= i < config.pools.len() && #[trigger] config.pools[i].name == name;
        assert(flags[i]);
        let at = config.pool_at(name)->0;
        assert(config.valid_members(config.pools[at].accounts));
    }
    let (aliases, _) = config.selected(selection)->Ok_0;
    let accounts = config.membership(selection)->Ok_0.accounts;
    assert forall|i: int| 0 <= i < aliases.len() implies config.has_account(
        #[trigger] aliases[i],
    ) by {}
    assert forall|i: int| 0 <= i < aliases.len() implies 0 <= config.account_at(aliases[i])->0
        < config.accounts.len() && (#[trigger] accounts[i]).alias == aliases[i] by {
        assert(config.has_account(aliases[i]));
        let flags = Seq::new(
            config.accounts.len(),
            |k: int| config.accounts[k].alias == aliases[i],
        );
        lists::lemma_first(flags);
        let k = choose|k: int|
            0 <= k < config.accounts.len() && #[trigger] config.accounts[k].alias == aliases[i];
        assert(flags[k]);
    }
    assert forall|i: int, j: int|
        #![trigger accounts[i], accounts[j]]
        0 <= i < j < accounts.len() implies accounts[i].identity() != accounts[j].identity()
        && accounts[i].alias != accounts[j].alias by {
        let a = config.account_at(aliases[i])->0;
        let b = config.account_at(aliases[j])->0;
        assert(accounts[i].alias == aliases[i] && accounts[j].alias == aliases[j]);
        assert(aliases[i] != aliases[j]);
        if a < b {
            assert(config.accounts[a].identity() != config.accounts[b].identity());
        } else {
            assert(config.accounts[b].identity() != config.accounts[a].identity());
        }
    }
}

/// The members of a single account are that account, and no reset is spent for it automatically;
/// those of a pool are its accounts in its order, under the pool's permission. A selection that is
/// not stored is refused, and so is a pool with an account that is not stored.
pub proof fn law_members_of_a_selection(config: ConfigModel, name: Seq<char>, k: int)
    ensures
        ({
            let account = config.membership(SelectionModel::Account(name));
            let pool = config.membership(SelectionModel::Pool(name));
            let aliases = config.pools[config.pool_at(name)->0].accounts;
            let complete = forall|i: int|
                0 <= i < aliases.len() ==> config.has_account(#[trigger] aliases[i]);
            &&& account is Ok <==> config.has_account(name)
            &&& account matches Err(error) ==> error == StoreError::UnknownAccount
            &&& account matches Ok(members) ==> {
                &&& members.accounts.len() == 1
                &&& members.accounts[0].alias == name
                &&& config.accounts.contains(members.accounts[0])
                &&& !members.redeem_weekly
            }
            &&& pool is Ok <==> config.has_pool(name) && complete
            &&& !config.has_pool(name) ==> pool == Err::<MembershipModel, StoreError>(
                StoreError::UnknownPool,
            )
            &&& config.has_pool(name) && !complete ==> pool == Err::<MembershipModel, StoreError>(
                StoreError::UnknownAccount,
            )
            &&& pool matches Ok(members) ==> {
                &&& members.accounts.len() == aliases.len()
                &&& members.redeem_weekly
                    == config.pools[config.pool_at(name)->0].redeem_weekly_resets
                &&& config.pools[config.pool_at(name)->0].name == name
                &&& 0 <= k < aliases.len() ==> members.accounts[k].alias == aliases[k]
                    && config.accounts.contains(members.accounts[k])
            }
        }),
{
    let aliases = Seq::new(config.accounts.len(), |i: int| config.accounts[i].alias == name);
    let names = Seq::new(config.pools.len(), |i: int| config.pools[i].name == name);
    lists::lemma_first(aliases);
    lists::lemma_first(names);
    if config.has_account(name) {
        let i = choose|i: int|
            0 <= i < config.accounts.len() && #[trigger] config.accounts[i].alias == name;
        assert(aliases[i]);
        assert(config.accounts.contains(config.accounts[config.account_at(name)->0]));
    }
    assert(seq![name][0] == name);
    if config.has_pool(name) {
        let i = choose|i: int|
            0 <= i < config.pools.len() && #[trigger] config.pools[i].name == name;
        assert(names[i]);
        let members = config.pools[config.pool_at(name)->0].accounts;
        if 0 <= k < members.len() && config.has_account(members[k]) {
            let flags = Seq::new(
                config.accounts.len(),
                |i: int| config.accounts[i].alias == members[k],
            );
            lists::lemma_first(flags);
            let i = choose|i: int|
                0 <= i < config.accounts.len() && #[trigger] config.accounts[i].alias
                    == members[k];
            assert(flags[i]);
            assert(config.accounts.contains(config.accounts[config.account_at(members[k])->0]));
        }
    } else if let Some(i) = config.pool_at(name) {
        assert(names[i]);
        assert(config.pools[i].name == name);
    }
}

/// A `PoolMembership` is seen with every field as it is.
pub proof fn law_pool_membership_is_seen_whole(value: PoolMembership)
    ensures
        value@.accounts == text::views(value.accounts@),
        value@.redeem_weekly == value.redeem_weekly,
{
}

} // verus!
