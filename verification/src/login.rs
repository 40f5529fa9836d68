//! Logging in under an alias. Credentials are staged in memory until the alias is committed.

use crate::import::Import;
use crate::storage;
use crate::storage::StoreError;
use crate::store::AccountStore;
use crate::store::CredentialStorage;
use vstd::prelude::*;

verus! {

/// A login that is to become an account.
#[derive(Debug, PartialEq, Eq)]
pub struct AccountLogin {
    store: AccountStore,
    alias: String,
}

impl AccountLogin {
    /// The alias of the account.
    pub closed spec fn alias(self) -> Seq<char> {
        self.alias@
    }

    /// The store of the account.
    pub closed spec fn store(self) -> AccountStore {
        self.store
    }

    /// Begins a login: the alias must be a name, credentials must be kept, and the policy must allow
    /// ChatGPT logins.
    pub fn new(store: AccountStore, alias: String) -> (login: Result<AccountLogin, StoreError>)
        ensures
            match login {
                Ok(login) => {
                    &&& login.alias() == alias@
                    &&& login.store() == store
                    &&& storage::valid_name(alias@)
                    &&& store.credential_storage != CredentialStorage::Ephemeral
                    &&& store.chatgpt_login_allowed
                },
                Err(error) => error == (if !storage::valid_name(alias@) {
                    StoreError::InvalidName
                } else if store.credential_storage == CredentialStorage::Ephemeral {
                    StoreError::EphemeralStorage
                } else {
                    StoreError::LoginDisabled
                }) && (error == StoreError::LoginDisabled ==> !store.chatgpt_login_allowed),
            },
    {
        if let Err(error) = storage::validate_name(alias.as_str()) {
            return Err(error);
        }
        if store.credential_storage == CredentialStorage::Ephemeral {
            return Err(StoreError::EphemeralStorage);
        }
        if !store.chatgpt_login_allowed {
            return Err(StoreError::LoginDisabled);
        }
        Ok(AccountLogin { store, alias })
    }

    /// Where the login's own credentials are staged.
    pub fn options(&self) -> (storage: CredentialStorage)
        ensures
            storage == CredentialStorage::Ephemeral,
    {
        CredentialStorage::Ephemeral
    }

    /// Imports the finished login under its alias.
    pub fn finish(self) -> (begun: Result<Import, StoreError>)
        ensures
            (match begun {
                Ok(import) => Ok(import.alias()),
                Err(error) => Err(error),
            }) == (if !storage::valid_name(self.alias()) {
                Err(StoreError::InvalidName)
            } else if self.store().credential_storage == CredentialStorage::Ephemeral {
                Err(StoreError::EphemeralStorage)
            } else {
                Ok(self.alias())
            }),
    {
        self.store.import(self.alias.as_str())
    }
}

} // verus!
