//! Keeps the user's own login after an import without making two authorities over one refresh token.

use crate::account_pool::ManagedAccount;
use crate::digest;
use crate::text;
use vstd::prelude::*;

verus! {

/// The link from a login to the account that it was imported as.
#[derive(Debug, PartialEq, Eq)]
pub struct ManagedLink {
    pub credential_key: String,
    pub original_login_digest: String,
}

/// A `ManagedLink` as a mathematical value.
pub struct LinkModel {
    pub credential_key: Seq<char>,
    pub original_login_digest: Seq<char>,
}

impl View for ManagedLink {
    type V = LinkModel;

    open spec fn view(&self) -> LinkModel {
        LinkModel {
            credential_key: self.credential_key@,
            original_login_digest: self.original_login_digest@,
        }
    }
}

/// Why a link cannot be made or followed.
#[derive(Clone, Copy, Debug, PartialEq, Eq, Structural)]
pub enum LinkError {
    OutsideStore,
    InvalidReference,
    LoginMissing,
}

impl LinkError {
    /// The error in words.
    pub open spec fn words(self) -> Seq<char> {
        match self {
            LinkError::OutsideStore =>
                "Managed credentials must be inside the user account store"@,
            LinkError::InvalidReference => "Invalid managed credential reference"@,
            LinkError::LoginMissing => "Managed login is missing"@,
        }
    }

    /// Puts the error in words.
    pub fn message(self) -> (words: &'static str)
        ensures
            words@ == self.words(),
    {
        match self {
            LinkError::OutsideStore => "Managed credentials must be inside the user account store",
            LinkError::InvalidReference => "Invalid managed credential reference",
            LinkError::LoginMissing => "Managed login is missing",
        }
    }
}

/// Where the login of a home is kept.
#[derive(Debug, PartialEq, Eq)]
pub enum LoginHome {
    /// In the home itself.
    Own,
    /// With the account of this key.
    Managed(String),
}

/// A `LoginHome` as a mathematical value.
pub enum HomeModel {
    Own,
    Managed(Seq<char>),
}

impl View for LoginHome {
    type V = HomeModel;

    open spec fn view(&self) -> HomeModel {
        match self {
            LoginHome::Own => HomeModel::Own,
            LoginHome::Managed(key) => HomeModel::Managed(key@),
        }
    }
}

/// Links exactly the imported login to the credentials below a home. `key` is the directory of the
/// credentials below the account store, where they are inside it.
pub fn link_managed_chatgpt_login(key: &Option<String>, original: &Vec<u8>) -> (link: Result<
    ManagedLink,
    LinkError,
>)
    ensures
        match link {
            Ok(link) => {
                &&& key is Some
                &&& digest::key_text(key->0@)
                &&& link@ == (LinkModel {
                    credential_key: key->0@,
                    original_login_digest: digest::hex(digest::sha256(original@)),
                })
            },
            Err(error) => error == LinkError::OutsideStore && (key is None || !digest::key_text(
                key->0@,
            )),
        },
{
    match key {
        Some(key) => {
            if digest::valid_key(key.as_str()) {
                Ok(
                    ManagedLink {
                        credential_key: key.clone(),
                        original_login_digest: digest::login_digest(original),
                    },
                )
            } else {
                Err(LinkError::OutsideStore)
            }
        },
        None => Err(LinkError::OutsideStore),
    }
}

/// Where a login is kept, given its link and the login that the home holds now. A later login or a
/// logout severs the link.
pub open spec fn resolved(link: Option<LinkModel>, current: Option<Seq<u8>>) -> Result<
    HomeModel,
    LinkError,
> {
    match link {
        None => Ok(HomeModel::Own),
        Some(link) => if !digest::key_text(link.credential_key) {
            Err(LinkError::InvalidReference)
        } else if current is Some && digest::hex(digest::sha256(current->0))
            == link.original_login_digest {
            Ok(HomeModel::Managed(link.credential_key))
        } else {
            Ok(HomeModel::Own)
        },
    }
}

/// Where a login is kept. `current` is the login that the home holds now, serialized.
pub fn resolve(link: Option<ManagedLink>, current: &Option<Vec<u8>>) -> (home: Result<
    LoginHome,
    LinkError,
>)
    ensures
        (match home {
            Ok(home) => Ok(home@),
            Err(error) => Err(error),
        }) == resolved(
            text::opt_view(link),
            match current {
                Some(current) => Some(current@),
                None => None,
            },
        ),
{
    let link: ManagedLink = match link {
        Some(link) => link,
        None => {
            return Ok(LoginHome::Own);
        },
    };
    if !digest::valid_key(link.credential_key.as_str()) {
        return Err(LinkError::InvalidReference);
    }
    match current {
        Some(current) => {
            let digest: String = digest::login_digest(current);
            if text::same_text(digest.as_str(), link.original_login_digest.as_str()) {
                Ok(LoginHome::Managed(link.credential_key))
            } else {
                Ok(LoginHome::Own)
            }
        },
        None => Ok(LoginHome::Own),
    }
}

/// Whether removing an account must give its login back to the home: where the home's login is kept
/// with that account. `loaded` tells whether the account's login could be loaded.
pub fn detach_managed_chatgpt_login(
    home: &LoginHome,
    account: &ManagedAccount,
    loaded: bool,
) -> (detached: Result<bool, LinkError>)
    ensures
        detached == (if home@ != HomeModel::Managed(
            digest::credential_key(account@.user_id, account@.workspace_id),
        ) {
            Ok(false)
        } else if loaded {
            Ok(true)
        } else {
            Err(LinkError::LoginMissing)
        }),
{
    let key: String = digest::identity_key(account.user_id.as_str(), account.workspace_id.as_str());
    let linked: bool = match home {
        LoginHome::Own => false,
        LoginHome::Managed(other) => text::same_text(other.as_str(), key.as_str()),
    };
    if !linked {
        Ok(false)
    } else if loaded {
        Ok(true)
    } else {
        Err(LinkError::LoginMissing)
    }
}

/// Whether the lock of a home is still the right one: the login was not moved while it was taken.
pub fn lock_holds(before: &LoginHome, after: &LoginHome) -> (holds: bool)
    ensures
        holds == (before@ == after@),
{
    match (before, after) {
        (LoginHome::Own, LoginHome::Own) => true,
        (LoginHome::Managed(a), LoginHome::Managed(b)) => text::same_text(a.as_str(), b.as_str()),
        _ => false,
    }
}

/// A link leads to its account for as long as the home holds the login that was imported, and no
/// longer than that. Two different logins have, as far as their digests differ, different fates.
pub proof fn law_link_follows_only_the_imported_login(
    key: Seq<char>,
    original: Seq<u8>,
    current: Option<Seq<u8>>,
)
    requires
        digest::key_text(key),
    ensures
        ({
            let link = LinkModel {
                credential_key: key,
                original_login_digest: digest::hex(digest::sha256(original)),
            };
            &&& current == Some(original) ==> resolved(Some(link), current)
                == Ok::<HomeModel, LinkError>(HomeModel::Managed(key))
            &&& current is None ==> resolved(Some(link), current) == Ok::<HomeModel, LinkError>(
                HomeModel::Own,
            )
            &&& current is Some && digest::hex(digest::sha256(current->0)) != digest::hex(
                digest::sha256(original),
            ) ==> resolved(Some(link), current) == Ok::<HomeModel, LinkError>(HomeModel::Own)
        }),
{
}

/// A link leads to the managed credentials that it names exactly while the home's own login is still
/// the one that was imported; a link with a bad reference is refused, and without a link the home
/// keeps its own login.
pub proof fn law_link_is_resolved(link: Option<LinkModel>, current: Option<Seq<u8>>)
    ensures
        ({
            let made = resolved(link, current);
            let good = link is Some && link->0.credential_key.len() == 64 && (forall|i: int|
                0 <= i < 64 ==> {
                    ||| '0' <= #[trigger] link->0.credential_key[i] && link->0.credential_key[i]
                        <= '9'
                    ||| 'a' <= link->0.credential_key[i] && link->0.credential_key[i] <= 'f'
                    ||| 'A' <= link->0.credential_key[i] && link->0.credential_key[i] <= 'F'
                });
            let same = current is Some && digest::hex(digest::sha256(current->0))
                == link->0.original_login_digest;
            &&& link is None ==> made == Ok::<HomeModel, LinkError>(HomeModel::Own)
            &&& link is Some && !good ==> made == Err::<HomeModel, LinkError>(
                LinkError::InvalidReference,
            )
            &&& good && same ==> made == Ok::<HomeModel, LinkError>(
                HomeModel::Managed(link->0.credential_key),
            )
            &&& good && !same ==> made == Ok::<HomeModel, LinkError>(HomeModel::Own)
        }),
{
}

/// A `ManagedLink` is seen with every field as it is.
pub proof fn law_managed_link_is_seen_whole(value: ManagedLink)
    ensures
        value@.credential_key == value.credential_key@,
        value@.original_login_digest == value.original_login_digest@,
{
}

/// A `LoginHome` is seen as the form it has, with every part of it.
pub proof fn law_login_home_is_seen_whole(value: LoginHome)
    ensures
        value@ == (match value {
            LoginHome::Own => HomeModel::Own,
            LoginHome::Managed(key) => HomeModel::Managed(key@),
        }),
{
}

/// Every fault of a link is told in words of its own.
pub proof fn law_link_errors_are_told()
    ensures
        LinkError::OutsideStore.words()
            == "Managed credentials must be inside the user account store"@,
        LinkError::InvalidReference.words() == "Invalid managed credential reference"@,
        LinkError::LoginMissing.words() == "Managed login is missing"@,
{
}

} // verus!
