//! How a thread takes up a managed account or pool, and what a turn makes of its recovery.

use crate::account_pool::AccountModel;
use crate::account_pool::AccountPoolEvent;
use crate::account_pool::AccountSelection;
use crate::account_pool::ConfigModel;
use crate::account_pool::EventModel;
use crate::account_pool::ManagedAccount;
use crate::account_pool::SelectionModel;
use crate::session;
use crate::session::PoolSession;
use crate::session::RecoveryState;
use crate::session::StateModel;
use crate::storage;
use crate::storage::StoreError;
use crate::text;
use vstd::prelude::*;

verus! {

/// The login of the user outside the account store.
#[derive(Clone, Copy, Debug, PartialEq, Eq, Structural)]
pub enum LegacyLogin {
    Absent,
    Chatgpt,
    Other,
}

/// How a thread authenticates.
#[derive(Debug, PartialEq, Eq)]
pub enum Startup {
    /// With the legacy login, and under its restrictions.
    Legacy,
    /// With a managed session for this selection; without one, for the default of the store.
    Managed(Option<AccountSelection>),
}

/// A `Startup` as a mathematical value.
pub enum StartupModel {
    Legacy,
    Managed(Option<SelectionModel>),
}

impl View for Startup {
    type V = StartupModel;

    open spec fn view(&self) -> StartupModel {
        match self {
            Startup::Legacy => StartupModel::Legacy,
            Startup::Managed(selection) => StartupModel::Managed(text::opt_view(*selection)),
        }
    }
}

/// Why a thread cannot start.
#[derive(Clone, Copy, Debug, PartialEq, Eq, Structural)]
pub enum StartupError {
    /// A named account was selected where none can be used.
    IncompatibleProvider,
    /// The thread's own record cannot be looked up.
    Store(StoreError),
}

impl StartupError {
    /// The error in words.
    pub open spec fn words(self, name: Seq<char>) -> Seq<char> {
        match self {
            StartupError::IncompatibleProvider =>
                "Named accounts require locally managed ChatGPT authentication with the OpenAI provider"@,
            StartupError::Store(error) => error.words(name),
        }
    }

    /// Puts the error in words.
    pub fn message(self, name: &str) -> (words: String)
        ensures
            words@ == self.words(name@),
    {
        match self {
            StartupError::IncompatibleProvider =>
                "Named accounts require locally managed ChatGPT authentication with the OpenAI provider".to_owned(),
            StartupError::Store(error) => error.message(name),
        }
    }
}

/// The thread whose saved selection counts: the one that is resumed, else the one that this thread
/// was made from.
pub fn selection_source(resume_id: Option<String>, source_thread_id: Option<String>) -> (source:
    Option<String>)
    ensures
        source == (if resume_id is Some {
            resume_id
        } else {
            source_thread_id
        }),
{
    match resume_id {
        Some(id) => Some(id),
        None => source_thread_id,
    }
}

/// How a thread authenticates. Explicit and saved selections take precedence over legacy
/// authentication; without one, a legacy login other than ChatGPT is kept.
pub open spec fn started(
    explicit: Option<SelectionModel>,
    resumed: Option<Seq<char>>,
    saved: Option<StateModel>,
    openai_provider: bool,
    first_party_auth: bool,
    legacy: LegacyLogin,
) -> Result<StartupModel, StartupError> {
    let selection = if explicit is Some {
        explicit
    } else if resumed is Some && saved is Some {
        Some(saved->0.selection)
    } else {
        None
    };
    if resumed is Some && !storage::valid_name(resumed->0) {
        Err(StartupError::Store(StoreError::InvalidName))
    } else if openai_provider && first_party_auth && (selection is Some || legacy
        != LegacyLogin::Other) {
        Ok(StartupModel::Managed(selection))
    } else if selection is Some {
        Err(StartupError::IncompatibleProvider)
    } else {
        Ok(StartupModel::Legacy)
    }
}

/// Decides how a thread authenticates. `saved` is what was kept for the thread `resume_id`.
pub fn initialize(
    explicit: Option<AccountSelection>,
    resume_id: Option<&str>,
    saved: Option<RecoveryState>,
    openai_provider: bool,
    first_party_auth: bool,
    legacy: LegacyLogin,
) -> (startup: Result<Startup, StartupError>)
    ensures
        (match startup {
            Ok(startup) => Ok(startup@),
            Err(error) => Err(error),
        }) == started(
            text::opt_view(explicit),
            match resume_id {
                Some(id) => Some(id@),
                None => None,
            },
            text::opt_view(saved),
            openai_provider,
            first_party_auth,
            legacy,
        ),
{
    let kept: Option<AccountSelection> = match resume_id {
        Some(id) => match PoolSession::saved_selection(id, saved) {
            Ok(selection) => selection,
            Err(error) => {
                return Err(StartupError::Store(error));
            },
        },
        None => None,
    };
    let selection: Option<AccountSelection> = match explicit {
        Some(selection) => Some(selection),
        None => kept,
    };
    let selected: bool = selection.is_some();
    if openai_provider && first_party_auth && (selected || legacy != LegacyLogin::Other) {
        Ok(Startup::Managed(selection))
    } else if selected {
        Err(StartupError::IncompatibleProvider)
    } else {
        Ok(Startup::Legacy)
    }
}

/// Whether the restrictions on legacy logins are enforced: only where no managed session was opened,
/// so that an unrelated legacy login is not logged out.
pub fn enforce_selection_restrictions<S>(session: &Option<S>) -> (enforced: bool)
    ensures
        enforced == (session is None),
{
    session.is_none()
}

/// How a turn ends where its account could not be recovered.
#[derive(Debug, PartialEq, Eq)]
pub enum TurnError {
    Aborted,
    Fatal(String),
}

/// What a turn makes of a recovery or a preflight check: a cancelled turn is aborted, whatever else
/// went wrong.
pub fn turn_result(cancelled: bool, result: Result<(), String>) -> (outcome: Result<(), TurnError>)
    ensures
        match outcome {
            Ok(()) => result is Ok && !cancelled,
            Err(TurnError::Aborted) => cancelled,
            Err(TurnError::Fatal(words)) => !cancelled && result is Err && result->Err_0 == words,
        },
{
    if cancelled {
        return Err(TurnError::Aborted);
    }
    match result {
        Ok(()) => Ok(()),
        Err(words) => Err(TurnError::Fatal(words)),
    }
}

/// What a turn makes of a preflight check. A check that succeeded counts even where the turn is
/// cancelled meanwhile.
pub fn preflight_result(cancelled: bool, result: Result<bool, String>) -> (outcome: Result<
    bool,
    TurnError,
>)
    ensures
        match result {
            Ok(needed) => outcome == Ok::<bool, TurnError>(needed),
            Err(words) => outcome is Err && (if cancelled {
                outcome->Err_0 is Aborted
            } else {
                outcome->Err_0 is Fatal && outcome->Err_0->Fatal_0 == words
            }),
        },
{
    match result {
        Ok(needed) => Ok(needed),
        Err(words) => if cancelled {
            Err(TurnError::Aborted)
        } else {
            Err(TurnError::Fatal(words))
        },
    }
}

/// The event that tells which account a turn runs on.
pub fn selected_event(account: &ManagedAccount) -> (event: AccountPoolEvent)
    ensures
        event@ == (EventModel::Selected { account: account@ }),
{
    AccountPoolEvent::Selected { account: account.clone() }
}

/// A named selection is either used or refused; the thread never falls back to the legacy login
/// behind it, whatever the store holds.
pub proof fn law_named_selection_is_never_ignored(
    explicit: Option<SelectionModel>,
    resumed: Option<Seq<char>>,
    saved: Option<StateModel>,
    openai_provider: bool,
    first_party_auth: bool,
    legacy: LegacyLogin,
    stored: Option<ConfigModel>,
    preferences: Option<Map<Seq<char>, AccountModel>>,
)
    requires
        explicit is Some || (resumed is Some && saved is Some),
    ensures
        ({
            let named = if explicit is Some {
                explicit->0
            } else {
                saved->0.selection
            };
            match started(explicit, resumed, saved, openai_provider, first_party_auth, legacy) {
                Ok(StartupModel::Legacy) => false,
                Ok(StartupModel::Managed(selection)) => {
                    &&& selection == Some(named)
                    &&& match session::opened(stored, selection, resumed, saved, preferences) {
                        Ok(Some(session)) => session.selection == named,
                        Ok(None) => false,
                        Err(_) => true,
                    }
                },
                Err(StartupError::IncompatibleProvider) => !(openai_provider && first_party_auth),
                Err(StartupError::Store(_)) => resumed is Some && !storage::valid_name(resumed->0),
            }
        }),
{
}

/// A thread runs on managed accounts where the provider and its authentication allow it and an
/// account is selected or the legacy login does not stand in the way; a selection that cannot be
/// served is refused; otherwise the legacy login is used. A thread to resume must have a valid name.
pub proof fn law_thread_starts(
    explicit: Option<SelectionModel>,
    resumed: Option<Seq<char>>,
    saved: Option<StateModel>,
    openai_provider: bool,
    first_party_auth: bool,
    legacy: LegacyLogin,
)
    ensures
        ({
            let made = started(
                explicit,
                resumed,
                saved,
                openai_provider,
                first_party_auth,
                legacy,
            );
            let named = resumed is None || storage::valid_name(resumed->0);
            let kept = resumed is Some && saved is Some;
            let selected = explicit is Some || kept;
            let served = openai_provider && first_party_auth;
            &&& !named <==> made == Err::<StartupModel, StartupError>(
                StartupError::Store(StoreError::InvalidName),
            )
            &&& named && served && explicit is Some ==> made == Ok::<StartupModel, StartupError>(
                StartupModel::Managed(explicit),
            )
            &&& named && served && explicit is None && kept ==> made == Ok::<
                StartupModel,
                StartupError,
            >(StartupModel::Managed(Some(saved->0.selection)))
            &&& named && served && !selected && legacy != LegacyLogin::Other ==> made == Ok::<
                StartupModel,
                StartupError,
            >(StartupModel::Managed(None))
            &&& named && !served && selected ==> made == Err::<StartupModel, StartupError>(
                StartupError::IncompatibleProvider,
            )
            &&& named && !selected && (!served || legacy == LegacyLogin::Other) ==> made == Ok::<
                StartupModel,
                StartupError,
            >(StartupModel::Legacy)
        }),
{
}

/// A `Startup` is seen as the form it has, with every part of it.
pub proof fn law_startup_is_seen_whole(value: Startup)
    ensures
        value@ == (match value {
            Startup::Legacy => StartupModel::Legacy,
            Startup::Managed(selection) => StartupModel::Managed(text::opt_view(selection)),
        }),
{
}

/// A thread that cannot start tells why, and a fault of the store is told in the store's words.
pub proof fn law_startup_errors_are_told(name: Seq<char>, error: StoreError)
    ensures
        StartupError::IncompatibleProvider.words(name)
            == "Named accounts require locally managed ChatGPT authentication with the OpenAI provider"@,
        StartupError::Store(error).words(name) == error.words(name),
{
}

} // verus!
