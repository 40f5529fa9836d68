//! Durable, per-account reset transactions. A failed request never causes a new key.
//!
//! The caller holds the account's redemption lock. It carries out what a transaction asks for, one
//! action after the other, and says what came of each.

use crate::account_pool::AccountQuotaWindow;
use crate::account_pool::ManagedAccountUsage;
use crate::account_pool::UsageModel;
use crate::account_pool::WindowModel;
use crate::lists;
use crate::policy;
use crate::policy::WindowKind;
use crate::sorting;
use crate::text;
use vstd::prelude::*;

verus! {

/// A quota window at the time of a reset.
#[derive(Debug, PartialEq, Eq)]
pub struct WindowMark {
    pub limit_id: String,
    pub window_minutes: i64,
    pub resets_at: Option<i64>,
}

/// A `WindowMark` as a mathematical value.
pub struct MarkModel {
    pub limit_id: Seq<char>,
    pub window_minutes: i64,
    pub resets_at: Option<i64>,
}

impl View for WindowMark {
    type V = MarkModel;

    open spec fn view(&self) -> MarkModel {
        MarkModel {
            limit_id: self.limit_id@,
            window_minutes: self.window_minutes,
            resets_at: self.resets_at,
        }
    }
}

impl Clone for WindowMark {
    fn clone(&self) -> (copy: Self)
        ensures
            copy@ == self@,
    {
        WindowMark {
            limit_id: self.limit_id.clone(),
            window_minutes: self.window_minutes,
            resets_at: self.resets_at,
        }
    }
}

/// Copies a list of marks.
fn clone_marks(marks: &Vec<WindowMark>) -> (copy: Vec<WindowMark>)
    ensures
        text::views(copy@) == text::views(marks@),
{
    let mut copy: Vec<WindowMark> = Vec::new();
    let mut i: usize = 0;
    while i < marks.len()
        invariant
            i <= marks.len(),
            copy.len() == i,
            forall|j: int| 0 <= j < i ==> #[trigger] copy@[j]@ == marks@[j]@,
        decreases marks.len() - i,
    {
        copy.push(marks[i].clone());
        i = i + 1;
    }
    assert(text::views(copy@) =~= text::views(marks@));
    copy
}

/// An attempt to redeem a credit, as it is kept on disk.
#[derive(Debug, PartialEq, Eq)]
pub struct Intent {
    pub key: String,
    pub credit: String,
    pub model: Option<String>,
    pub windows: Vec<WindowMark>,
    pub completed: bool,
    pub declined: bool,
    pub automatic: bool,
    pub observed_usable: bool,
}

/// An `Intent` as a mathematical value.
pub struct IntentModel {
    pub key: Seq<char>,
    pub credit: Seq<char>,
    pub model: Option<Seq<char>>,
    pub windows: Seq<MarkModel>,
    pub completed: bool,
    pub declined: bool,
    pub automatic: bool,
    pub observed_usable: bool,
}

impl View for Intent {
    type V = IntentModel;

    open spec fn view(&self) -> IntentModel {
        IntentModel {
            key: self.key@,
            credit: self.credit@,
            model: text::opt_view(self.model),
            windows: text::views(self.windows@),
            completed: self.completed,
            declined: self.declined,
            automatic: self.automatic,
            observed_usable: self.observed_usable,
        }
    }
}

impl Clone for Intent {
    fn clone(&self) -> (copy: Self)
        ensures
            copy@ == self@,
    {
        Intent {
            key: self.key.clone(),
            credit: self.credit.clone(),
            model: text::clone_opt(&self.model),
            windows: clone_marks(&self.windows),
            completed: self.completed,
            declined: self.declined,
            automatic: self.automatic,
            observed_usable: self.observed_usable,
        }
    }
}

/// Who asks for a reset.
#[derive(Clone, Copy, Debug, PartialEq, Eq, Structural)]
pub enum RedemptionMode {
    Automatic,
    Explicit,
}

/// What the backend answers to a reset request.
#[derive(Clone, Copy, Debug, PartialEq, Eq, Structural)]
pub enum ResetOutcome {
    Reset,
    AlreadyRedeemed,
    NothingToReset,
    NoCredit,
}

/// Why a reset is not carried out.
#[derive(Clone, Copy, Debug, PartialEq, Eq, Structural)]
pub enum RedemptionError {
    UnknownAvailability,
    AwaitingRecovery,
    CreditUnavailable,
    WeeklyAvailable,
    Declined,
    ResponseUnknown,
}

impl RedemptionError {
    /// The error in words.
    pub open spec fn words(self) -> Seq<char> {
        match self {
            RedemptionError::UnknownAvailability => "Availability is unknown; no reset was sent"@,
            RedemptionError::AwaitingRecovery =>
                "Previous reset is awaiting verified quota recovery"@,
            RedemptionError::CreditUnavailable => "Reset credit is no longer available"@,
            RedemptionError::WeeklyAvailable =>
                "Weekly capacity is available; a pending automatic reset will not be sent for short-window exhaustion"@,
            RedemptionError::Declined =>
                "Backend declined reset; waiting for verified quota recovery"@,
            RedemptionError::ResponseUnknown =>
                "Reset response is unknown; the persisted attempt will be reconciled"@,
        }
    }

    /// Puts the error in words.
    pub fn message(self) -> (words: &'static str)
        ensures
            words@ == self.words(),
    {
        match self {
            RedemptionError::UnknownAvailability => "Availability is unknown; no reset was sent",
            RedemptionError::AwaitingRecovery =>
                "Previous reset is awaiting verified quota recovery",
            RedemptionError::CreditUnavailable => "Reset credit is no longer available",
            RedemptionError::WeeklyAvailable =>
                "Weekly capacity is available; a pending automatic reset will not be sent for short-window exhaustion",
            RedemptionError::Declined =>
                "Backend declined reset; waiting for verified quota recovery",
            RedemptionError::ResponseUnknown =>
                "Reset response is unknown; the persisted attempt will be reconciled",
        }
    }
}

/// How a transaction goes on once the usage of the account is known.
#[derive(Debug, PartialEq, Eq)]
pub enum Redemption {
    /// The account is usable: nothing is sent, and the intent, if there is one, is written.
    Settled(Option<Intent>),
    /// The intent is written, and its credit is redeemed under its key.
    Send(Intent),
}

/// A `Redemption` as a mathematical value.
pub enum RedemptionModel {
    Settled(Option<IntentModel>),
    Send(IntentModel),
}

impl View for Redemption {
    type V = RedemptionModel;

    open spec fn view(&self) -> RedemptionModel {
        match self {
            Redemption::Settled(intent) => RedemptionModel::Settled(text::opt_view(*intent)),
            Redemption::Send(intent) => RedemptionModel::Send(intent@),
        }
    }
}

/// The order of optional times: none comes first.
pub open spec fn time_before(a: Option<i64>, b: Option<i64>) -> bool {
    match (a, b) {
        (None, Some(_)) => true,
        (Some(a), Some(b)) => a < b,
        (_, None) => false,
    }
}

/// The order of marks: by limit, then length, then reset.
pub open spec fn mark_before(a: MarkModel, b: MarkModel) -> bool {
    if a.limit_id != b.limit_id {
        text::text_before(a.limit_id, b.limit_id)
    } else if a.window_minutes != b.window_minutes {
        a.window_minutes < b.window_minutes
    } else {
        time_before(a.resets_at, b.resets_at)
    }
}

/// The mark of a window.
pub open spec fn mark_of(window: WindowModel) -> MarkModel {
    MarkModel {
        limit_id: window.limit_id,
        window_minutes: window.window_minutes,
        resets_at: window.resets_at,
    }
}

/// The marks of an account's ordinary windows, in order.
pub open spec fn marks(usage: UsageModel) -> Seq<MarkModel> {
    let ordinary = usage.windows.filter(|window: WindowModel| window.limit_id == "codex"@);
    sorting::arranged(
        Seq::new(ordinary.len(), |i: int| mark_of(ordinary[i])),
        |a: MarkModel, b: MarkModel| mark_before(a, b),
    )
}

/// The credit is one of the live credits of the account.
pub open spec fn offers_credit(usage: UsageModel, credit: Seq<char>, now: i64) -> bool {
    usage.resets is Some && exists|i: int|
        0 <= i < usage.resets->0.len() && (#[trigger] usage.resets->0[i]).id == credit
            && usage.resets->0[i].live(now)
}

/// What a request for a reset comes to, given the usage of the account and the previous intent.
/// `key` is the key of a new attempt, if one is made.
pub open spec fn begun(
    fresh: UsageModel,
    now: i64,
    previous: Option<IntentModel>,
    credit: Seq<char>,
    model: Option<Seq<char>>,
    mode: RedemptionMode,
    key: Seq<char>,
) -> Result<RedemptionModel, RedemptionError> {
    let live = previous is Some && !previous->0.declined;
    let open = live && !previous->0.completed;
    let settling = live && previous->0.completed && (!previous->0.observed_usable
        || previous->0.windows == marks(fresh));
    let attempt = if open {
        previous->0
    } else {
        IntentModel {
            key,
            credit,
            model,
            windows: marks(fresh),
            completed: false,
            declined: false,
            automatic: mode == RedemptionMode::Automatic,
            observed_usable: false,
        }
    };
    if !fresh.known_at(now) {
        Err(RedemptionError::UnknownAvailability)
    } else if fresh.usable_at(now) {
        Ok(
            RedemptionModel::Settled(
                if open || settling {
                    Some(
                        IntentModel { completed: true, observed_usable: true, ..previous->0 },
                    )
                } else {
                    None
                },
            ),
        )
    } else if settling {
        Err(RedemptionError::AwaitingRecovery)
    } else if !open && !offers_credit(fresh, credit, now) {
        Err(RedemptionError::CreditUnavailable)
    } else if mode == RedemptionMode::Automatic && !fresh.blocked_by(WindowKind::Weekly) {
        Err(RedemptionError::WeeklyAvailable)
    } else {
        Ok(RedemptionModel::Send(attempt))
    }
}

/// The text of a version 4 UUID: lower-case hexadecimal digits and hyphens in their places.
pub open spec fn uuid_text(key: Seq<char>) -> bool {
    &&& key.len() == 36
    &&& forall|i: int|
        0 <= i < 36 ==> if i == 8 || i == 13 || i == 18 || i == 23 {
            #[trigger] key[i] == '-'
        } else {
            ('0' <= key[i] && key[i] <= '9') || ('a' <= key[i] && key[i] <= 'f')
        }
    &&& key[14] == '4'
    &&& key[19] == '8' || key[19] == '9' || key[19] == 'a' || key[19] == 'b'
}

/// A key for a new attempt.
///
/// `uuid::Uuid::new_v4`, written by its `Display`: a random key in the form of a version 4 UUID.
/// That two keys differ rests on chance and is not stated.
#[verifier::external_body]
pub(crate) fn random_key() -> (key: String)
    ensures
        uuid_text(key@),
{
    uuid::Uuid::new_v4().to_string()
}

/// Whether one mark comes before another.
fn is_mark_before(a: &WindowMark, b: &WindowMark) -> (before: bool)
    ensures
        before == mark_before(a@, b@),
{
    if !text::same_text(a.limit_id.as_str(), b.limit_id.as_str()) {
        return text::is_before(a.limit_id.as_str(), b.limit_id.as_str());
    }
    if a.window_minutes != b.window_minutes {
        return a.window_minutes < b.window_minutes;
    }
    match (a.resets_at, b.resets_at) {
        (None, Some(_)) => true,
        (Some(first), Some(second)) => first < second,
        (_, None) => false,
    }
}

/// Whether two lists of marks agree.
fn same_marks(a: &Vec<WindowMark>, b: &Vec<WindowMark>) -> (same: bool)
    ensures
        same == (text::views(a@) == text::views(b@)),
{
    if a.len() != b.len() {
        assert(text::views(a@).len() != text::views(b@).len());
        return false;
    }
    let mut i: usize = 0;
    while i < a.len()
        invariant
            i <= a.len(),
            a.len() == b.len(),
            forall|j: int| 0 <= j < i ==> #[trigger] a@[j]@ == b@[j]@,
        decreases a.len() - i,
    {
        let same: bool = text::same_text(a[i].limit_id.as_str(), b[i].limit_id.as_str())
            && a[i].window_minutes == b[i].window_minutes && match (
            a[i].resets_at,
            b[i].resets_at,
        ) {
            (Some(first), Some(second)) => first == second,
            (None, None) => true,
            _ => false,
        };
        if !same {
            assert(text::views(a@)[i as int] != text::views(b@)[i as int]);
            return false;
        }
        i = i + 1;
    }
    assert(text::views(a@) =~= text::views(b@));
    true
}

/// Puts a mark in its place.
fn place_mark(list: &mut Vec<WindowMark>, mark: WindowMark)
    ensures
        text::views(final(list)@) == sorting::placed(
            text::views(old(list)@),
            mark@,
            |a: MarkModel, b: MarkModel| mark_before(a, b),
        ),
{
    let ghost models = text::views(list@);
    let ghost before = |a: MarkModel, b: MarkModel| mark_before(a, b);
    let mut at: usize = 0;
    while at < list.len() && !is_mark_before(&mark, &list[at])
        invariant
            at <= list.len(),
            list@ == old(list)@,
            models == text::views(list@),
            before == (|a: MarkModel, b: MarkModel| mark_before(a, b)),
            forall|i: int| 0 <= i < at ==> !before(mark@, #[trigger] models[i]),
        decreases list.len() - at,
    {
        at = at + 1;
    }
    proof {
        sorting::lemma_slot_is(models, mark@, before, at as int);
    }
    let ghost placed = mark@;
    list.insert(at, mark);
    assert(text::views(list@) =~= models.insert(at as int, placed));
}

/// The marks of an account's ordinary windows, in order.
fn windows(usage: &ManagedAccountUsage) -> (list: Vec<WindowMark>)
    ensures
        text::views(list@) == marks(usage@),
{
    let ghost keep = |window: WindowModel| window.limit_id == "codex"@;
    let ghost before = |a: MarkModel, b: MarkModel| mark_before(a, b);
    let ghost all = usage@.windows;
    let ghost ordinary = all.filter(keep);
    let mut list: Vec<WindowMark> = Vec::new();
    let mut i: usize = 0;
    proof {
        reveal(Seq::filter);
        assert(all.take(0).filter(keep) =~= Seq::empty());
        assert(mark_list(all.take(0).filter(keep)) =~= Seq::empty());
        assert(text::views(list@) =~= Seq::empty());
    }
    while i < usage.windows.len()
        invariant
            i <= usage.windows.len(),
            all == usage@.windows,
            keep == (|window: WindowModel| window.limit_id == "codex"@),
            before == (|a: MarkModel, b: MarkModel| mark_before(a, b)),
            text::views(list@) == sorting::arranged(
                mark_list(all.take(i as int).filter(keep)),
                before,
            ),
        decreases usage.windows.len() - i,
    {
        let window: &AccountQuotaWindow = &usage.windows[i];
        assert(window@ == all[i as int]);
        proof {
            lists::lemma_filter_step(all, keep, i as int);
        }
        if text::same_text(window.limit_id.as_str(), "codex") {
            let mark: WindowMark = WindowMark {
                limit_id: window.limit_id.clone(),
                window_minutes: window.window_minutes,
                resets_at: window.resets_at,
            };
            proof {
                let shorter = mark_list(all.take(i as int).filter(keep));
                let longer = mark_list(all.take(i + 1).filter(keep));
                assert(longer =~= shorter.push(mark@));
                assert(longer.drop_last() =~= shorter);
            }
            place_mark(&mut list, mark);
        }
        i = i + 1;
    }
    assert(all.take(i as int) =~= all);
    assert(mark_list(ordinary) =~= Seq::new(ordinary.len(), |i: int| mark_of(ordinary[i])));
    list
}

/// The marks of a list of windows.
pub open spec fn mark_list(windows: Seq<WindowModel>) -> Seq<MarkModel> {
    Seq::new(windows.len(), |i: int| mark_of(windows[i]))
}

/// Whether the credit is one of the live credits of the account.
fn has_credit(usage: &ManagedAccountUsage, credit: &str, now: i64) -> (found: bool)
    ensures
        found == offers_credit(usage@, credit@, now),
{
    match &usage.resets {
        Some(credits) => {
            let ghost models = text::views(credits@);
            let mut i: usize = 0;
            while i < credits.len()
                invariant
                    i <= credits.len(),
                    models == text::views(credits@),
                    usage@.resets == Some(models),
                    forall|j: int|
                        0 <= j < i ==> !((#[trigger] models[j]).id == credit@ && models[j].live(
                            now,
                        )),
                decreases credits.len() - i,
            {
                assert(models[i as int] == credits@[i as int]@);
                if text::same_text(credits[i].id.as_str(), credit) && credits[i].is_live(now) {
                    return true;
                }
                i = i + 1;
            }
            false
        },
        None => false,
    }
}

/// Begins a reset transaction with a new key at hand. Even where the credit of an open attempt has
/// disappeared, that attempt is reconciled under its own key.
pub fn redeem_with_key(
    fresh: &ManagedAccountUsage,
    now: i64,
    previous: Option<Intent>,
    credit: &str,
    model: &Option<String>,
    mode: RedemptionMode,
    key: String,
) -> (redemption: Result<Redemption, RedemptionError>)
    ensures
        (match redemption {
            Ok(redemption) => Ok(redemption@),
            Err(error) => Err(error),
        }) == begun(
            fresh@,
            now,
            text::opt_view(previous),
            credit@,
            text::opt_view(*model),
            mode,
            key@,
        ),
{
    if !policy::known(fresh, now) {
        return Err(RedemptionError::UnknownAvailability);
    }
    let usable: bool = policy::usable(fresh, now);
    let current: Vec<WindowMark> = windows(fresh);
    let mut reuse: Option<Intent> = None;
    if let Some(intent) = previous {
        if !intent.declined {
            let open: bool = !intent.completed;
            let settling: bool = intent.completed && (!intent.observed_usable || same_marks(
                &intent.windows,
                &current,
            ));
            if usable && (open || settling) {
                return Ok(
                    Redemption::Settled(
                        Some(Intent { completed: true, observed_usable: true, ..intent }),
                    ),
                );
            }
            if settling {
                return Err(RedemptionError::AwaitingRecovery);
            }
            if open {
                reuse = Some(intent);
            }
        }
    }
    if usable {
        return Ok(Redemption::Settled(None));
    }
    let intent: Intent = match reuse {
        Some(intent) => intent,
        None => {
            if !has_credit(fresh, credit, now) {
                return Err(RedemptionError::CreditUnavailable);
            }
            Intent {
                key,
                credit: credit.to_owned(),
                model: text::clone_opt(model),
                windows: current,
                completed: false,
                declined: false,
                automatic: mode == RedemptionMode::Automatic,
                observed_usable: false,
            }
        },
    };
    if mode == RedemptionMode::Automatic && !policy::blocked(fresh, WindowKind::Weekly) {
        return Err(RedemptionError::WeeklyAvailable);
    }
    Ok(Redemption::Send(intent))
}

/// Begins a reset transaction. A new attempt gets a random key.
pub fn redeem(
    fresh: &ManagedAccountUsage,
    now: i64,
    previous: Option<Intent>,
    credit: &str,
    model: &Option<String>,
    mode: RedemptionMode,
) -> (redemption: Result<Redemption, RedemptionError>)
    ensures
        exists|key: Seq<char>|
            uuid_text(key) && (match redemption {
                Ok(redemption) => Ok(redemption@),
                Err(error) => Err(error),
            }) == #[trigger] begun(
                fresh@,
                now,
                text::opt_view(previous),
                credit@,
                text::opt_view(*model),
                mode,
                key,
            ),
{
    let key: String = random_key();
    redeem_with_key(fresh, now, previous, credit, model, mode, key)
}

/// The backend refused the reset.
pub open spec fn refused(outcome: ResetOutcome) -> bool {
    outcome == ResetOutcome::NoCredit || outcome == ResetOutcome::NothingToReset
}

impl IntentModel {
    /// The intent once the backend has answered.
    pub open spec fn answered(self, outcome: ResetOutcome) -> IntentModel {
        IntentModel { completed: true, declined: refused(outcome), ..self }
    }

    /// The request may have been sent, and no answer to it is kept.
    pub open spec fn unfinished(self) -> bool {
        !self.completed && !self.declined
    }
}

/// The intent to write once the backend has answered.
pub fn answered(intent: Intent, outcome: ResetOutcome) -> (updated: Intent)
    ensures
        updated@ == intent@.answered(outcome),
{
    let declined: bool = outcome == ResetOutcome::NoCredit || outcome
        == ResetOutcome::NothingToReset;
    Intent { completed: true, declined, ..intent }
}

/// The intent to write once the usage has been read after the answer, if the account is usable.
pub fn observed(intent: Intent, fresh: &ManagedAccountUsage, now: i64) -> (updated: Option<Intent>)
    ensures
        text::opt_view(updated) == (if fresh@.usable_at(now) {
            Some(IntentModel { observed_usable: true, ..intent@ })
        } else {
            None
        }),
{
    if policy::usable(fresh, now) {
        Some(Intent { observed_usable: true, ..intent })
    } else {
        None
    }
}

/// What the answer of the backend means for the caller.
pub fn outcome_result(outcome: ResetOutcome) -> (result: Result<(), RedemptionError>)
    ensures
        result == (if refused(outcome) {
            Err(RedemptionError::Declined)
        } else {
            Ok(())
        }),
{
    match outcome {
        ResetOutcome::Reset | ResetOutcome::AlreadyRedeemed => Ok(()),
        ResetOutcome::NothingToReset | ResetOutcome::NoCredit => Err(RedemptionError::Declined),
    }
}

/// Why a transaction fails.
#[derive(Clone, Copy, Debug, PartialEq, Eq, Structural)]
pub enum TransactionError {
    /// The reset was not carried out, or declined.
    Refused(RedemptionError),
    /// An intent could not be written.
    Unwritten,
    /// The request got no answer.
    Unanswered,
}

/// What the caller has to do next in a transaction.
#[derive(Debug, PartialEq)]
pub enum TransactionAction {
    /// Write the intent to disk.
    Write(Intent),
    /// Redeem the credit under the key: first the key, then the credit.
    Send(String, String),
    ReadUsage,
    Finish(Result<ManagedAccountUsage, TransactionError>),
}

/// A `TransactionAction` as a mathematical value.
pub enum TransactionActionModel {
    Write(IntentModel),
    Send(Seq<char>, Seq<char>),
    ReadUsage,
    Finish(Result<UsageModel, TransactionError>),
}

/// The view of a result.
pub open spec fn result_view(
    result: Result<ManagedAccountUsage, TransactionError>,
) -> Result<UsageModel, TransactionError> {
    match result {
        Ok(usage) => Ok(usage@),
        Err(error) => Err(error),
    }
}

impl View for TransactionAction {
    type V = TransactionActionModel;

    open spec fn view(&self) -> TransactionActionModel {
        match self {
            TransactionAction::Write(intent) => TransactionActionModel::Write(intent@),
            TransactionAction::Send(key, credit) => TransactionActionModel::Send(key@, credit@),
            TransactionAction::ReadUsage => TransactionActionModel::ReadUsage,
            TransactionAction::Finish(result) => TransactionActionModel::Finish(
                result_view(*result),
            ),
        }
    }
}

/// What came of an action.
#[derive(Debug, PartialEq)]
pub enum TransactionEvent {
    /// Whether the intent was written. A write that fails leaves what was there.
    Written(bool),
    /// The answer of the backend, or nothing where the request failed.
    Answered(Option<ResetOutcome>),
    /// The usage of the account, and the time.
    Read(ManagedAccountUsage, i64),
}

/// A `TransactionEvent` as a mathematical value.
pub enum TransactionEventModel {
    Written(bool),
    Answered(Option<ResetOutcome>),
    Read(UsageModel, i64),
}

impl View for TransactionEvent {
    type V = TransactionEventModel;

    open spec fn view(&self) -> TransactionEventModel {
        match self {
            TransactionEvent::Written(done) => TransactionEventModel::Written(*done),
            TransactionEvent::Answered(outcome) => TransactionEventModel::Answered(*outcome),
            TransactionEvent::Read(usage, now) => TransactionEventModel::Read(usage@, *now),
        }
    }
}

/// Where a transaction stands.
#[derive(Debug, PartialEq)]
enum Stage {
    Settling(Intent, ManagedAccountUsage),
    Recording(Intent),
    Sending(Intent),
    Answering(Intent, ResetOutcome),
    Reading(Intent, ResetOutcome),
    Observing(Intent, ResetOutcome, ManagedAccountUsage),
    Finished(Result<ManagedAccountUsage, TransactionError>),
}

/// A reset transaction under way.
#[derive(Debug, PartialEq)]
pub struct Transaction {
    stage: Stage,
}

/// A `Transaction` as a mathematical value.
pub enum TransactionModel {
    /// The account is usable, and the intent says so once it is written.
    Settling(IntentModel, UsageModel),
    /// The attempt is to be written.
    Recording(IntentModel),
    /// The attempt is written, and is to be sent.
    Sending(IntentModel),
    /// The backend has answered, and the attempt is to be written with the answer.
    Answering(IntentModel, ResetOutcome),
    /// The answer is written, and the usage is to be read.
    Reading(IntentModel, ResetOutcome),
    /// The account is usable, and the intent says so once it is written.
    Observing(IntentModel, ResetOutcome, UsageModel),
    Finished(Result<UsageModel, TransactionError>),
}

impl View for Transaction {
    type V = TransactionModel;

    closed spec fn view(&self) -> TransactionModel {
        match self.stage {
            Stage::Settling(intent, fresh) => TransactionModel::Settling(intent@, fresh@),
            Stage::Recording(intent) => TransactionModel::Recording(intent@),
            Stage::Sending(intent) => TransactionModel::Sending(intent@),
            Stage::Answering(intent, outcome) => TransactionModel::Answering(intent@, outcome),
            Stage::Reading(intent, outcome) => TransactionModel::Reading(intent@, outcome),
            Stage::Observing(intent, outcome, fresh) => TransactionModel::Observing(
                intent@,
                outcome,
                fresh@,
            ),
            Stage::Finished(result) => TransactionModel::Finished(result_view(result)),
        }
    }
}

/// The end of a transaction that the backend has answered.
pub open spec fn concluded(outcome: ResetOutcome, fresh: UsageModel) -> TransactionModel {
    TransactionModel::Finished(
        if refused(outcome) {
            Err(TransactionError::Refused(RedemptionError::Declined))
        } else {
            Ok(fresh)
        },
    )
}

/// The transaction that a request for a reset leads to.
pub open spec fn opened(
    fresh: UsageModel,
    redemption: Result<RedemptionModel, RedemptionError>,
) -> TransactionModel {
    match redemption {
        Err(error) => TransactionModel::Finished(Err(TransactionError::Refused(error))),
        Ok(RedemptionModel::Settled(None)) => TransactionModel::Finished(Ok(fresh)),
        Ok(RedemptionModel::Settled(Some(intent))) => TransactionModel::Settling(intent, fresh),
        Ok(RedemptionModel::Send(intent)) => TransactionModel::Recording(intent),
    }
}

impl TransactionModel {
    /// What the caller has to do next.
    pub open spec fn action(self) -> TransactionActionModel {
        match self {
            TransactionModel::Settling(intent, _) => TransactionActionModel::Write(intent),
            TransactionModel::Recording(intent) => TransactionActionModel::Write(intent),
            TransactionModel::Sending(intent) => TransactionActionModel::Send(
                intent.key,
                intent.credit,
            ),
            TransactionModel::Answering(intent, _) => TransactionActionModel::Write(intent),
            TransactionModel::Reading(_, _) => TransactionActionModel::ReadUsage,
            TransactionModel::Observing(intent, _, _) => TransactionActionModel::Write(intent),
            TransactionModel::Finished(result) => TransactionActionModel::Finish(result),
        }
    }

    /// What an event makes of the transaction. An event that it does not wait for changes nothing.
    pub open spec fn stepped(self, event: TransactionEventModel) -> TransactionModel {
        match (self, event) {
            (TransactionModel::Finished(_), _) => self,
            (TransactionModel::Sending(intent), TransactionEventModel::Answered(answer)) =>
                match answer {
                    Some(outcome) => TransactionModel::Answering(intent.answered(outcome), outcome),
                    None => TransactionModel::Finished(Err(TransactionError::Unanswered)),
                },
            (TransactionModel::Reading(intent, outcome), TransactionEventModel::Read(fresh, now)) =>
                if fresh.usable_at(now) {
                    TransactionModel::Observing(
                        IntentModel { observed_usable: true, ..intent },
                        outcome,
                        fresh,
                    )
                } else {
                    concluded(outcome, fresh)
                },
            (TransactionModel::Sending(_) | TransactionModel::Reading(_, _), _) => self,
            (_, TransactionEventModel::Written(false)) => TransactionModel::Finished(
                Err(TransactionError::Unwritten),
            ),
            (TransactionModel::Settling(_, fresh), TransactionEventModel::Written(true)) =>
                TransactionModel::Finished(Ok(fresh)),
            (TransactionModel::Recording(intent), TransactionEventModel::Written(true)) =>
                TransactionModel::Sending(intent),
            (TransactionModel::Answering(intent, outcome), TransactionEventModel::Written(true)) =>
                TransactionModel::Reading(intent, outcome),
            (
                TransactionModel::Observing(_, outcome, fresh),
                TransactionEventModel::Written(true),
            ) => concluded(outcome, fresh),
            _ => self,
        }
    }
}

impl Transaction {
    /// Begins the transaction of a reset with a new key at hand: given the usage of the account as
    /// read just now, and the intent on disk.
    pub fn begin_with_key(
        fresh: ManagedAccountUsage,
        now: i64,
        previous: Option<Intent>,
        credit: &str,
        model: &Option<String>,
        mode: RedemptionMode,
        key: String,
    ) -> (transaction: Transaction)
        ensures
            transaction@ == opened(
                fresh@,
                begun(
                    fresh@,
                    now,
                    text::opt_view(previous),
                    credit@,
                    text::opt_view(*model),
                    mode,
                    key@,
                ),
            ),
    {
        let redemption: Result<Redemption, RedemptionError> = redeem_with_key(
            &fresh,
            now,
            previous,
            credit,
            model,
            mode,
            key,
        );
        Transaction::open(fresh, redemption)
    }

    /// Begins the transaction of a reset. A new attempt gets a random key.
    pub fn begin(
        fresh: ManagedAccountUsage,
        now: i64,
        previous: Option<Intent>,
        credit: &str,
        model: &Option<String>,
        mode: RedemptionMode,
    ) -> (transaction: Transaction)
        ensures
            exists|key: Seq<char>|
                uuid_text(key) && transaction@ == opened(
                    fresh@,
                    #[trigger] begun(
                        fresh@,
                        now,
                        text::opt_view(previous),
                        credit@,
                        text::opt_view(*model),
                        mode,
                        key,
                    ),
                ),
    {
        let redemption: Result<Redemption, RedemptionError> = redeem(
            &fresh,
            now,
            previous,
            credit,
            model,
            mode,
        );
        Transaction::open(fresh, redemption)
    }

    /// The transaction that a request for a reset leads to, given the usage that it went by.
    fn open(
        fresh: ManagedAccountUsage,
        redemption: Result<Redemption, RedemptionError>,
    ) -> (transaction: Transaction)
        ensures
            transaction@ == opened(
                fresh@,
                match redemption {
                    Ok(redemption) => Ok(redemption@),
                    Err(error) => Err(error),
                },
            ),
    {
        let stage: Stage = match redemption {
            Err(error) => Stage::Finished(Err(TransactionError::Refused(error))),
            Ok(Redemption::Settled(None)) => Stage::Finished(Ok(fresh)),
            Ok(Redemption::Settled(Some(intent))) => Stage::Settling(intent, fresh),
            Ok(Redemption::Send(intent)) => Stage::Recording(intent),
        };
        Transaction { stage }
    }

    /// The end of a transaction that the backend has answered.
    fn conclude(outcome: ResetOutcome, fresh: ManagedAccountUsage) -> (transaction: Transaction)
        ensures
            transaction@ == concluded(outcome, fresh@),
    {
        let result: Result<ManagedAccountUsage, TransactionError> = match outcome_result(outcome) {
            Ok(()) => Ok(fresh),
            Err(error) => Err(TransactionError::Refused(error)),
        };
        Transaction { stage: Stage::Finished(result) }
    }

    /// What the caller has to do next.
    pub fn action(&self) -> (action: TransactionAction)
        ensures
            action@ == self@.action(),
    {
        match &self.stage {
            Stage::Settling(intent, _) => TransactionAction::Write(intent.clone()),
            Stage::Recording(intent) => TransactionAction::Write(intent.clone()),
            Stage::Sending(intent) => TransactionAction::Send(
                intent.key.clone(),
                intent.credit.clone(),
            ),
            Stage::Answering(intent, _) => TransactionAction::Write(intent.clone()),
            Stage::Reading(_, _) => TransactionAction::ReadUsage,
            Stage::Observing(intent, _, _) => TransactionAction::Write(intent.clone()),
            Stage::Finished(Ok(fresh)) => TransactionAction::Finish(Ok(fresh.clone())),
            Stage::Finished(Err(error)) => TransactionAction::Finish(Err(*error)),
        }
    }

    /// Goes on with what came of the action. An event that the transaction does not wait for changes
    /// nothing.
    pub fn step(self, event: TransactionEvent) -> (next: Transaction)
        ensures
            next@ == self@.stepped(event@),
    {
        match (self.stage, event) {
            (Stage::Sending(intent), TransactionEvent::Answered(Some(outcome))) => Transaction {
                stage: Stage::Answering(answered(intent, outcome), outcome),
            },
            (Stage::Sending(_), TransactionEvent::Answered(None)) => Transaction {
                stage: Stage::Finished(Err(TransactionError::Unanswered)),
            },
            (Stage::Reading(intent, outcome), TransactionEvent::Read(fresh, now)) => {
                match observed(intent, &fresh, now) {
                    Some(intent) => Transaction { stage: Stage::Observing(intent, outcome, fresh) },
                    None => Transaction::conclude(outcome, fresh),
                }
            },
            (Stage::Settling(_, fresh), TransactionEvent::Written(true)) => Transaction {
                stage: Stage::Finished(Ok(fresh)),
            },
            (Stage::Recording(intent), TransactionEvent::Written(true)) => Transaction {
                stage: Stage::Sending(intent),
            },
            (Stage::Answering(intent, outcome), TransactionEvent::Written(true)) => Transaction {
                stage: Stage::Reading(intent, outcome),
            },
            (Stage::Observing(_, outcome, fresh), TransactionEvent::Written(true)) => {
                Transaction::conclude(outcome, fresh)
            },
            (Stage::Settling(_, _), TransactionEvent::Written(false))
            | (Stage::Recording(_), TransactionEvent::Written(false))
            | (Stage::Answering(_, _), TransactionEvent::Written(false))
            | (Stage::Observing(_, _, _), TransactionEvent::Written(false)) => Transaction {
                stage: Stage::Finished(Err(TransactionError::Unwritten)),
            },
            (stage, _) => Transaction { stage },
        }
    }
}

/// What a row of events makes of a transaction.
pub open spec fn after(
    transaction: TransactionModel,
    events: Seq<TransactionEventModel>,
) -> TransactionModel
    decreases events.len(),
{
    if events.len() == 0 {
        transaction
    } else {
        after(transaction, events.drop_last()).stepped(events.last())
    }
}

/// The intent on disk after a row of events, where `kept` was there before the transaction.
pub open spec fn stored(
    transaction: TransactionModel,
    kept: Option<IntentModel>,
    events: Seq<TransactionEventModel>,
) -> Option<IntentModel>
    decreases events.len(),
{
    if events.len() == 0 {
        kept
    } else {
        match (after(transaction, events.drop_last()).action(), events.last()) {
            (TransactionActionModel::Write(intent), TransactionEventModel::Written(true)) => Some(
                intent,
            ),
            _ => stored(transaction, kept, events.drop_last()),
        }
    }
}

/// The intent to write, if there is one, once an account was seen to be usable.
pub fn observe_usable(intent: Option<Intent>) -> (updated: Option<Intent>)
    ensures
        text::opt_view(updated) == (match text::opt_view(intent) {
            Some(intent) => Some(
                IntentModel { completed: true, observed_usable: true, ..intent },
            ),
            None => None,
        }),
{
    match intent {
        Some(intent) => Some(Intent { completed: true, observed_usable: true, ..intent }),
        None => None,
    }
}

/// The credit of an attempt that is still to be reconciled.
pub open spec fn pending(intent: Option<IntentModel>) -> Option<Seq<char>> {
    match intent {
        Some(intent) => if !intent.observed_usable && !intent.declined {
            Some(intent.credit)
        } else {
            None
        },
        None => None,
    }
}

/// The credit of an attempt that is still to be reconciled.
pub fn pending_credit(intent: Option<Intent>) -> (credit: Option<String>)
    ensures
        text::opt_view(credit) == pending(text::opt_view(intent)),
{
    match intent {
        Some(intent) => {
            if !intent.observed_usable && !intent.declined {
                Some(intent.credit)
            } else {
                None
            }
        },
        None => None,
    }
}

/// A retry of an attempt without an answer keeps its key and its credit, whatever credit is asked
/// for now.
pub proof fn law_retry_keeps_key_and_credit(
    fresh: UsageModel,
    now: i64,
    previous: IntentModel,
    credit: Seq<char>,
    model: Option<Seq<char>>,
    mode: RedemptionMode,
    key: Seq<char>,
)
    requires
        !previous.completed,
        !previous.declined,
        begun(fresh, now, Some(previous), credit, model, mode, key) matches Ok(
            RedemptionModel::Send(_),
        ),
    ensures
        begun(fresh, now, Some(previous), credit, model, mode, key)->Ok_0 == RedemptionModel::Send(
            previous,
        ),
{
}

/// An applied reset is never followed by another until the account has been seen usable and its
/// windows have moved on.
pub proof fn law_applied_reset_waits_for_recovery(
    fresh: UsageModel,
    now: i64,
    previous: IntentModel,
    credit: Seq<char>,
    model: Option<Seq<char>>,
    mode: RedemptionMode,
    key: Seq<char>,
)
    requires
        previous.completed,
        !previous.declined,
        !previous.observed_usable || previous.windows == marks(fresh),
    ensures
        !(begun(fresh, now, Some(previous), credit, model, mode, key) matches Ok(
            RedemptionModel::Send(_),
        )),
{
}

/// A declined attempt stands in the way of nothing: the next request is as if there were none.
pub proof fn law_declined_attempt_is_forgotten(
    fresh: UsageModel,
    now: i64,
    previous: IntentModel,
    credit: Seq<char>,
    model: Option<Seq<char>>,
    mode: RedemptionMode,
    key: Seq<char>,
)
    requires
        previous.declined,
    ensures
        begun(fresh, now, Some(previous), credit, model, mode, key) == begun(
            fresh,
            now,
            None,
            credit,
            model,
            mode,
            key,
        ),
        pending(Some(previous)) is None,
{
}

/// A request is sent only for an account that is known and not usable; an automatic one only where
/// a weekly window is exhausted. A new attempt asks for a live credit of the account.
pub proof fn law_reset_is_sent_only_when_needed(
    fresh: UsageModel,
    now: i64,
    previous: Option<IntentModel>,
    credit: Seq<char>,
    model: Option<Seq<char>>,
    mode: RedemptionMode,
    key: Seq<char>,
)
    requires
        begun(fresh, now, previous, credit, model, mode, key) matches Ok(RedemptionModel::Send(_)),
    ensures
        fresh.known_at(now),
        !fresh.usable_at(now),
        mode == RedemptionMode::Automatic ==> fresh.blocked_by(WindowKind::Weekly),
        ({
            let sent = begun(fresh, now, previous, credit, model, mode, key)->Ok_0->Send_0;
            previous == Some(sent) || (sent.key == key && sent.credit == credit && offers_credit(
                fresh,
                credit,
                now,
            ))
        }),
{
}

/// An attempt that was sent stays pending until it is answered with a refusal or the account is
/// seen usable.
pub proof fn law_sent_attempt_stays_pending(
    fresh: UsageModel,
    now: i64,
    previous: Option<IntentModel>,
    credit: Seq<char>,
    model: Option<Seq<char>>,
    mode: RedemptionMode,
    key: Seq<char>,
)
    requires
        previous matches Some(intent) ==> !intent.completed ==> !intent.observed_usable,
        begun(fresh, now, previous, credit, model, mode, key) matches Ok(RedemptionModel::Send(_)),
    ensures
        ({
            let sent = begun(fresh, now, previous, credit, model, mode, key)->Ok_0->Send_0;
            pending(Some(sent)) == Some(sent.credit)
        }),
{
}

/// What is on disk at each stage.
spec fn durable(transaction: TransactionModel, kept: Option<IntentModel>) -> bool {
    match transaction {
        TransactionModel::Recording(intent) => intent.unfinished(),
        TransactionModel::Sending(intent) => intent.unfinished() && kept == Some(intent),
        TransactionModel::Answering(intent, _) => {
            &&& kept is Some
            &&& kept->0.unfinished()
            &&& kept->0.key == intent.key
            &&& kept->0.credit == intent.credit
        },
        TransactionModel::Reading(intent, _) => kept == Some(intent),
        _ => true,
    }
}

/// What is on disk at each stage is there after every row of events.
proof fn lemma_durable(
    transaction: TransactionModel,
    kept: Option<IntentModel>,
    events: Seq<TransactionEventModel>,
)
    requires
        durable(transaction, kept),
    ensures
        durable(after(transaction, events), stored(transaction, kept, events)),
    decreases events.len(),
{
    if events.len() > 0 {
        lemma_durable(transaction, kept, events.drop_last());
    }
}

/// How far a transaction has come.
spec fn progress(transaction: TransactionModel) -> int {
    match transaction {
        TransactionModel::Recording(_) => 0,
        TransactionModel::Sending(_) => 1,
        TransactionModel::Answering(_, _) => 2,
        TransactionModel::Reading(_, _) => 3,
        TransactionModel::Observing(_, _, _) => 4,
        TransactionModel::Settling(_, _) => 4,
        TransactionModel::Finished(_) => 5,
    }
}

/// A transaction never goes back, and one that has ended stays as it is.
proof fn lemma_progress(
    transaction: TransactionModel,
    kept: Option<IntentModel>,
    events: Seq<TransactionEventModel>,
    n: int,
)
    requires
        0 <= n <= events.len(),
    ensures
        progress(after(transaction, events.take(n))) <= progress(after(transaction, events)),
        after(transaction, events.take(n)) is Finished ==> {
            &&& after(transaction, events) == after(transaction, events.take(n))
            &&& stored(transaction, kept, events) == stored(transaction, kept, events.take(n))
        },
    decreases events.len(),
{
    if n == events.len() {
        assert(events.take(n) =~= events);
    } else {
        let shorter = events.drop_last();
        lemma_progress(transaction, kept, shorter, n);
        assert(shorter.take(n) =~= events.take(n));
    }
}

/// An attempt that is to be sent was written.
proof fn lemma_written(start: TransactionModel, events: Seq<TransactionEventModel>)
    requires
        !(start is Sending),
        after(start, events) is Sending,
    ensures
        exists|n: int|
            {
                &&& 0 <= n < events.len()
                &&& #[trigger] after(start, events.take(n)).action()
                    == TransactionActionModel::Write(after(start, events)->Sending_0)
                &&& events[n] == TransactionEventModel::Written(true)
            },
    decreases events.len(),
{
    let shorter = events.drop_last();
    let last = events.len() - 1;
    assert(events.take(last) =~= shorter);
    if after(start, shorter) is Sending {
        lemma_written(start, shorter);
        let n = choose|n: int|
            {
                &&& 0 <= n < shorter.len()
                &&& #[trigger] after(start, shorter.take(n)).action()
                    == TransactionActionModel::Write(after(start, shorter)->Sending_0)
                &&& shorter[n] == TransactionEventModel::Written(true)
            };
        assert(events.take(n) =~= shorter.take(n));
        assert(events[n] == shorter[n]);
    } else {
        assert(after(start, events.take(last)).action() == TransactionActionModel::Write(
            after(start, events)->Sending_0,
        ));
    }
}

/// A transaction asks for the request to be sent only after the attempt, unfinished, with the key
/// and the credit of the request, was written; it is then what is on disk, whatever was there
/// before.
pub proof fn law_attempt_is_written_before_it_is_sent(
    fresh: UsageModel,
    now: i64,
    previous: Option<IntentModel>,
    credit: Seq<char>,
    model: Option<Seq<char>>,
    mode: RedemptionMode,
    key: Seq<char>,
    kept: Option<IntentModel>,
    events: Seq<TransactionEventModel>,
)
    ensures
        ({
            let start = opened(fresh, begun(fresh, now, previous, credit, model, mode, key));
            after(start, events).action() matches TransactionActionModel::Send(
                sent_key,
                sent_credit,
            ) ==> {
                &&& stored(start, kept, events) is Some
                &&& stored(start, kept, events)->0.key == sent_key
                &&& stored(start, kept, events)->0.credit == sent_credit
                &&& stored(start, kept, events)->0.unfinished()
                &&& exists|n: int|
                    {
                        &&& 0 <= n < events.len()
                        &&& #[trigger] after(start, events.take(n)).action()
                            == TransactionActionModel::Write(stored(start, kept, events)->0)
                        &&& events[n] == TransactionEventModel::Written(true)
                    }
            }
        }),
{
    let start = opened(fresh, begun(fresh, now, previous, credit, model, mode, key));
    lemma_durable(start, kept, events);
    if after(start, events) is Sending {
        lemma_written(start, events);
    }
}

/// A request that fails ends the transaction with an error, whatever comes in afterwards: nothing
/// more is sent or written, and the attempt is on disk as it was sent, unfinished and with its key
/// and credit.
pub proof fn law_failed_request_leaves_the_attempt(
    fresh: UsageModel,
    now: i64,
    previous: Option<IntentModel>,
    credit: Seq<char>,
    model: Option<Seq<char>>,
    mode: RedemptionMode,
    key: Seq<char>,
    kept: Option<IntentModel>,
    events: Seq<TransactionEventModel>,
    rest: Seq<TransactionEventModel>,
)
    requires
        after(
            opened(fresh, begun(fresh, now, previous, credit, model, mode, key)),
            events,
        ).action() is Send,
    ensures
        ({
            let start = opened(fresh, begun(fresh, now, previous, credit, model, mode, key));
            let sent = after(start, events).action();
            let all = events.push(TransactionEventModel::Answered(None)) + rest;
            &&& after(start, all).action() == TransactionActionModel::Finish(
                Err(TransactionError::Unanswered),
            )
            &&& stored(start, kept, all) == stored(start, kept, events)
            &&& stored(start, kept, all) is Some
            &&& stored(start, kept, all)->0.unfinished()
            &&& sent == TransactionActionModel::Send(
                stored(start, kept, all)->0.key,
                stored(start, kept, all)->0.credit,
            )
        }),
{
    let start = opened(fresh, begun(fresh, now, previous, credit, model, mode, key));
    let failed = events.push(TransactionEventModel::Answered(None));
    let all = failed + rest;
    lemma_durable(start, kept, events);
    assert(failed.drop_last() =~= events);
    lemma_progress(start, kept, all, failed.len() as int);
    assert(all.take(failed.len() as int) =~= failed);
}

/// A request is sent once: after it was answered or has failed, the transaction never asks for one
/// again.
pub proof fn law_request_is_sent_once(
    start: TransactionModel,
    events: Seq<TransactionEventModel>,
    n: int,
    m: int,
)
    requires
        0 <= n < m <= events.len(),
        after(start, events.take(n)).action() is Send,
        events[n] is Answered,
    ensures
        !(after(start, events.take(m)).action() is Send),
{
    let sent = events.take(n + 1);
    assert(sent.drop_last() =~= events.take(n));
    lemma_progress(start, None, events.take(m), n + 1);
    assert(events.take(m).take(n + 1) =~= sent);
}

/// Wherever a transaction breaks off between the request and the writing of its answer, the next
/// one that sends a request sends the same key and credit, whatever it asks for.
pub proof fn law_interrupted_request_keeps_key_and_credit(
    fresh: UsageModel,
    now: i64,
    previous: Option<IntentModel>,
    credit: Seq<char>,
    model: Option<Seq<char>>,
    mode: RedemptionMode,
    key: Seq<char>,
    kept: Option<IntentModel>,
    events: Seq<TransactionEventModel>,
    next_fresh: UsageModel,
    next_now: i64,
    next_credit: Seq<char>,
    next_model: Option<Seq<char>>,
    next_mode: RedemptionMode,
    next_key: Seq<char>,
)
    ensures
        ({
            let start = opened(fresh, begun(fresh, now, previous, credit, model, mode, key));
            let next = begun(
                next_fresh,
                next_now,
                stored(start, kept, events),
                next_credit,
                next_model,
                next_mode,
                next_key,
            );
            next matches Ok(RedemptionModel::Send(sent)) ==> match after(start, events) {
                TransactionModel::Sending(intent) => sent == intent,
                TransactionModel::Answering(intent, _) => sent.key == intent.key && sent.credit
                    == intent.credit,
                _ => true,
            }
        }),
{
    let start = opened(fresh, begun(fresh, now, previous, credit, model, mode, key));
    lemma_durable(start, kept, events);
}

/// A reset is sent wherever it should be. For a known reading that is not usable, with the asked
/// credit live and, if the request is automatic, a weekly window exhausted, a new attempt is made
/// with the new key and the asked credit where there is no earlier attempt, where the earlier one
/// was declined, and where it was applied, seen usable, and the windows have moved on since.
pub proof fn law_new_reset_is_sent_when_the_last_is_over(
    fresh: UsageModel,
    now: i64,
    previous: Option<IntentModel>,
    credit: Seq<char>,
    model: Option<Seq<char>>,
    mode: RedemptionMode,
    key: Seq<char>,
    k: int,
)
    requires
        fresh.known_at(now),
        !fresh.usable_at(now),
        fresh.resets is Some,
        0 <= k < fresh.resets->0.len(),
        fresh.resets->0[k].id == credit,
        fresh.resets->0[k].expires_at is None || fresh.resets->0[k].expires_at->0 > now,
        mode == RedemptionMode::Automatic ==> fresh.blocked_by(WindowKind::Weekly),
        previous is None || previous->0.declined || (previous->0.completed
            && previous->0.observed_usable && previous->0.windows != marks(fresh)),
    ensures
        begun(fresh, now, previous, credit, model, mode, key) == Ok::<
            RedemptionModel,
            RedemptionError,
        >(
            RedemptionModel::Send(
                IntentModel {
                    key,
                    credit,
                    model,
                    windows: marks(fresh),
                    completed: false,
                    declined: false,
                    automatic: mode == RedemptionMode::Automatic,
                    observed_usable: false,
                },
            ),
        ),
{
    assert(offers_credit(fresh, credit, now)) by {
        assert(fresh.resets->0[k].live(now));
    }
}

/// An attempt without an answer is sent again as it is, though its credit is no longer listed, for
/// a known reading that is not usable; automatically only where a weekly window is exhausted.
pub proof fn law_unanswered_attempt_is_sent_again(
    fresh: UsageModel,
    now: i64,
    previous: IntentModel,
    credit: Seq<char>,
    model: Option<Seq<char>>,
    mode: RedemptionMode,
    key: Seq<char>,
)
    requires
        fresh.known_at(now),
        !fresh.usable_at(now),
        mode == RedemptionMode::Automatic ==> fresh.blocked_by(WindowKind::Weekly),
        !previous.completed,
        !previous.declined,
    ensures
        begun(fresh, now, Some(previous), credit, model, mode, key) == Ok::<
            RedemptionModel,
            RedemptionError,
        >(RedemptionModel::Send(previous)),
{
}

/// Where the account is usable nothing is sent. An attempt that is open, or waits for its recovery,
/// is marked as answered and seen usable, with the rest of it unchanged; any other is left alone.
pub proof fn law_usable_account_settles(
    fresh: UsageModel,
    now: i64,
    previous: Option<IntentModel>,
    credit: Seq<char>,
    model: Option<Seq<char>>,
    mode: RedemptionMode,
    key: Seq<char>,
)
    requires
        fresh.usable_at(now),
    ensures
        begun(fresh, now, previous, credit, model, mode, key) is Ok,
        begun(fresh, now, previous, credit, model, mode, key)->Ok_0 is Settled,
        ({
            let written = begun(fresh, now, previous, credit, model, mode, key)->Ok_0->Settled_0;
            &&& written is Some <==> previous is Some && !previous->0.declined && !(
            previous->0.completed && previous->0.observed_usable && previous->0.windows != marks(
                fresh,
            ))
            &&& written is Some ==> {
                &&& written->0.completed && written->0.observed_usable
                &&& !written->0.declined
                &&& written->0.key == previous->0.key && written->0.credit == previous->0.credit
                &&& written->0.model == previous->0.model && written->0.windows
                    == previous->0.windows
                &&& written->0.automatic == previous->0.automatic
            }
        }),
{
}

/// A reset is refused for one reason at a time: the reading is not known; else the account is not
/// usable and an applied attempt still waits for its recovery; else the credit of a new attempt is
/// not listed as live; else an automatic request meets no exhausted weekly window.
pub proof fn law_refusals(
    fresh: UsageModel,
    now: i64,
    previous: Option<IntentModel>,
    credit: Seq<char>,
    model: Option<Seq<char>>,
    mode: RedemptionMode,
    key: Seq<char>,
)
    ensures
        ({
            let made = begun(fresh, now, previous, credit, model, mode, key);
            let waits = previous is Some && !previous->0.declined && previous->0.completed && (
            !previous->0.observed_usable || previous->0.windows == marks(fresh));
            let unanswered = previous is Some && !previous->0.declined && !previous->0.completed;
            let listed = fresh.resets is Some && exists|k: int|
                0 <= k < fresh.resets->0.len() && (#[trigger] fresh.resets->0[k]).id == credit && (
                fresh.resets->0[k].expires_at is None || fresh.resets->0[k].expires_at->0 > now);
            let needed = fresh.known_at(now) && !fresh.usable_at(now);
            &&& made matches Err(error) ==> error != RedemptionError::Declined && error
                != RedemptionError::ResponseUnknown
            &&& made == Err::<RedemptionModel, RedemptionError>(
                RedemptionError::UnknownAvailability,
            ) <==> !fresh.known_at(now)
            &&& made == Err::<RedemptionModel, RedemptionError>(RedemptionError::AwaitingRecovery)
                <==> needed && waits
            &&& made == Err::<RedemptionModel, RedemptionError>(RedemptionError::CreditUnavailable)
                <==> needed && !waits && !unanswered && !listed
            &&& made == Err::<RedemptionModel, RedemptionError>(RedemptionError::WeeklyAvailable)
                <==> needed && !waits && (unanswered || listed) && mode == RedemptionMode::Automatic
                && !fresh.blocked_by(WindowKind::Weekly)
        }),
{
    let listed = fresh.resets is Some && exists|k: int|
        0 <= k < fresh.resets->0.len() && (#[trigger] fresh.resets->0[k]).id == credit && (
        fresh.resets->0[k].expires_at is None || fresh.resets->0[k].expires_at->0 > now);
    assert(offers_credit(fresh, credit, now) == listed);
}

/// The ordinary windows of a reading are marked by their limit, length and reset, all of them and no
/// others; the order in which the service lists them makes no difference.
pub proof fn law_marks_are_the_ordinary_windows(usage: UsageModel)
    ensures
        ({
            let ordinary = usage.windows.filter(
                |window: WindowModel| window.limit_id == seq!['c', 'o', 'd', 'e', 'x'],
            );
            marks(usage).to_multiset() == Seq::new(
                ordinary.len(),
                |i: int|
                    MarkModel {
                        limit_id: ordinary[i].limit_id,
                        window_minutes: ordinary[i].window_minutes,
                        resets_at: ordinary[i].resets_at,
                    },
            ).to_multiset()
        }),
        forall|i: int, j: int|
            #![trigger marks(usage)[i], marks(usage)[j]]
            0 <= i < j < marks(usage).len() ==> {
                let a = marks(usage)[i];
                let b = marks(usage)[j];
                &&& a.limit_id == b.limit_id
                &&& a.window_minutes <= b.window_minutes
                &&& a.window_minutes == b.window_minutes ==> a.resets_at is None || (
                b.resets_at is Some && a.resets_at->0 <= b.resets_at->0)
            },
{
    reveal_strlit("codex");
    assert("codex"@ =~= seq!['c', 'o', 'd', 'e', 'x']);
    let keep = |window: WindowModel| window.limit_id == "codex"@;
    let same = |window: WindowModel| window.limit_id == seq!['c', 'o', 'd', 'e', 'x'];
    assert(keep =~= same);
    let before = |a: MarkModel, b: MarkModel| mark_before(a, b);
    let ordinary = usage.windows.filter(keep);
    let list = Seq::new(ordinary.len(), |i: int| mark_of(ordinary[i]));
    sorting::lemma_arranged_is_permutation(list, before);
    assert(list =~= Seq::new(
        ordinary.len(),
        |i: int|
            MarkModel {
                limit_id: ordinary[i].limit_id,
                window_minutes: ordinary[i].window_minutes,
                resets_at: ordinary[i].resets_at,
            },
    ));
    assert forall|i: int| 0 <= i < list.len() implies (#[trigger] list[i]).limit_id == "codex"@ by {
        usage.windows.lemma_filter_pred(keep, i);
    }
    lemma_marks_in_order(list);
}

/// Marks of one limit are arranged by length and reset.
proof fn lemma_marks_in_order(list: Seq<MarkModel>)
    requires
        forall|i: int| 0 <= i < list.len() ==> (#[trigger] list[i]).limit_id == "codex"@,
    ensures
        ({
            let marks = sorting::arranged(
                list,
                |a: MarkModel, b: MarkModel| mark_before(a, b),
            );
            &&& marks.len() == list.len()
            &&& forall|i: int| 0 <= i < marks.len() ==> (#[trigger] marks[i]).limit_id == "codex"@
            &&& forall|i: int, j: int|
                #![trigger marks[i], marks[j]]
                0 <= i < j < marks.len() ==> !mark_before(marks[j], marks[i])
        }),
    decreases list.len(),
{
    let before = |a: MarkModel, b: MarkModel| mark_before(a, b);
    if list.len() > 0 {
        let shorter = list.drop_last();
        assert forall|i: int| 0 <= i < shorter.len() implies (#[trigger] shorter[i]).limit_id
            == "codex"@ by {
            assert(shorter[i] == list[i]);
        }
        lemma_marks_in_order(shorter);
        let rest = sorting::arranged(shorter, before);
        let item = list.last();
        assert(list[list.len() - 1] == item);
        sorting::lemma_slot(rest, item, before);
        let at = sorting::slot(rest, item, before);
        let marks = sorting::placed(rest, item, before);
        assert forall|i: int| 0 <= i < marks.len() implies (#[trigger] marks[i]).limit_id
            == "codex"@ by {
            if i < at {
                assert(marks[i] == rest[i]);
            } else if i > at {
                assert(marks[i] == rest[i - 1]);
            }
        }
        assert forall|i: int, j: int|
            #![trigger marks[i], marks[j]]
            0 <= i < j < marks.len() implies !mark_before(marks[j], marks[i]) by {
            if j < at {
                assert(marks[i] == rest[i] && marks[j] == rest[j]);
            } else if j == at {
                assert(marks[i] == rest[i] && marks[j] == item);
                assert(!before(item, rest[i]));
            } else if i < at {
                assert(marks[i] == rest[i] && marks[j] == rest[j - 1]);
            } else if i == at {
                assert(marks[i] == item && marks[j] == rest[j - 1]);
                assert(before(item, rest[at]));
                if j - 1 > at {
                    assert(!mark_before(rest[j - 1], rest[at]));
                }
            } else {
                assert(marks[i] == rest[i - 1] && marks[j] == rest[j - 1]);
            }
        }
    }
}

/// An answer completes an attempt; it is declined exactly where the backend had no credit or nothing
/// to reset, and keeps its key, credit, model and windows.
pub proof fn law_answer_completes_the_attempt(intent: IntentModel, outcome: ResetOutcome)
    ensures
        intent.answered(outcome).completed,
        intent.answered(outcome).declined <==> outcome == ResetOutcome::NoCredit || outcome
            == ResetOutcome::NothingToReset,
        intent.answered(outcome).key == intent.key,
        intent.answered(outcome).credit == intent.credit,
        intent.answered(outcome).model == intent.model,
        intent.answered(outcome).windows == intent.windows,
        intent.answered(outcome).automatic == intent.automatic,
        intent.answered(outcome).observed_usable == intent.observed_usable,
{
}

/// A credit is pending exactly where an attempt for it was neither declined nor seen usable.
pub proof fn law_pending_until_declined_or_seen_usable(intent: Option<IntentModel>)
    ensures
        pending(intent) is Some <==> intent is Some && !intent->0.declined
            && !intent->0.observed_usable,
        pending(intent) is Some ==> pending(intent) == Some(intent->0.credit),
{
}

/// A transaction whose attempt goes through writes the attempt, sends it, writes the answer, reads
/// the usage, and writes once more where the account is usable then; it ends with that reading, or
/// with a refusal where the backend declined.
pub proof fn law_transaction_runs_through(
    attempt: IntentModel,
    outcome: ResetOutcome,
    fresh: UsageModel,
    now: i64,
)
    ensures
        ({
            let recording = TransactionModel::Recording(attempt);
            let sending = recording.stepped(TransactionEventModel::Written(true));
            let answering = sending.stepped(TransactionEventModel::Answered(Some(outcome)));
            let reading = answering.stepped(TransactionEventModel::Written(true));
            let read = reading.stepped(TransactionEventModel::Read(fresh, now));
            let end = if fresh.usable_at(now) {
                read.stepped(TransactionEventModel::Written(true))
            } else {
                read
            };
            let declined = outcome == ResetOutcome::NoCredit || outcome
                == ResetOutcome::NothingToReset;
            &&& recording.action() == TransactionActionModel::Write(attempt)
            &&& sending.action() == TransactionActionModel::Send(attempt.key, attempt.credit)
            &&& answering.action() == TransactionActionModel::Write(attempt.answered(outcome))
            &&& reading.action() == TransactionActionModel::ReadUsage
            &&& fresh.usable_at(now) ==> read.action() == TransactionActionModel::Write(
                IntentModel { observed_usable: true, ..attempt.answered(outcome) },
            )
            &&& !declined ==> end.action() == TransactionActionModel::Finish(Ok(fresh))
            &&& declined ==> end.action() == TransactionActionModel::Finish(
                Err(TransactionError::Refused(RedemptionError::Declined)),
            )
        }),
{
}

/// A write that fails ends a transaction with an error.
pub proof fn law_failed_write_ends_the_transaction(transaction: TransactionModel)
    requires
        transaction.action() is Write,
    ensures
        transaction.stepped(TransactionEventModel::Written(false)).action()
            == TransactionActionModel::Finish(Err(TransactionError::Unwritten)),
{
}

/// A request that is refused is a transaction that has ended; one that finds the account usable ends
/// with the reading, after a write where there is something to write; any other begins with the
/// writing of its attempt.
pub proof fn law_transaction_begins_with_its_request(
    fresh: UsageModel,
    redemption: Result<RedemptionModel, RedemptionError>,
)
    ensures
        match redemption {
            Err(error) => opened(fresh, redemption).action() == TransactionActionModel::Finish(
                Err(TransactionError::Refused(error)),
            ),
            Ok(RedemptionModel::Send(intent)) => opened(fresh, redemption).action()
                == TransactionActionModel::Write(intent) && opened(fresh, redemption).stepped(
                TransactionEventModel::Written(true),
            ).action() == TransactionActionModel::Send(intent.key, intent.credit),
            Ok(RedemptionModel::Settled(None)) => opened(fresh, redemption).action()
                == TransactionActionModel::Finish(Ok(fresh)),
            Ok(RedemptionModel::Settled(Some(intent))) => opened(fresh, redemption).action()
                == TransactionActionModel::Write(intent) && opened(fresh, redemption).stepped(
                TransactionEventModel::Written(true),
            ).action() == TransactionActionModel::Finish(Ok(fresh)),
        },
{
}

/// A `WindowMark` is seen with every field as it is.
pub proof fn law_window_mark_is_seen_whole(value: WindowMark)
    ensures
        value@.limit_id == value.limit_id@,
        value@.window_minutes == value.window_minutes,
        value@.resets_at == value.resets_at,
{
}

/// A `Intent` is seen with every field as it is.
pub proof fn law_intent_is_seen_whole(value: Intent)
    ensures
        value@.key == value.key@,
        value@.credit == value.credit@,
        value@.model == text::opt_view(value.model),
        value@.windows == text::views(value.windows@),
        value@.completed == value.completed,
        value@.declined == value.declined,
        value@.automatic == value.automatic,
        value@.observed_usable == value.observed_usable,
{
}

/// A `Redemption` is seen as the form it has, with every part of it.
pub proof fn law_redemption_is_seen_whole(value: Redemption)
    ensures
        value@ == (match value {
            Redemption::Settled(intent) => RedemptionModel::Settled(text::opt_view(intent)),
            Redemption::Send(intent) => RedemptionModel::Send(intent@),
        }),
{
}

/// A `TransactionAction` is seen as the form it has, with every part of it.
pub proof fn law_transaction_action_is_seen_whole(value: TransactionAction)
    ensures
        value@ == (match value {
            TransactionAction::Write(intent) => TransactionActionModel::Write(intent@),
            TransactionAction::Send(key, credit) => TransactionActionModel::Send(key@, credit@),
            TransactionAction::ReadUsage => TransactionActionModel::ReadUsage,
            TransactionAction::Finish(result) => TransactionActionModel::Finish(
                result_view(result),
            ),
        }),
{
}

/// A `TransactionEvent` is seen as the form it has, with every part of it.
pub proof fn law_transaction_event_is_seen_whole(value: TransactionEvent)
    ensures
        value@ == (match value {
            TransactionEvent::Written(done) => TransactionEventModel::Written(done),
            TransactionEvent::Answered(outcome) => TransactionEventModel::Answered(outcome),
            TransactionEvent::Read(usage, now) => TransactionEventModel::Read(usage@, now),
        }),
{
}

/// Every refusal of a reset is told in words of its own.
pub proof fn law_refusals_are_told()
    ensures
        RedemptionError::UnknownAvailability.words()
            == "Availability is unknown; no reset was sent"@,
        RedemptionError::AwaitingRecovery.words()
            == "Previous reset is awaiting verified quota recovery"@,
        RedemptionError::CreditUnavailable.words() == "Reset credit is no longer available"@,
        RedemptionError::WeeklyAvailable.words()
            == "Weekly capacity is available; a pending automatic reset will not be sent for short-window exhaustion"@,
        RedemptionError::Declined.words()
            == "Backend declined reset; waiting for verified quota recovery"@,
        RedemptionError::ResponseUnknown.words()
            == "Reset response is unknown; the persisted attempt will be reconciled"@,
{
}

} // verus!
