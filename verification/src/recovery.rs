//! How a session finds a usable account again after a quota rejection.
//!
//! A recovery is a state machine. `action` says what the caller has to do next, and `step` takes
//! what came of it. The caller reads the store and the network, holds the recovery lock for as long
//! as `holds_lock` says so, and passes on the events.

use crate::account_pool::AccountModel;
use crate::account_pool::AccountPoolEvent;
use crate::account_pool::EventModel;
use crate::account_pool::ManagedAccount;
use crate::account_pool::ManagedAccountUsage;
use crate::account_pool::PoolWaitReason;
use crate::account_pool::UsageModel;
use crate::denials;
use crate::lists;
use crate::membership;
use crate::membership::MembershipModel;
use crate::membership::PoolMembership;
use crate::policy;
use crate::policy::Decision;
use crate::policy::DecisionModel;
use crate::policy::WindowKind;
use crate::policy::CHECK_SECONDS;
use crate::session::PoolSession;
use crate::session::RecoveryState;
use crate::session::SessionModel;
use crate::session::StateModel;
use crate::text;
use vstd::prelude::*;

verus! {

/// Seconds of the longest wait after repeated failures.
pub const LONGEST_WAIT: i64 = 300;

/// Where a recovery stands, that is, what it waits for. Numbers are positions of pool members.
#[derive(Clone, Copy, Debug, PartialEq, Eq, Structural)]
pub enum RecoveryPhase {
    /// The members of the selection.
    Members,
    /// The usage of every member.
    Usages,
    /// The members again, to see that the usages still cover them.
    Confirm,
    /// The credit of a member's unfinished reset.
    Pending(usize),
    /// The recovery lock.
    Lock,
    /// The usage of the chosen member once more.
    Fresh(usize),
    /// The members again, before the chosen member is used.
    Verify(usize),
    /// The credentials of the chosen member.
    Activate(usize),
    /// The note that the chosen member was seen usable.
    Observe(usize),
    /// The reset of a member.
    Redeem(usize),
    /// The members again, before the reset member is used.
    VerifyReset(usize),
    /// The credentials of the reset member.
    ActivateReset(usize),
    /// The note for the session's thread.
    Save(usize),
    /// The end of a wait of so many seconds.
    Sleep(u64),
    /// Nothing: the session has a usable account.
    Done,
}

/// What the caller has to do next.
#[derive(Debug, PartialEq, Eq)]
pub enum RecoveryAction {
    ReadMembership,
    ReadUsages,
    ReadPendingCredit(usize),
    TakeLock,
    ReadFresh(usize),
    Activate(usize),
    ObserveUsable(usize),
    Redeem(usize, String),
    Save(Option<RecoveryState>),
    Sleep(u64),
    Finish,
}

/// A `RecoveryAction` as a mathematical value.
pub enum ActionModel {
    ReadMembership,
    ReadUsages,
    ReadPendingCredit(int),
    TakeLock,
    ReadFresh(int),
    Activate(int),
    ObserveUsable(int),
    Redeem(int, Seq<char>),
    Save(Option<StateModel>),
    Sleep(int),
    Finish,
}

impl View for RecoveryAction {
    type V = ActionModel;

    open spec fn view(&self) -> ActionModel {
        match self {
            RecoveryAction::ReadMembership => ActionModel::ReadMembership,
            RecoveryAction::ReadUsages => ActionModel::ReadUsages,
            RecoveryAction::ReadPendingCredit(i) => ActionModel::ReadPendingCredit(*i as int),
            RecoveryAction::TakeLock => ActionModel::TakeLock,
            RecoveryAction::ReadFresh(i) => ActionModel::ReadFresh(*i as int),
            RecoveryAction::Activate(i) => ActionModel::Activate(*i as int),
            RecoveryAction::ObserveUsable(i) => ActionModel::ObserveUsable(*i as int),
            RecoveryAction::Redeem(i, credit) => ActionModel::Redeem(*i as int, credit@),
            RecoveryAction::Save(state) => ActionModel::Save(text::opt_view(*state)),
            RecoveryAction::Sleep(seconds) => ActionModel::Sleep(*seconds as int),
            RecoveryAction::Finish => ActionModel::Finish,
        }
    }
}

/// What came of an action.
#[derive(Debug, PartialEq)]
pub enum RecoveryEvent {
    /// The members, or nothing where the store could not be read or lacks the selection.
    Membership(Option<PoolMembership>),
    /// The usage of every member, in order.
    Usages(Vec<ManagedAccountUsage>),
    /// The credit of the member's unfinished reset, if it has one.
    PendingCredit(Option<String>),
    LockTaken,
    /// The usage of the chosen member, and the time at which it was read.
    Fresh(ManagedAccountUsage, i64),
    /// Whether the credentials could be activated.
    Activated(bool),
    Observed,
    /// The usage after a reset, or nothing where the reset failed, and the time.
    Redeemed(Option<ManagedAccountUsage>, i64),
    Saved,
    Slept,
}

/// A `RecoveryEvent` as a mathematical value.
pub enum RecoveryEventModel {
    Membership(Option<MembershipModel>),
    Usages(Seq<UsageModel>),
    PendingCredit(Option<Seq<char>>),
    LockTaken,
    Fresh(UsageModel, i64),
    Activated(bool),
    Observed,
    Redeemed(Option<UsageModel>, i64),
    Saved,
    Slept,
}

impl View for RecoveryEvent {
    type V = RecoveryEventModel;

    open spec fn view(&self) -> RecoveryEventModel {
        match self {
            RecoveryEvent::Membership(members) => RecoveryEventModel::Membership(
                text::opt_view(*members),
            ),
            RecoveryEvent::Usages(usages) => RecoveryEventModel::Usages(text::views(usages@)),
            RecoveryEvent::PendingCredit(credit) => RecoveryEventModel::PendingCredit(
                text::opt_view(*credit),
            ),
            RecoveryEvent::LockTaken => RecoveryEventModel::LockTaken,
            RecoveryEvent::Fresh(usage, now) => RecoveryEventModel::Fresh(usage@, *now),
            RecoveryEvent::Activated(done) => RecoveryEventModel::Activated(*done),
            RecoveryEvent::Observed => RecoveryEventModel::Observed,
            RecoveryEvent::Redeemed(usage, now) => RecoveryEventModel::Redeemed(
                text::opt_view(*usage),
                *now,
            ),
            RecoveryEvent::Saved => RecoveryEventModel::Saved,
            RecoveryEvent::Slept => RecoveryEventModel::Slept,
        }
    }
}

/// A recovery under way.
#[derive(Debug, PartialEq)]
pub struct Recovery {
    current: ManagedAccount,
    membership: PoolMembership,
    usages: Vec<ManagedAccountUsage>,
    decision: Decision,
    decided_at: i64,
    failures: u32,
    locked: bool,
    phase: RecoveryPhase,
}

/// A `Recovery` as a mathematical value.
pub struct RecoveryModel {
    /// The account that was rejected.
    pub current: AccountModel,
    /// The members as last read.
    pub membership: MembershipModel,
    /// The usages as last read; those of rejected members do not allow ordinary usage.
    pub usages: Seq<UsageModel>,
    pub decision: DecisionModel,
    pub decided_at: i64,
    /// Waits in a row for unknown availability.
    pub failures: int,
    /// The recovery lock is held.
    pub locked: bool,
    pub phase: RecoveryPhase,
}

impl View for Recovery {
    type V = RecoveryModel;

    closed spec fn view(&self) -> RecoveryModel {
        RecoveryModel {
            current: self.current@,
            membership: self.membership@,
            usages: text::views(self.usages@),
            decision: self.decision@,
            decided_at: self.decided_at,
            failures: self.failures as int,
            locked: self.locked,
            phase: self.phase,
        }
    }
}

/// A recovery, its session and the events to pass on after a step.
pub struct Turn {
    pub recovery: RecoveryModel,
    pub session: SessionModel,
    pub events: Seq<EventModel>,
}

/// The member is refused at the time.
pub open spec fn refused(
    denied: Map<(Seq<char>, Seq<char>), i64>,
    account: AccountModel,
    now: i64,
) -> bool {
    denied.contains_key(account.identity()) && denied[account.identity()] > now
}

/// The usages, where a rejection counts for more than an eventually consistent usage read: a
/// refused member does not allow ordinary usage.
pub open spec fn marked(
    usages: Seq<UsageModel>,
    accounts: Seq<AccountModel>,
    denied: Map<(Seq<char>, Seq<char>), i64>,
    now: i64,
) -> Seq<UsageModel> {
    Seq::new(
        usages.len(),
        |i: int|
            if refused(denied, accounts[i], now) && usages[i].ordinary_usage_allowed == Some(
                true,
            ) {
                UsageModel { ordinary_usage_allowed: Some(false), ..usages[i] }
            } else {
                usages[i]
            },
    )
}

/// The position of a login among the members, or their number where it is none of them.
pub open spec fn login_position(accounts: Seq<AccountModel>, account: AccountModel) -> int {
    match lists::first(
        Seq::new(accounts.len(), |i: int| accounts[i].identity() == account.identity()),
    ) {
        Some(i) => i,
        None => accounts.len() as int,
    }
}

/// Seconds to wait after so many failures in a row.
pub open spec fn backoff(failures: int) -> int {
    if failures <= 1 {
        120
    } else if failures == 2 {
        240
    } else {
        LONGEST_WAIT as int
    }
}

impl RecoveryModel {
    /// Every position is that of a member, and the usages cover the members. A reset is asked for
    /// only under the lock and with the pool's permission; a wait takes one second to five minutes,
    /// and nothing is waited for under the lock.
    pub open spec fn wf(self) -> bool {
        let members = self.membership.accounts.len();
        &&& 0 <= self.failures <= 3
        &&& self.decided_at + LONGEST_WAIT <= i64::MAX
        &&& match self.phase {
            RecoveryPhase::Members | RecoveryPhase::Usages | RecoveryPhase::Lock => true,
            RecoveryPhase::Sleep(seconds) => !self.locked && 1 <= seconds <= LONGEST_WAIT,
            RecoveryPhase::Done => !self.locked,
            RecoveryPhase::Confirm => self.usages.len() == members,
            RecoveryPhase::Pending(i) => {
                &&& i < members
                &&& self.usages.len() == members
                &&& self.decision_holds()
            },
            RecoveryPhase::Fresh(i) | RecoveryPhase::Verify(i) | RecoveryPhase::Activate(i)
            | RecoveryPhase::Observe(i) | RecoveryPhase::VerifyReset(i)
            | RecoveryPhase::ActivateReset(i) | RecoveryPhase::Save(i) => i < members,
            RecoveryPhase::Redeem(i) => {
                &&& i < members
                &&& self.decision is Redeem
                &&& self.decision->Redeem_0 == i
                &&& self.membership.redeem_weekly
                &&& self.locked
            },
        }
    }

    /// The decision names a member, or the soonest time for the next check, which lies within a
    /// minute. A reset has the pool's permission.
    pub open spec fn decision_holds(self) -> bool {
        match self.decision {
            DecisionModel::Use(i) => 0 <= i < self.membership.accounts.len(),
            DecisionModel::Redeem(i, _) => 0 <= i < self.membership.accounts.len()
                && self.membership.redeem_weekly,
            DecisionModel::Wait(_, next) => next == self.soonest() && self.decided_at < next
                <= self.decided_at + CHECK_SECONDS,
        }
    }

    /// What the caller has to do next.
    pub open spec fn action(self, session: SessionModel) -> ActionModel {
        match self.phase {
            RecoveryPhase::Members | RecoveryPhase::Confirm | RecoveryPhase::Verify(_)
            | RecoveryPhase::VerifyReset(_) => ActionModel::ReadMembership,
            RecoveryPhase::Usages => ActionModel::ReadUsages,
            RecoveryPhase::Pending(i) => ActionModel::ReadPendingCredit(i as int),
            RecoveryPhase::Lock => ActionModel::TakeLock,
            RecoveryPhase::Fresh(i) => ActionModel::ReadFresh(i as int),
            RecoveryPhase::Activate(i) | RecoveryPhase::ActivateReset(i) => ActionModel::Activate(
                i as int,
            ),
            RecoveryPhase::Observe(i) => ActionModel::ObserveUsable(i as int),
            RecoveryPhase::Redeem(i) => ActionModel::Redeem(i as int, self.decision->Redeem_1),
            RecoveryPhase::Save(i) => ActionModel::Save(
                session.kept(self.membership.accounts[i as int], false),
            ),
            RecoveryPhase::Sleep(seconds) => ActionModel::Sleep(seconds as int),
            RecoveryPhase::Done => ActionModel::Finish,
        }
    }

    /// Starts over without the lock.
    pub open spec fn restarted(self) -> RecoveryModel {
        RecoveryModel { locked: false, phase: RecoveryPhase::Members, ..self }
    }

    /// A minute after the readings were judged, or a reset that they advertise before that.
    pub open spec fn soonest(self) -> int {
        policy::next_check(self.usages, self.decided_at, self.decided_at + CHECK_SECONDS)
    }

    /// When the next check is due. Failed reads back off, but an earlier advertised reset is still
    /// honoured.
    pub open spec fn due(self, reason: PoolWaitReason, next: i64) -> int {
        if reason == PoolWaitReason::UnknownAvailability && next == self.decided_at + CHECK_SECONDS {
            policy::next_check(
                self.usages,
                self.decided_at,
                self.decided_at + backoff(self.failures + 1),
            )
        } else {
            next as int
        }
    }

    /// Waits for a reason, without the lock.
    pub open spec fn waits(
        self,
        session: SessionModel,
        reason: PoolWaitReason,
        next: i64,
    ) -> Turn {
        let due = self.due(reason, next);
        let seconds = if due - self.decided_at < 1 {
            1
        } else {
            due - self.decided_at
        };
        Turn {
            recovery: RecoveryModel {
                failures: if reason != PoolWaitReason::UnknownAvailability {
                    0
                } else if self.failures < 3 {
                    self.failures + 1
                } else {
                    3
                },
                locked: false,
                phase: RecoveryPhase::Sleep(seconds as u64),
                ..self
            },
            session,
            events: seq![
                EventModel::Waiting {
                    account: self.current.alias,
                    reason,
                    next_check_at: due as i64,
                },
            ],
        }
    }

    /// Waits a minute for unknown availability.
    pub open spec fn doubts(self, session: SessionModel) -> Turn {
        self.waits(
            session,
            PoolWaitReason::UnknownAvailability,
            (self.decided_at + CHECK_SECONDS) as i64,
        )
    }

    /// Goes on in a phase, without an event.
    pub open spec fn enters(self, session: SessionModel, phase: RecoveryPhase) -> Turn {
        Turn {
            recovery: RecoveryModel { phase, ..self },
            session,
            events: seq![],
        }
    }

    /// Carries out a decision. A reset needs the recovery lock; while the session waited for it,
    /// another pool may have reset a shared account, so all is read again.
    pub open spec fn resolves(self, session: SessionModel) -> Turn {
        match self.decision {
            DecisionModel::Use(i) => self.enters(session, RecoveryPhase::Fresh(i as usize)),
            DecisionModel::Redeem(i, _) => if self.locked {
                self.enters(session, RecoveryPhase::Redeem(i as usize))
            } else {
                self.enters(session, RecoveryPhase::Lock)
            },
            DecisionModel::Wait(reason, next) => self.waits(session, reason, next),
        }
    }

    /// Decides on the usages that were read.
    pub open spec fn decides(self, session: SessionModel, now: i64) -> Turn {
        let usages = marked(self.usages, self.membership.accounts, session.denied, now);
        let at = login_position(self.membership.accounts, self.current);
        let trigger = if at < usages.len() && usages[at].blocked_by(WindowKind::Weekly) {
            WindowKind::Weekly
        } else {
            WindowKind::Short
        };
        let decision = policy::decision(usages, at, trigger, self.membership.redeem_weekly, now);
        let decided = RecoveryModel { usages, decision, decided_at: now, ..self };
        if decision is Use || usages.len() == 0 {
            decided.resolves(session)
        } else {
            decided.enters(session, RecoveryPhase::Pending(0))
        }
    }

    /// The decision in view of the unfinished reset of a member. An old intent is not new permission
    /// to spend a credit: it is reconciled only while the weekly policy still applies.
    pub open spec fn reconciled(self, i: int, credit: Seq<char>) -> DecisionModel {
        let weekly = self.decision is Redeem || (self.decision is Wait && self.decision->Wait_0
            == PoolWaitReason::WeeklyQuota);
        if self.membership.redeem_weekly && self.usages[i].model_supported == Some(true) && weekly {
            DecisionModel::Redeem(i, credit)
        } else if self.decision is Redeem {
            DecisionModel::Wait(PoolWaitReason::RedemptionPending, self.soonest() as i64)
        } else {
            self.decision
        }
    }

    /// Takes the members as read for a new round.
    pub open spec fn gathers(
        self,
        session: SessionModel,
        members: Option<MembershipModel>,
        now: i64,
    ) -> Turn {
        match members {
            Some(members) => Turn {
                recovery: RecoveryModel {
                    membership: members,
                    phase: RecoveryPhase::Usages,
                    ..self
                },
                session: SessionModel {
                    membership: members,
                    denied: session.denied.restrict(
                        Set::new(
                            |identity: (Seq<char>, Seq<char>)|
                                denials::listed(members.accounts, identity),
                        ),
                    ),
                    ..session
                },
                events: seq![],
            },
            None => Turn {
                recovery: RecoveryModel {
                    locked: false,
                    phase: RecoveryPhase::Sleep(CHECK_SECONDS as u64),
                    ..self
                },
                session,
                events: seq![
                    EventModel::Waiting {
                        account: self.current.alias,
                        reason: PoolWaitReason::UnknownAvailability,
                        next_check_at: (now + CHECK_SECONDS) as i64,
                    },
                ],
            },
        }
    }

    /// The event of a switch, where the account changes.
    pub open spec fn switch_events(self, i: int) -> Seq<EventModel> {
        if self.current.alias != self.membership.accounts[i].alias {
            seq![
                EventModel::Switched {
                    account: self.membership.accounts[i].alias,
                    previous_account: self.current.alias,
                },
            ]
        } else {
            seq![]
        }
    }

    /// What a step makes of the recovery and its session. An event that the recovery does not wait
    /// for changes nothing.
    pub open spec fn stepped(
        self,
        session: SessionModel,
        event: RecoveryEventModel,
        now: i64,
    ) -> Turn {
        match (self.phase, event) {
            (RecoveryPhase::Members, RecoveryEventModel::Membership(members)) => self.gathers(
                session,
                members,
                now,
            ),
            (RecoveryPhase::Usages, RecoveryEventModel::Usages(usages)) if usages.len()
                == self.membership.accounts.len() => (RecoveryModel { usages, ..self }).enters(
                session,
                RecoveryPhase::Confirm,
            ),
            (RecoveryPhase::Confirm, RecoveryEventModel::Membership(members)) => if members
                == Some(self.membership) {
                self.decides(session, now)
            } else {
                self.restarted().enters(session, RecoveryPhase::Members)
            },
            (RecoveryPhase::Pending(i), RecoveryEventModel::PendingCredit(credit)) => {
                if credit is Some {
                    (RecoveryModel {
                        decision: self.reconciled(i as int, credit->0),
                        ..self
                    }).resolves(session)
                } else if i + 1 < self.membership.accounts.len() {
                    self.enters(session, RecoveryPhase::Pending((i + 1) as usize))
                } else {
                    self.resolves(session)
                }
            },
            (RecoveryPhase::Lock, RecoveryEventModel::LockTaken) => (RecoveryModel {
                locked: true,
                ..self
            }).enters(session, RecoveryPhase::Members),
            (RecoveryPhase::Fresh(i), RecoveryEventModel::Fresh(usage, read_at)) => {
                if usage.usable_at(read_at) {
                    self.enters(session, RecoveryPhase::Verify(i))
                } else {
                    self.doubts(session)
                }
            },
            (RecoveryPhase::Verify(i), RecoveryEventModel::Membership(members)) => {
                if members == Some(self.membership) {
                    self.enters(session, RecoveryPhase::Activate(i))
                } else {
                    self.doubts(session)
                }
            },
            (RecoveryPhase::Activate(i), RecoveryEventModel::Activated(done)) => if done {
                self.enters(
                    SessionModel { current: self.membership.accounts[i as int], ..session },
                    RecoveryPhase::Observe(i),
                )
            } else {
                self.doubts(session)
            },
            (RecoveryPhase::Observe(i), RecoveryEventModel::Observed) => Turn {
                recovery: RecoveryModel { phase: RecoveryPhase::Save(i), ..self },
                session,
                events: self.switch_events(i as int),
            },
            (RecoveryPhase::Redeem(i), RecoveryEventModel::Redeemed(usage, read_at)) => {
                if usage is Some && usage->0.usable_at(read_at) {
                    Turn {
                        recovery: RecoveryModel { phase: RecoveryPhase::VerifyReset(i), ..self },
                        session: SessionModel {
                            denied: session.denied.remove(
                                self.membership.accounts[i as int].identity(),
                            ),
                            ..session
                        },
                        events: seq![
                            EventModel::Redeemed {
                                account: self.membership.accounts[i as int].alias,
                            },
                        ],
                    }
                } else {
                    self.waits(session, PoolWaitReason::RedemptionPending, self.soonest() as i64)
                }
            },
            (RecoveryPhase::VerifyReset(i), RecoveryEventModel::Membership(members)) => {
                if members == Some(self.membership) {
                    self.enters(session, RecoveryPhase::ActivateReset(i))
                } else {
                    self.restarted().enters(session, RecoveryPhase::Members)
                }
            },
            (RecoveryPhase::ActivateReset(i), RecoveryEventModel::Activated(done)) => if done {
                Turn {
                    recovery: RecoveryModel { phase: RecoveryPhase::Save(i), ..self },
                    session: SessionModel {
                        current: self.membership.accounts[i as int],
                        ..session
                    },
                    events: self.switch_events(i as int),
                }
            } else {
                self.restarted().enters(session, RecoveryPhase::Members)
            },
            (RecoveryPhase::Save(i), RecoveryEventModel::Saved) => Turn {
                recovery: RecoveryModel { locked: false, phase: RecoveryPhase::Done, ..self },
                session: SessionModel { waiting: false, ..session },
                events: seq![],
            },
            (RecoveryPhase::Sleep(_), RecoveryEventModel::Slept) => self.enters(
                session,
                RecoveryPhase::Members,
            ),
            _ => self.enters(session, self.phase),
        }
    }
}

/// The position of a login among the members, or their number where it is none of them.
fn find_login(accounts: &Vec<ManagedAccount>, account: &ManagedAccount) -> (at: usize)
    ensures
        at == login_position(text::views(accounts@), account@),
        at <= accounts.len(),
{
    let ghost models = text::views(accounts@);
    let ghost flags = Seq::new(models.len(), |i: int| models[i].identity() == account@.identity());
    let mut i: usize = 0;
    while i < accounts.len()
        invariant
            i <= accounts.len(),
            models == text::views(accounts@),
            flags == Seq::new(
                models.len(),
                |i: int| models[i].identity() == account@.identity(),
            ),
            forall|j: int| 0 <= j < i ==> !#[trigger] flags[j],
        decreases accounts.len() - i,
    {
        if accounts[i].same_identity(account) {
            proof {
                lists::lemma_first_is(flags, i as int);
            }
            return i;
        }
        i = i + 1;
    }
    proof {
        lists::lemma_first_none(flags);
    }
    i
}

impl PoolSession {
    /// Begins the recovery of a session whose account was rejected. `current` is the account in use
    /// as the session describes it. Gives the note for the session's thread, which is to be written
    /// first.
    pub fn recover(&mut self, current: ManagedAccount, now: i64) -> (begun: (
        Recovery,
        Option<RecoveryState>,
    ))
        requires
            old(self).wf(),
            now + LONGEST_WAIT <= i64::MAX,
        ensures
            final(self).wf(),
            begun.0@.wf(),
            begun.0@.phase == RecoveryPhase::Members,
            begun.0@.current == current@,
            begun.0@.membership == old(self)@.membership,
            begun.0@.failures == 0,
            !begun.0@.locked,
            final(self)@ == (SessionModel {
                waiting: true,
                denied: old(self)@.denied.insert(
                    current@.identity(),
                    (now + CHECK_SECONDS) as i64,
                ),
                ..old(self)@
            }),
            text::opt_view(begun.1) == old(self)@.kept(current@, true),
    {
        self.waiting = true;
        self.denied.insert(&current, now + CHECK_SECONDS);
        let state: Option<RecoveryState> = self.persist(&current, true);
        let recovery: Recovery = Recovery {
            current,
            membership: self.membership.clone(),
            usages: Vec::new(),
            decision: Decision::Wait(PoolWaitReason::UnknownAvailability, now),
            decided_at: now,
            failures: 0,
            locked: false,
            phase: RecoveryPhase::Members,
        };
        (recovery, state)
    }

    /// Notes that a recovery has ended: the account needs no further check.
    pub fn recovered(&mut self)
        requires
            old(self).wf(),
        ensures
            final(self).wf(),
            final(self)@ == (SessionModel { needs_preflight: false, ..old(self)@ }),
    {
        self.needs_preflight = false;
    }
}

impl Recovery {
    /// Every position is that of a member, and the usages cover the members.
    pub closed spec fn wf(self) -> bool {
        self@.wf()
    }

    /// The members as last read.
    pub fn members(&self) -> (members: &Vec<ManagedAccount>)
        ensures
            text::views(members@) == self@.membership.accounts,
    {
        &self.membership.accounts
    }

    /// Whether the recovery lock is to be held.
    pub fn holds_lock(&self) -> (held: bool)
        ensures
            held == self@.locked,
    {
        self.locked
    }

    /// What the caller has to do next.
    pub fn action(&self, session: &PoolSession) -> (action: RecoveryAction)
        requires
            self@.wf(),
        ensures
            action@ == self@.action(session@),
    {
        match self.phase {
            RecoveryPhase::Members | RecoveryPhase::Confirm | RecoveryPhase::Verify(_)
            | RecoveryPhase::VerifyReset(_) => RecoveryAction::ReadMembership,
            RecoveryPhase::Usages => RecoveryAction::ReadUsages,
            RecoveryPhase::Pending(i) => RecoveryAction::ReadPendingCredit(i),
            RecoveryPhase::Lock => RecoveryAction::TakeLock,
            RecoveryPhase::Fresh(i) => RecoveryAction::ReadFresh(i),
            RecoveryPhase::Activate(i) | RecoveryPhase::ActivateReset(i) =>
                RecoveryAction::Activate(i),
            RecoveryPhase::Observe(i) => RecoveryAction::ObserveUsable(i),
            RecoveryPhase::Redeem(i) => match &self.decision {
                Decision::Redeem(_, credit) => RecoveryAction::Redeem(i, credit.clone()),
                _ => {
                    assert(false);
                    RecoveryAction::ReadMembership
                },
            },
            RecoveryPhase::Save(i) => {
                assert(self.membership@.accounts[i as int]
                    == self.membership.accounts@[i as int]@);
                RecoveryAction::Save(session.persist(&self.membership.accounts[i], false))
            },
            RecoveryPhase::Sleep(seconds) => RecoveryAction::Sleep(seconds),
            RecoveryPhase::Done => RecoveryAction::Finish,
        }
    }

    /// When the next check is due at the soonest.
    fn soonest_check(&self) -> (next: i64)
        requires
            self@.wf(),
        ensures
            next == self@.soonest(),
            self@.decided_at < next <= self@.decided_at + CHECK_SECONDS,
    {
        let now: i64 = self.decided_at;
        proof {
            policy::lemma_next_check(self@.usages, now, now + CHECK_SECONDS);
        }
        policy::next_check_within(self.usages.as_slice(), now, now + CHECK_SECONDS)
    }

    /// Waits for a reason.
    fn wait(&mut self, reason: PoolWaitReason, next: i64) -> (events: Vec<AccountPoolEvent>)
        requires
            old(self)@.wf(),
            old(self)@.decided_at < next <= old(self)@.decided_at + CHECK_SECONDS,
        ensures
            final(self)@.wf(),
            forall|session: SessionModel|
                #![trigger old(self)@.waits(session, reason, next)]
                old(self)@.waits(session, reason, next) == (Turn {
                    recovery: final(self)@,
                    session,
                    events: text::views(events@),
                }),
    {
        let ghost before = self@;
        let now: i64 = self.decided_at;
        let mut due: i64 = next;
        if reason == PoolWaitReason::UnknownAvailability {
            if self.failures < 3 {
                self.failures = self.failures + 1;
            }
            if next == now + CHECK_SECONDS {
                let pause: i64 = if self.failures <= 1 {
                    120
                } else if self.failures == 2 {
                    240
                } else {
                    LONGEST_WAIT
                };
                due = policy::next_check_within(self.usages.as_slice(), now, now + pause);
                proof {
                    policy::lemma_next_check(before.usages, now, now + pause);
                }
            }
        } else {
            self.failures = 0;
        }
        self.locked = false;
        let seconds: i64 = if due - now < 1 {
            1
        } else {
            due - now
        };
        self.phase = RecoveryPhase::Sleep(seconds as u64);
        let mut events: Vec<AccountPoolEvent> = Vec::new();
        events.push(
            AccountPoolEvent::Waiting {
                account: self.current.alias.clone(),
                reason,
                next_check_at: due,
            },
        );
        assert(text::views(events@) =~= seq![
            EventModel::Waiting { account: before.current.alias, reason, next_check_at: due },
        ]);
        events
    }

    /// Waits a minute for unknown availability.
    fn doubt(&mut self) -> (events: Vec<AccountPoolEvent>)
        requires
            old(self)@.wf(),
        ensures
            final(self)@.wf(),
            forall|session: SessionModel|
                #![trigger old(self)@.doubts(session)]
                old(self)@.doubts(session) == (Turn {
                    recovery: final(self)@,
                    session,
                    events: text::views(events@),
                }),
    {
        let next: i64 = self.decided_at + CHECK_SECONDS;
        self.wait(PoolWaitReason::UnknownAvailability, next)
    }

    /// Carries out the decision.
    fn resolve(&mut self) -> (events: Vec<AccountPoolEvent>)
        requires
            old(self)@.wf(),
            old(self)@.decision_holds(),
        ensures
            final(self)@.wf(),
            forall|session: SessionModel|
                #![trigger old(self)@.resolves(session)]
                old(self)@.resolves(session) == (Turn {
                    recovery: final(self)@,
                    session,
                    events: text::views(events@),
                }),
    {
        let mut index: usize = 0;
        let mut waiting: Option<(PoolWaitReason, i64)> = None;
        let mut using: bool = false;
        match &self.decision {
            Decision::Use(i) => {
                index = *i;
                using = true;
            },
            Decision::Redeem(i, _) => {
                index = *i;
            },
            Decision::Wait(reason, next) => {
                waiting = Some((*reason, *next));
            },
        }
        if let Some((reason, next)) = waiting {
            return self.wait(reason, next);
        }
        if using {
            self.phase = RecoveryPhase::Fresh(index);
        } else if self.locked {
            self.phase = RecoveryPhase::Redeem(index);
        } else {
            self.phase = RecoveryPhase::Lock;
        }
        let events: Vec<AccountPoolEvent> = Vec::new();
        assert(text::views(events@) =~= seq![]);
        events
    }

    /// Marks the usages of refused members.
    fn mark(&mut self, session: &PoolSession, now: i64)
        requires
            session.wf(),
            old(self)@.usages.len() == old(self)@.membership.accounts.len(),
        ensures
            final(self)@ == (RecoveryModel {
                usages: marked(
                    old(self)@.usages,
                    old(self)@.membership.accounts,
                    session@.denied,
                    now,
                ),
                ..old(self)@
            }),
    {
        let ghost before = self@;
        let ghost want = marked(before.usages, before.membership.accounts, session@.denied, now);
        let mut i: usize = 0;
        while i < self.usages.len()
            invariant
                i <= self.usages.len(),
                session.wf(),
                self.usages.len() == self.membership.accounts.len(),
                self.usages.len() == want.len(),
                want == marked(before.usages, before.membership.accounts, session@.denied, now),
                before.usages.len() == self.usages.len(),
                self@ == (RecoveryModel { usages: self@.usages, ..before }),
                forall|j: int|
                    0 <= j < self.usages.len() ==> #[trigger] self.usages@[j]@ == if j < i {
                        want[j]
                    } else {
                        before.usages[j]
                    },
            decreases self.usages.len() - i,
        {
            assert(before.membership.accounts[i as int] == self.membership.accounts@[i as int]@);
            assert(self.usages@[i as int]@ == before.usages[i as int]);
            let allowed: bool = match self.usages[i].ordinary_usage_allowed {
                Some(true) => true,
                _ => false,
            };
            if allowed && session.denied.denies(&self.membership.accounts[i], now) {
                let mut usage: ManagedAccountUsage = self.usages[i].clone();
                usage.ordinary_usage_allowed = Some(false);
                assert(usage@ == UsageModel {
                    ordinary_usage_allowed: Some(false),
                    ..before.usages[i as int]
                });
                self.usages.set(i, usage);
            }
            i = i + 1;
        }
        assert(text::views(self.usages@) =~= want);
    }

    /// Decides on the usages that were read.
    fn decide(&mut self, session: &PoolSession, now: i64) -> (events: Vec<AccountPoolEvent>)
        requires
            session.wf(),
            old(self)@.wf(),
            old(self)@.phase == RecoveryPhase::Confirm,
            now + LONGEST_WAIT <= i64::MAX,
        ensures
            final(self)@.wf(),
            old(self)@.decides(session@, now) == (Turn {
                recovery: final(self)@,
                session: session@,
                events: text::views(events@),
            }),
    {
        let ghost before = self@;
        self.mark(session, now);
        let at: usize = find_login(&self.membership.accounts, &self.current);
        let trigger: WindowKind = if at < self.usages.len() {
            assert(self@.usages[at as int] == self.usages@[at as int]@);
            if policy::blocked(&self.usages[at], WindowKind::Weekly) {
                WindowKind::Weekly
            } else {
                WindowKind::Short
            }
        } else {
            WindowKind::Short
        };
        self.decision = policy::decide(
            self.usages.as_slice(),
            at,
            trigger,
            self.membership.redeem_weekly,
            now,
        );
        self.decided_at = now;
        proof {
            let usages = self@.usages;
            assert(usages == marked(
                before.usages,
                before.membership.accounts,
                session@.denied,
                now,
            ));
            policy::lemma_next_check(usages, now, now + CHECK_SECONDS);
        }
        let chosen: bool = match &self.decision {
            Decision::Use(_) => true,
            _ => false,
        };
        if chosen || self.usages.len() == 0 {
            self.phase = RecoveryPhase::Members;
            let ghost decided = self@;
            let events: Vec<AccountPoolEvent> = self.resolve();
            proof {
                let want = RecoveryModel { phase: before.phase, ..decided };
                assert(want.resolves(session@) == decided.resolves(session@));
            }
            return events;
        }
        self.phase = RecoveryPhase::Pending(0);
        let events: Vec<AccountPoolEvent> = Vec::new();
        assert(text::views(events@) =~= seq![]);
        events
    }

    /// The decision in view of the unfinished reset of a member.
    fn reconcile(&mut self, i: usize, credit: String)
        requires
            old(self)@.wf(),
            old(self)@.phase == RecoveryPhase::Pending(i),
        ensures
            final(self)@.wf(),
            final(self)@.decision_holds(),
            final(self)@ == (RecoveryModel {
                decision: old(self)@.reconciled(i as int, credit@),
                ..old(self)@
            }),
    {
        assert(self@.usages[i as int] == self.usages@[i as int]@);
        let redeeming: bool = match &self.decision {
            Decision::Redeem(_, _) => true,
            _ => false,
        };
        let weekly: bool = match &self.decision {
            Decision::Redeem(_, _) => true,
            Decision::Wait(reason, _) => *reason == PoolWaitReason::WeeklyQuota,
            Decision::Use(_) => false,
        };
        let supported: bool = match self.usages[i].model_supported {
            Some(true) => true,
            _ => false,
        };
        if self.membership.redeem_weekly && supported && weekly {
            self.decision = Decision::Redeem(i, credit);
        } else if redeeming {
            self.decision = Decision::Wait(PoolWaitReason::RedemptionPending, self.soonest_check());
        }
    }

    /// Takes the members as read for a new round. A missing, partial or invalid definition pauses
    /// the recovery; it never ends the turn, and never authorizes a switch or a reset.
    fn gather(&mut self, session: &mut PoolSession, members: Option<PoolMembership>, now: i64) -> (
        events: Vec<AccountPoolEvent>)
        requires
            old(session).wf(),
            old(self)@.wf(),
            old(self)@.phase == RecoveryPhase::Members,
            now + LONGEST_WAIT <= i64::MAX,
        ensures
            final(session).wf(),
            final(self)@.wf(),
            old(self)@.gathers(old(session)@, text::opt_view(members), now) == (Turn {
                recovery: final(self)@,
                session: final(session)@,
                events: text::views(events@),
            }),
    {
        let ghost before = self@;
        let ghost want = before.gathers(session@, text::opt_view(members), now);
        let mut events: Vec<AccountPoolEvent> = Vec::new();
        match members {
            Some(members) => {
                session.membership = members.clone();
                session.denied.retain(&members.accounts);
                self.membership = members;
                self.phase = RecoveryPhase::Usages;
                assert(session@.denied =~= want.session.denied);
                assert(text::views(events@) =~= seq![]);
            },
            None => {
                self.locked = false;
                self.phase = RecoveryPhase::Sleep(CHECK_SECONDS as u64);
                events.push(
                    AccountPoolEvent::Waiting {
                        account: self.current.alias.clone(),
                        reason: PoolWaitReason::UnknownAvailability,
                        next_check_at: now + CHECK_SECONDS,
                    },
                );
                assert(text::views(events@) =~= want.events);
            },
        }
        events
    }

    /// The event of a switch, where the account changes.
    fn switched(&self, i: usize) -> (events: Vec<AccountPoolEvent>)
        requires
            i < self@.membership.accounts.len(),
        ensures
            text::views(events@) == self@.switch_events(i as int),
    {
        assert(self@.membership.accounts[i as int] == self.membership.accounts@[i as int]@);
        let account: &ManagedAccount = &self.membership.accounts[i];
        let mut events: Vec<AccountPoolEvent> = Vec::new();
        if !text::same_text(self.current.alias.as_str(), account.alias.as_str()) {
            events.push(
                AccountPoolEvent::Switched {
                    account: account.alias.clone(),
                    previous_account: self.current.alias.clone(),
                },
            );
        }
        assert(text::views(events@) =~= self@.switch_events(i as int));
        events
    }

    /// Starts over without the lock.
    fn restart(&mut self)
        ensures
            final(self)@ == old(self)@.restarted(),
    {
        self.locked = false;
        self.phase = RecoveryPhase::Members;
    }

    /// Takes what came of the action, and gives the events to pass on. An event that the recovery
    /// does not wait for changes nothing.
    pub fn step(&mut self, session: &mut PoolSession, event: RecoveryEvent, now: i64) -> (events:
        Vec<AccountPoolEvent>)
        requires
            old(session).wf(),
            old(self)@.wf(),
            now + LONGEST_WAIT <= i64::MAX,
        ensures
            final(session).wf(),
            final(self)@.wf(),
            old(self)@.stepped(old(session)@, event@, now) == (Turn {
                recovery: final(self)@,
                session: final(session)@,
                events: text::views(events@),
            }),
    {
        let ghost before = self@;
        let none: Vec<AccountPoolEvent> = Vec::new();
        assert(text::views(none@) =~= seq![]);
        match (self.phase, event) {
            (RecoveryPhase::Members, RecoveryEvent::Membership(members)) => self.gather(
                session,
                members,
                now,
            ),
            (RecoveryPhase::Usages, RecoveryEvent::Usages(usages)) => {
                if usages.len() == self.membership.accounts.len() {
                    self.usages = usages;
                    self.phase = RecoveryPhase::Confirm;
                }
                none
            },
            (RecoveryPhase::Confirm, RecoveryEvent::Membership(members)) => {
                if membership::unchanged(&members, &self.membership) {
                    self.decide(session, now)
                } else {
                    self.restart();
                    none
                }
            },
            (RecoveryPhase::Pending(i), RecoveryEvent::PendingCredit(credit)) => {
                match credit {
                    Some(credit) => {
                        self.reconcile(i, credit);
                        self.resolve()
                    },
                    None => {
                        assert(i < self.membership.accounts.len());
                        if i + 1 < self.membership.accounts.len() {
                            self.phase = RecoveryPhase::Pending(i + 1);
                            none
                        } else {
                            self.resolve()
                        }
                    },
                }
            },
            (RecoveryPhase::Lock, RecoveryEvent::LockTaken) => {
                self.locked = true;
                self.phase = RecoveryPhase::Members;
                none
            },
            (RecoveryPhase::Fresh(i), RecoveryEvent::Fresh(usage, read_at)) => {
                if policy::usable(&usage, read_at) {
                    self.phase = RecoveryPhase::Verify(i);
                    none
                } else {
                    self.doubt()
                }
            },
            (RecoveryPhase::Verify(i), RecoveryEvent::Membership(members)) => {
                if membership::unchanged(&members, &self.membership) {
                    self.phase = RecoveryPhase::Activate(i);
                    none
                } else {
                    self.doubt()
                }
            },
            (RecoveryPhase::Activate(i), RecoveryEvent::Activated(done)) => {
                if done {
                    assert(before.membership.accounts[i as int]
                        == self.membership.accounts@[i as int]@);
                    session.activate(&self.membership.accounts[i]);
                    self.phase = RecoveryPhase::Observe(i);
                    none
                } else {
                    self.doubt()
                }
            },
            (RecoveryPhase::Observe(i), RecoveryEvent::Observed) => {
                let events: Vec<AccountPoolEvent> = self.switched(i);
                self.phase = RecoveryPhase::Save(i);
                events
            },
            (RecoveryPhase::Redeem(i), RecoveryEvent::Redeemed(usage, read_at)) => {
                let usable: bool = match &usage {
                    Some(usage) => policy::usable(usage, read_at),
                    None => false,
                };
                if usable {
                    let account: &ManagedAccount = &self.membership.accounts[i];
                    assert(before.membership.accounts[i as int] == account@);
                    session.denied.remove(account);
                    let mut events: Vec<AccountPoolEvent> = Vec::new();
                    events.push(AccountPoolEvent::Redeemed { account: account.alias.clone() });
                    self.phase = RecoveryPhase::VerifyReset(i);
                    assert(text::views(events@) =~= seq![
                        EventModel::Redeemed {
                            account: before.membership.accounts[i as int].alias,
                        },
                    ]);
                    events
                } else {
                    let next: i64 = self.soonest_check();
                    self.wait(PoolWaitReason::RedemptionPending, next)
                }
            },
            (RecoveryPhase::VerifyReset(i), RecoveryEvent::Membership(members)) => {
                if membership::unchanged(&members, &self.membership) {
                    self.phase = RecoveryPhase::ActivateReset(i);
                } else {
                    self.restart();
                }
                none
            },
            (RecoveryPhase::ActivateReset(i), RecoveryEvent::Activated(done)) => {
                if done {
                    let events: Vec<AccountPoolEvent> = self.switched(i);
                    assert(before.membership.accounts[i as int]
                        == self.membership.accounts@[i as int]@);
                    session.activate(&self.membership.accounts[i]);
                    self.phase = RecoveryPhase::Save(i);
                    events
                } else {
                    self.restart();
                    none
                }
            },
            (RecoveryPhase::Save(_), RecoveryEvent::Saved) => {
                self.locked = false;
                self.phase = RecoveryPhase::Done;
                session.waiting = false;
                none
            },
            (RecoveryPhase::Sleep(_), RecoveryEvent::Slept) => {
                self.phase = RecoveryPhase::Members;
                none
            },
            _ => none,
        }
    }
}

/// The time of a recovery in seconds: the wall clock, but never behind the time that has passed
/// since the start. Times are rounded towards zero.
pub open spec fn session_time(wall_start: int, elapsed: int, wall: int) -> int {
    let millis = wall_start + elapsed;
    let steady = if millis >= 0 {
        millis / 1000
    } else {
        -((-millis) / 1000)
    };
    if steady > wall {
        steady
    } else {
        wall
    }
}

/// The time of a recovery, from the wall clock at its start in milliseconds, the milliseconds since
/// then, and the wall clock in seconds.
pub fn recovery_time(wall_start: i64, elapsed: i64, wall: i64) -> (now: i64)
    requires
        i64::MIN <= wall_start + elapsed <= i64::MAX,
    ensures
        now == session_time(wall_start as int, elapsed as int, wall as int),
{
    let millis: i128 = wall_start as i128 + elapsed as i128;
    let steady: i128 = if millis >= 0 {
        millis / 1000
    } else {
        -((-millis) / 1000)
    };
    if steady > wall as i128 {
        steady as i64
    } else {
        wall
    }
}

/// A refused account is not chosen: its rejection counts for more than what its usage says.
pub proof fn law_refused_account_is_not_chosen(
    usages: Seq<UsageModel>,
    accounts: Seq<AccountModel>,
    denied: Map<(Seq<char>, Seq<char>), i64>,
    current: int,
    trigger: WindowKind,
    redeem_weekly: bool,
    now: i64,
)
    requires
        usages.len() == accounts.len(),
    ensures
        policy::decision(
            marked(usages, accounts, denied, now),
            current,
            trigger,
            redeem_weekly,
            now,
        ) matches DecisionModel::Use(i) ==> !refused(denied, accounts[i], now),
{
    policy::law_usable_account_is_used(
        marked(usages, accounts, denied, now),
        current,
        trigger,
        redeem_weekly,
        now,
    );
}

/// A store that cannot be read leaves the session as it is, and leads to neither a switch nor a
/// reset.
pub proof fn law_unreadable_store_pauses(recovery: RecoveryModel, session: SessionModel, now: i64)
    requires
        recovery.phase is Members || recovery.phase is Confirm || recovery.phase is Verify
            || recovery.phase is VerifyReset,
    ensures
        recovery.stepped(session, RecoveryEventModel::Membership(None), now).session == session,
        recovery.stepped(session, RecoveryEventModel::Membership(None), now).recovery.phase is Sleep
            || recovery.stepped(
            session,
            RecoveryEventModel::Membership(None),
            now,
        ).recovery.phase is Members,
        !recovery.stepped(session, RecoveryEventModel::Membership(None), now).recovery.locked,
{
}

/// The members that change while the usages are read make the recovery start over, without the
/// lock and without a decision.
pub proof fn law_changed_members_start_over(
    recovery: RecoveryModel,
    session: SessionModel,
    members: Option<MembershipModel>,
    now: i64,
)
    requires
        recovery.phase is Confirm,
        members != Some(recovery.membership),
    ensures
        recovery.stepped(session, RecoveryEventModel::Membership(members), now)
            == recovery.restarted().enters(session, RecoveryPhase::Members),
{
}

/// What becomes of a recovery and its session after a row of events, each with its time.
#[verifier::opaque]
pub open spec fn run(
    recovery: RecoveryModel,
    session: SessionModel,
    inputs: Seq<(RecoveryEventModel, i64)>,
) -> Turn
    decreases inputs.len(),
{
    if inputs.len() == 0 {
        recovery.enters(session, recovery.phase)
    } else {
        let before = run(recovery, session, inputs.drop_last());
        before.recovery.stepped(before.session, inputs.last().0, inputs.last().1)
    }
}

/// A row of events leads where its last event leads from what the others led to.
pub proof fn lemma_run(
    recovery: RecoveryModel,
    session: SessionModel,
    inputs: Seq<(RecoveryEventModel, i64)>,
)
    ensures
        inputs.len() == 0 ==> run(recovery, session, inputs) == recovery.enters(
            session,
            recovery.phase,
        ),
        inputs.len() > 0 ==> run(recovery, session, inputs) == ({
            let before = run(recovery, session, inputs.drop_last());
            before.recovery.stepped(before.session, inputs.last().0, inputs.last().1)
        }),
{
    reveal_with_fuel(run, 1);
}

/// The event says that an account was seen usable when its usage was read.
pub open spec fn shows_usable(event: RecoveryEventModel) -> bool {
    match event {
        RecoveryEventModel::Fresh(usage, read_at) => usage.usable_at(read_at),
        RecoveryEventModel::Redeemed(Some(usage), read_at) => usage.usable_at(read_at),
        _ => false,
    }
}

/// The recovery and its session when the event at a position comes in.
pub open spec fn turn_at(
    recovery: RecoveryModel,
    session: SessionModel,
    inputs: Seq<(RecoveryEventModel, i64)>,
    k: int,
) -> Turn {
    run(recovery, session, inputs.take(k))
}

/// A row of events that grows keeps its beginning.
proof fn lemma_turn_at(
    recovery: RecoveryModel,
    session: SessionModel,
    inputs: Seq<(RecoveryEventModel, i64)>,
    shorter: Seq<(RecoveryEventModel, i64)>,
)
    requires
        inputs.len() > 0,
        shorter == inputs.drop_last(),
    ensures
        forall|k: int|
            0 <= k < inputs.len() ==> #[trigger] turn_at(recovery, session, inputs, k) == turn_at(
                recovery,
                session,
                shorter,
                k,
            ),
        turn_at(recovery, session, inputs, inputs.len() - 1) == run(recovery, session, shorter),
        turn_at(recovery, session, inputs, inputs.len() as int) == run(recovery, session, inputs),
{
    assert forall|k: int| 0 <= k < inputs.len() implies #[trigger] turn_at(
        recovery,
        session,
        inputs,
        k,
    ) == turn_at(recovery, session, shorter, k) by {
        assert(inputs.take(k) =~= shorter.take(k));
    }
    assert(inputs.take(inputs.len() - 1) =~= shorter);
    assert(inputs.take(inputs.len() as int) =~= inputs);
}

/// The phase is one between the reading that shows a member usable and the end of the recovery.
pub open spec fn closing(phase: RecoveryPhase, i: usize) -> bool {
    match phase {
        RecoveryPhase::Verify(j) | RecoveryPhase::Activate(j) | RecoveryPhase::Observe(j)
        | RecoveryPhase::VerifyReset(j) | RecoveryPhase::ActivateReset(j)
        | RecoveryPhase::Save(j) => i == j,
        RecoveryPhase::Done => true,
        _ => false,
    }
}

/// The event at a position answers the request for a new reading of a member, or for its reset, and
/// shows the member usable. Since then the recovery has not turned to another member, waited or
/// started over, and it goes by the same members.
pub open spec fn sighted(
    recovery: RecoveryModel,
    session: SessionModel,
    inputs: Seq<(RecoveryEventModel, i64)>,
    i: usize,
    k: int,
) -> bool {
    let before = turn_at(recovery, session, inputs, k).recovery;
    &&& 0 <= k < inputs.len()
    &&& before.phase == RecoveryPhase::Fresh(i) || before.phase == RecoveryPhase::Redeem(i)
    &&& before.membership == run(recovery, session, inputs).recovery.membership
    &&& shows_usable(inputs[k].0)
    &&& forall|m: int|
        k < m <= inputs.len() ==> closing(
            (#[trigger] turn_at(recovery, session, inputs, m)).recovery.phase,
            i,
        )
}

/// A member was seen usable, and a later event found the members unchanged.
pub open spec fn verified(
    recovery: RecoveryModel,
    session: SessionModel,
    inputs: Seq<(RecoveryEventModel, i64)>,
    i: usize,
    k: int,
    l: int,
) -> bool {
    let phase = turn_at(recovery, session, inputs, l).recovery.phase;
    &&& sighted(recovery, session, inputs, i, k)
    &&& k < l < inputs.len()
    &&& phase == RecoveryPhase::Verify(i) || phase == RecoveryPhase::VerifyReset(i)
    &&& inputs[l].0 == RecoveryEventModel::Membership(
        Some(run(recovery, session, inputs).recovery.membership),
    )
}

/// A member was seen usable.
pub open spec fn seen_usable(
    recovery: RecoveryModel,
    session: SessionModel,
    inputs: Seq<(RecoveryEventModel, i64)>,
    i: usize,
) -> bool {
    exists|k: int| sighted(recovery, session, inputs, i, k)
}

/// A member was seen usable, and afterwards the members were found unchanged.
pub open spec fn seen_verified(
    recovery: RecoveryModel,
    session: SessionModel,
    inputs: Seq<(RecoveryEventModel, i64)>,
    i: usize,
) -> bool {
    exists|k: int, l: int| verified(recovery, session, inputs, i, k, l)
}

/// The session runs on a member that was seen usable, after which the members were found unchanged.
pub open spec fn runs_on(
    recovery: RecoveryModel,
    session: SessionModel,
    inputs: Seq<(RecoveryEventModel, i64)>,
    i: usize,
) -> bool {
    let end = run(recovery, session, inputs);
    &&& i < end.recovery.membership.accounts.len()
    &&& end.session.current == end.recovery.membership.accounts[i as int]
    &&& seen_verified(recovery, session, inputs, i)
}

/// What is known in each phase.
pub open spec fn evidence(
    recovery: RecoveryModel,
    session: SessionModel,
    inputs: Seq<(RecoveryEventModel, i64)>,
) -> bool {
    match run(recovery, session, inputs).recovery.phase {
        RecoveryPhase::Verify(i) => seen_usable(recovery, session, inputs, i),
        RecoveryPhase::VerifyReset(i) => seen_usable(recovery, session, inputs, i),
        RecoveryPhase::Activate(i) => seen_verified(recovery, session, inputs, i),
        RecoveryPhase::ActivateReset(i) => seen_verified(recovery, session, inputs, i),
        RecoveryPhase::Observe(i) => runs_on(recovery, session, inputs, i),
        RecoveryPhase::Save(i) => runs_on(recovery, session, inputs, i),
        RecoveryPhase::Done => exists|i: usize| runs_on(recovery, session, inputs, i),
        _ => true,
    }
}

/// What was seen stays seen while the recovery closes with the same members.
proof fn lemma_seen_stays_seen(
    recovery: RecoveryModel,
    session: SessionModel,
    inputs: Seq<(RecoveryEventModel, i64)>,
    shorter: Seq<(RecoveryEventModel, i64)>,
    i: usize,
)
    requires
        inputs.len() > 0,
        shorter == inputs.drop_last(),
        closing(run(recovery, session, inputs).recovery.phase, i),
        run(recovery, session, inputs).recovery.membership == run(
            recovery,
            session,
            shorter,
        ).recovery.membership,
    ensures
        seen_usable(recovery, session, shorter, i) ==> seen_usable(recovery, session, inputs, i),
        seen_verified(recovery, session, shorter, i) ==> seen_verified(
            recovery,
            session,
            inputs,
            i,
        ),
{
    lemma_turn_at(recovery, session, inputs, shorter);
    if seen_usable(recovery, session, shorter, i) {
        let k = choose|k: int| sighted(recovery, session, shorter, i, k);
        assert(sighted(recovery, session, inputs, i, k));
    }
    if seen_verified(recovery, session, shorter, i) {
        let (k, l) = choose|k: int, l: int| verified(recovery, session, shorter, i, k, l);
        assert(verified(recovery, session, inputs, i, k, l));
    }
}

/// How the phases that close a recovery are reached.
proof fn lemma_closing_step(
    recovery: RecoveryModel,
    session: SessionModel,
    inputs: Seq<(RecoveryEventModel, i64)>,
    shorter: Seq<(RecoveryEventModel, i64)>,
)
    requires
        inputs.len() > 0,
        shorter == inputs.drop_last(),
    ensures
        ({
            let before = run(recovery, session, shorter);
            let after = run(recovery, session, inputs);
            let phase = before.recovery.phase;
            let members = before.recovery.membership;
            let event = inputs[inputs.len() - 1].0;
            let unchanged = event == RecoveryEventModel::Membership(Some(members));
            let stays = after.session.current == before.session.current;
            &&& after.session.selection == before.session.selection
            &&& after.session.waiting == (before.session.waiting && !(after.recovery.phase is Done
                && phase is Save))
            &&& phase is Done ==> after.recovery.phase is Done
            &&& match after.recovery.phase {
                RecoveryPhase::Verify(i) => {
                    &&& after.recovery.membership == members
                    &&& phase == RecoveryPhase::Verify(i) || (phase
                        == RecoveryPhase::Fresh(i) && shows_usable(event))
                },
                RecoveryPhase::VerifyReset(i) => {
                    &&& after.recovery.membership == members
                    &&& phase == RecoveryPhase::VerifyReset(i) || (phase
                        == RecoveryPhase::Redeem(i) && shows_usable(event))
                },
                RecoveryPhase::Activate(i) => {
                    &&& after.recovery.membership == members
                    &&& phase == RecoveryPhase::Activate(i) || (phase
                        == RecoveryPhase::Verify(i) && unchanged)
                },
                RecoveryPhase::ActivateReset(i) => {
                    &&& after.recovery.membership == members
                    &&& phase == RecoveryPhase::ActivateReset(i) || (phase
                        == RecoveryPhase::VerifyReset(i) && unchanged)
                },
                RecoveryPhase::Observe(i) => {
                    &&& after.recovery.membership == members
                    &&& (phase == RecoveryPhase::Observe(i) && stays) || (phase
                        == RecoveryPhase::Activate(i) && after.session.current
                        == members.accounts[i as int])
                },
                RecoveryPhase::Save(i) => {
                    &&& after.recovery.membership == members
                    &&& ((phase == RecoveryPhase::Save(i) || phase
                        == RecoveryPhase::Observe(i)) && stays) || (phase
                        == RecoveryPhase::ActivateReset(i) && after.session.current
                        == members.accounts[i as int])
                },
                RecoveryPhase::Done => {
                    &&& after.recovery.membership == members
                    &&& (phase is Done || phase is Save) && stays
                },
                _ => true,
            }
        }),
{
    lemma_run(recovery, session, inputs);
}

/// What is known in each phase is still known after one more event.
proof fn lemma_evidence_step(
    recovery: RecoveryModel,
    session: SessionModel,
    inputs: Seq<(RecoveryEventModel, i64)>,
    shorter: Seq<(RecoveryEventModel, i64)>,
)
    requires
        inputs.len() > 0,
        shorter == inputs.drop_last(),
        evidence(recovery, session, shorter),
        run(recovery, session, shorter).recovery.wf(),
    ensures
        evidence(recovery, session, inputs),
{
    let before = run(recovery, session, shorter);
    let after = run(recovery, session, inputs);
    let last = inputs.len() - 1;
    lemma_closing_step(recovery, session, inputs, shorter);
    lemma_turn_at(recovery, session, inputs, shorter);
    match after.recovery.phase {
        RecoveryPhase::Verify(i) => {
            lemma_seen_stays_seen(recovery, session, inputs, shorter, i);
            if before.recovery.phase is Fresh {
                assert(sighted(recovery, session, inputs, i, last));
            }
        },
        RecoveryPhase::VerifyReset(i) => {
            lemma_seen_stays_seen(recovery, session, inputs, shorter, i);
            if before.recovery.phase is Redeem {
                assert(sighted(recovery, session, inputs, i, last));
            }
        },
        RecoveryPhase::Activate(i) => {
            lemma_seen_stays_seen(recovery, session, inputs, shorter, i);
            if before.recovery.phase is Verify {
                let k = choose|k: int| sighted(recovery, session, inputs, i, k);
                assert(verified(recovery, session, inputs, i, k, last));
            }
        },
        RecoveryPhase::ActivateReset(i) => {
            lemma_seen_stays_seen(recovery, session, inputs, shorter, i);
            if before.recovery.phase is VerifyReset {
                let k = choose|k: int| sighted(recovery, session, inputs, i, k);
                assert(verified(recovery, session, inputs, i, k, last));
            }
        },
        RecoveryPhase::Observe(i) => {
            lemma_seen_stays_seen(recovery, session, inputs, shorter, i);
        },
        RecoveryPhase::Save(i) => {
            lemma_seen_stays_seen(recovery, session, inputs, shorter, i);
        },
        RecoveryPhase::Done => {
            let i = match before.recovery.phase {
                RecoveryPhase::Save(i) => i,
                _ => choose|i: usize| runs_on(recovery, session, shorter, i),
            };
            assert(runs_on(recovery, session, shorter, i));
            lemma_seen_stays_seen(recovery, session, inputs, shorter, i);
            assert(runs_on(recovery, session, inputs, i));
        },
        _ => {},
    }
}

/// What is known in each phase holds after every row of events.
proof fn lemma_evidence(
    recovery: RecoveryModel,
    session: SessionModel,
    inputs: Seq<(RecoveryEventModel, i64)>,
)
    requires
        recovery.phase is Members,
        recovery.wf(),
        forall|k: int| 0 <= k < inputs.len() ==> (#[trigger] inputs[k]).1 + LONGEST_WAIT <= i64::MAX,
    ensures
        evidence(recovery, session, inputs),
        run(recovery, session, inputs).recovery.wf(),
        run(recovery, session, inputs).session.selection == session.selection,
        run(recovery, session, inputs).session.waiting == (session.waiting && !(run(
            recovery,
            session,
            inputs,
        ).recovery.phase is Done)),
    decreases inputs.len(),
{
    if inputs.len() == 0 {
        lemma_run(recovery, session, inputs);
    } else {
        let shorter = inputs.drop_last();
        assert forall|k: int| 0 <= k < shorter.len() implies (#[trigger] shorter[k]).1
            + LONGEST_WAIT <= i64::MAX by {
            assert(shorter[k] == inputs[k]);
        }
        lemma_evidence(recovery, session, shorter);
        let before = run(recovery, session, shorter);
        let input = inputs.last();
        assert(inputs[inputs.len() - 1] == input);
        assert(run(recovery, session, inputs).recovery.wf()) by {
            lemma_run(recovery, session, inputs);
            lemma_step_keeps_wf(before.recovery, before.session, input.0, input.1);
        }
        lemma_closing_step(recovery, session, inputs, shorter);
        lemma_evidence_step(recovery, session, inputs, shorter);
    }
}

/// Every step keeps a recovery well-formed.
pub proof fn lemma_step_keeps_wf(
    recovery: RecoveryModel,
    session: SessionModel,
    event: RecoveryEventModel,
    now: i64,
)
    requires
        recovery.wf(),
        now + LONGEST_WAIT <= i64::MAX,
    ensures
        recovery.stepped(session, event, now).recovery.wf(),
{
    if recovery.phase is Confirm {
        let usages = marked(recovery.usages, recovery.membership.accounts, session.denied, now);
        let at = login_position(recovery.membership.accounts, recovery.current);
        let trigger = if at < usages.len() && usages[at].blocked_by(WindowKind::Weekly) {
            WindowKind::Weekly
        } else {
            WindowKind::Short
        };
        let redeem_weekly = recovery.membership.redeem_weekly;
        let decision = policy::decision(usages, at, trigger, redeem_weekly, now);
        policy::law_usable_account_is_used(usages, at, trigger, redeem_weekly, now);
        if decision is Redeem {
            policy::law_credit_comes_from_most_resets(usages, at, trigger, redeem_weekly, now);
        }
        policy::lemma_next_check(usages, now, now + CHECK_SECONDS);
        let decided = RecoveryModel { usages, decision, decided_at: now, ..recovery };
        assert(decided.decision_holds());
        lemma_waits_keeps_wf(decided, session);
    } else {
        lemma_waits_keeps_wf(recovery, session);
        policy::lemma_next_check(
            recovery.usages,
            recovery.decided_at,
            recovery.decided_at + CHECK_SECONDS,
        );
        if let (RecoveryPhase::Pending(i), RecoveryEventModel::PendingCredit(Some(credit))) = (
            recovery.phase,
            event,
        ) {
            let decided = RecoveryModel {
                decision: recovery.reconciled(i as int, credit),
                ..recovery
            };
            lemma_waits_keeps_wf(decided, session);
        }
    }
}

/// Waiting within the next minute keeps a recovery well-formed.
proof fn lemma_waits_keeps_wf(recovery: RecoveryModel, session: SessionModel)
    requires
        0 <= recovery.failures <= 3,
        recovery.decided_at + LONGEST_WAIT <= i64::MAX,
    ensures
        forall|reason: PoolWaitReason, next: i64|
            recovery.decided_at < next <= recovery.decided_at + CHECK_SECONDS
                ==> (#[trigger] recovery.waits(session, reason, next)).recovery.wf(),
{
    policy::lemma_next_check(
        recovery.usages,
        recovery.decided_at,
        recovery.decided_at + backoff(recovery.failures + 1),
    );
}

/// A recovery ends only on an account that was itself read again and seen usable, after which the
/// members were found unchanged, with no wait and no new start since; the session then runs on that
/// account and no longer waits. Until then it waits, whatever happens.
pub proof fn law_recovery_ends_on_a_verified_account(
    recovery: RecoveryModel,
    session: SessionModel,
    inputs: Seq<(RecoveryEventModel, i64)>,
)
    requires
        recovery.phase is Members,
        recovery.wf(),
        session.waiting,
        forall|k: int| 0 <= k < inputs.len() ==> (#[trigger] inputs[k]).1 + LONGEST_WAIT <= i64::MAX,
    ensures
        ({
            let end = run(recovery, session, inputs);
            &&& end.session.waiting <==> !(end.recovery.phase is Done)
            &&& end.recovery.phase is Done ==> exists|i: usize|
                runs_on(recovery, session, inputs, i)
            &&& end.session.selection == session.selection
        }),
{
    lemma_evidence(recovery, session, inputs);
}

/// However a recovery goes, it asks for a reset only under the recovery lock and with the pool's
/// permission, never waits under the lock, and never waits longer than five minutes.
pub proof fn law_resets_are_locked_and_waits_are_not(
    recovery: RecoveryModel,
    session: SessionModel,
    inputs: Seq<(RecoveryEventModel, i64)>,
)
    requires
        recovery.phase is Members,
        recovery.wf(),
        forall|k: int| 0 <= k < inputs.len() ==> (#[trigger] inputs[k]).1 + LONGEST_WAIT <= i64::MAX,
    ensures
        ({
            let end = run(recovery, session, inputs);
            match end.recovery.action(end.session) {
                ActionModel::Redeem(_, _) => end.recovery.locked
                    && end.recovery.membership.redeem_weekly,
                ActionModel::Sleep(seconds) => !end.recovery.locked && 1 <= seconds
                    <= LONGEST_WAIT,
                ActionModel::Finish => !end.recovery.locked,
                _ => true,
            }
        }),
{
    lemma_evidence(recovery, session, inputs);
}

/// The next check comes after the readings were judged and within five minutes, within one minute
/// unless the availability is unknown, and no later than a reset still to come that a reading
/// advertises.
pub open spec fn timely(
    usages: Seq<UsageModel>,
    judged_at: i64,
    reason: PoolWaitReason,
    next: i64,
) -> bool {
    &&& judged_at < next <= judged_at + LONGEST_WAIT
    &&& reason != PoolWaitReason::UnknownAvailability ==> next <= judged_at + CHECK_SECONDS
    &&& forall|i: int, j: int|
        0 <= i < usages.len() && 0 <= j < usages[i].windows.len()
            && #[trigger] usages[i].windows[j].resets_at is Some
            && usages[i].windows[j].resets_at->0 > judged_at ==> next
            <= usages[i].windows[j].resets_at->0
}

/// Every wait among the events is timely.
pub open spec fn all_timely(
    usages: Seq<UsageModel>,
    judged_at: i64,
    events: Seq<EventModel>,
) -> bool {
    forall|e: int|
        0 <= e < events.len() ==> ((#[trigger] events[e]) matches EventModel::Waiting {
            reason,
            next_check_at,
            ..
        } ==> timely(usages, judged_at, reason, next_check_at))
}

/// A wait for the soonest check is timely, and so is one for failed reads.
proof fn lemma_waits_are_timely(
    recovery: RecoveryModel,
    session: SessionModel,
    reason: PoolWaitReason,
    next: i64,
)
    requires
        0 <= recovery.failures <= 3,
        recovery.decided_at + LONGEST_WAIT <= i64::MAX,
        next == recovery.soonest() || (reason == PoolWaitReason::UnknownAvailability && next
            == recovery.decided_at + CHECK_SECONDS),
    ensures
        all_timely(
            recovery.usages,
            recovery.decided_at,
            recovery.waits(session, reason, next).events,
        ),
{
    let now = recovery.decided_at;
    policy::lemma_next_check(recovery.usages, now, now + CHECK_SECONDS);
    policy::lemma_next_check(recovery.usages, now, now + backoff(recovery.failures + 1));
}

/// After the readings of a round were judged, every step waits in time.
proof fn lemma_step_is_timely(
    recovery: RecoveryModel,
    session: SessionModel,
    event: RecoveryEventModel,
    now: i64,
)
    requires
        recovery.wf(),
        !(recovery.phase is Members),
        now + LONGEST_WAIT <= i64::MAX,
    ensures
        ({
            let after = recovery.stepped(session, event, now);
            all_timely(after.recovery.usages, after.recovery.decided_at, after.events)
        }),
{
    let soonest = recovery.soonest() as i64;
    let minute = (recovery.decided_at + CHECK_SECONDS) as i64;
    policy::lemma_next_check(
        recovery.usages,
        recovery.decided_at,
        recovery.decided_at + CHECK_SECONDS,
    );
    lemma_waits_are_timely(recovery, session, PoolWaitReason::RedemptionPending, soonest);
    lemma_waits_are_timely(recovery, session, PoolWaitReason::UnknownAvailability, minute);
    match (recovery.phase, event) {
        (RecoveryPhase::Confirm, RecoveryEventModel::Membership(members)) => {
            let usages = marked(recovery.usages, recovery.membership.accounts, session.denied, now);
            let at = login_position(recovery.membership.accounts, recovery.current);
            let trigger = if at < usages.len() && usages[at].blocked_by(WindowKind::Weekly) {
                WindowKind::Weekly
            } else {
                WindowKind::Short
            };
            let redeem_weekly = recovery.membership.redeem_weekly;
            let decision = policy::decision(usages, at, trigger, redeem_weekly, now);
            let decided = RecoveryModel { usages, decision, decided_at: now, ..recovery };
            policy::lemma_next_check(usages, now, now + CHECK_SECONDS);
            if let DecisionModel::Wait(reason, next) = decision {
                lemma_waits_are_timely(decided, session, reason, next);
            }
        },
        (RecoveryPhase::Pending(i), RecoveryEventModel::PendingCredit(credit)) => {
            let decided = RecoveryModel {
                decision: if credit is Some {
                    recovery.reconciled(i as int, credit->0)
                } else {
                    recovery.decision
                },
                ..recovery
            };
            if let DecisionModel::Wait(reason, next) = decided.decision {
                lemma_waits_are_timely(decided, session, reason, next);
            }
        },
        _ => {},
    }
}

/// The usages advertise the same windows.
pub open spec fn same_windows(readings: Seq<UsageModel>, usages: Seq<UsageModel>) -> bool {
    &&& readings.len() == usages.len()
    &&& forall|i: int|
        0 <= i < usages.len() ==> (#[trigger] usages[i]).windows == readings[i].windows
}

/// The event at a position brought the readings of the round that the recovery is in: nothing was
/// read anew since.
pub open spec fn read_last(
    recovery: RecoveryModel,
    session: SessionModel,
    inputs: Seq<(RecoveryEventModel, i64)>,
    k: int,
) -> bool {
    &&& 0 <= k < inputs.len()
    &&& inputs[k].0 is Usages
    &&& turn_at(recovery, session, inputs, k).recovery.phase is Usages
    &&& forall|m: int|
        k < m < inputs.len() ==> {
            let phase = (#[trigger] turn_at(recovery, session, inputs, m)).recovery.phase;
            !(phase is Members) && !(phase is Usages)
        }
}

/// The readings of the round came with the event at a position, and a later event, which found the
/// members unchanged, had them judged.
pub open spec fn judged(
    recovery: RecoveryModel,
    session: SessionModel,
    inputs: Seq<(RecoveryEventModel, i64)>,
    k: int,
    l: int,
) -> bool {
    let end = run(recovery, session, inputs).recovery;
    &&& read_last(recovery, session, inputs, k)
    &&& same_windows(inputs[k].0->Usages_0, end.usages)
    &&& k < l < inputs.len()
    &&& turn_at(recovery, session, inputs, l).recovery.phase is Confirm
    &&& inputs[l] == (RecoveryEventModel::Membership(Some(end.membership)), end.decided_at)
}

/// The readings of the round were judged.
pub open spec fn was_judged(
    recovery: RecoveryModel,
    session: SessionModel,
    inputs: Seq<(RecoveryEventModel, i64)>,
) -> bool {
    exists|k: int, l: int| judged(recovery, session, inputs, k, l)
}

/// The phase is one in which the readings of the round have been judged.
pub open spec fn settled(phase: RecoveryPhase) -> bool {
    match phase {
        RecoveryPhase::Members | RecoveryPhase::Usages | RecoveryPhase::Confirm
        | RecoveryPhase::Lock | RecoveryPhase::Sleep(_) | RecoveryPhase::Done => false,
        _ => true,
    }
}

/// What is known of the readings in each phase.
pub open spec fn readings_known(
    recovery: RecoveryModel,
    session: SessionModel,
    inputs: Seq<(RecoveryEventModel, i64)>,
) -> bool {
    let end = run(recovery, session, inputs).recovery;
    &&& end.phase is Confirm ==> exists|k: int|
        {
            &&& #[trigger] read_last(recovery, session, inputs, k)
            &&& inputs[k].0 == RecoveryEventModel::Usages(end.usages)
        }
    &&& settled(end.phase) ==> was_judged(recovery, session, inputs)
}

/// How the phases are reached in which the readings are known.
proof fn lemma_readings_step(
    recovery: RecoveryModel,
    session: SessionModel,
    inputs: Seq<(RecoveryEventModel, i64)>,
    shorter: Seq<(RecoveryEventModel, i64)>,
)
    requires
        inputs.len() > 0,
        shorter == inputs.drop_last(),
    ensures
        ({
            let before = run(recovery, session, shorter).recovery;
            let after = run(recovery, session, inputs).recovery;
            let events = run(recovery, session, inputs).events;
            let input = inputs[inputs.len() - 1];
            &&& after.phase is Confirm ==> {
                ||| before.phase is Usages && input.0 == RecoveryEventModel::Usages(after.usages)
                ||| before.phase is Confirm && after.usages == before.usages
            }
            &&& settled(after.phase) || (events.len() > 0 && !(before.phase is Members)) ==> {
                ||| {
                    &&& before.phase is Confirm
                    &&& input == (
                        RecoveryEventModel::Membership(Some(after.membership)),
                        after.decided_at,
                    )
                    &&& same_windows(before.usages, after.usages)
                }
                ||| {
                    &&& settled(before.phase)
                    &&& after.usages == before.usages
                    &&& after.membership == before.membership
                    &&& after.decided_at == before.decided_at
                }
            }
        }),
{
    lemma_run(recovery, session, inputs);
}

/// What is known of the readings holds after every row of events, and where an event is passed on
/// after they were read, they were judged.
proof fn lemma_readings(
    recovery: RecoveryModel,
    session: SessionModel,
    inputs: Seq<(RecoveryEventModel, i64)>,
)
    requires
        recovery.phase is Members,
    ensures
        readings_known(recovery, session, inputs),
        inputs.len() > 0 && !(run(recovery, session, inputs.drop_last()).recovery.phase is Members)
            && run(recovery, session, inputs).events.len() > 0 ==> was_judged(
            recovery,
            session,
            inputs,
        ),
    decreases inputs.len(),
{
    if inputs.len() == 0 {
        lemma_run(recovery, session, inputs);
    } else {
        let shorter = inputs.drop_last();
        let before = run(recovery, session, shorter).recovery;
        let after = run(recovery, session, inputs).recovery;
        let last = inputs.len() - 1;
        lemma_readings(recovery, session, shorter);
        lemma_readings_step(recovery, session, inputs, shorter);
        lemma_turn_at(recovery, session, inputs, shorter);
        if before.phase is Usages {
            assert(inputs[last].0 is Usages ==> read_last(recovery, session, inputs, last));
        }
        if before.phase is Confirm {
            let k = choose|k: int|
                {
                    &&& #[trigger] read_last(recovery, session, shorter, k)
                    &&& shorter[k].0 == RecoveryEventModel::Usages(before.usages)
                };
            assert(inputs[k] == shorter[k]);
            assert(read_last(recovery, session, inputs, k));
            if settled(after.phase) || run(recovery, session, inputs).events.len() > 0 {
                assert(judged(recovery, session, inputs, k, last));
            }
        }
        if settled(before.phase) {
            let (k, l) = choose|k: int, l: int| judged(recovery, session, shorter, k, l);
            assert(inputs[k] == shorter[k] && inputs[l] == shorter[l]);
            assert(read_last(recovery, session, inputs, k));
            if settled(after.phase) || run(recovery, session, inputs).events.len() > 0 {
                assert(judged(recovery, session, inputs, k, l));
            }
        }
    }
}

/// However a recovery goes, a wait that it announces ends in time. Where the members cannot be read,
/// the next check comes a minute later. Everywhere else the usages were read and judged in the same
/// round, and the next check comes after that time, within five minutes of it and within one minute
/// unless the availability is unknown, and at the first reset still to come that a reading
/// advertises, where that is earlier.
pub proof fn law_waits_end_in_time(
    recovery: RecoveryModel,
    session: SessionModel,
    inputs: Seq<(RecoveryEventModel, i64)>,
    e: int,
)
    requires
        recovery.phase is Members,
        recovery.wf(),
        forall|k: int| 0 <= k < inputs.len() ==> (#[trigger] inputs[k]).1 + LONGEST_WAIT <= i64::MAX,
        0 <= e < run(recovery, session, inputs).events.len(),
        run(recovery, session, inputs).events[e] is Waiting,
    ensures
        inputs.len() > 0,
        ({
            let before = run(recovery, session, inputs.drop_last()).recovery;
            let reason = run(recovery, session, inputs).events[e]->reason;
            let next = run(recovery, session, inputs).events[e]->next_check_at;
            if before.phase is Members {
                &&& inputs.last().0 == RecoveryEventModel::Membership(None)
                &&& reason == PoolWaitReason::UnknownAvailability
                &&& next == inputs.last().1 + CHECK_SECONDS
            } else {
                exists|k: int, l: int|
                    {
                        &&& #[trigger] judged(recovery, session, inputs, k, l)
                        &&& timely(inputs[k].0->Usages_0, inputs[l].1, reason, next)
                    }
            }
        }),
{
    lemma_run(recovery, session, inputs);
    let end = run(recovery, session, inputs);
    let shorter = inputs.drop_last();
    let before = run(recovery, session, shorter);
    let last = inputs[inputs.len() - 1];
    assert forall|k: int| 0 <= k < shorter.len() implies (#[trigger] shorter[k]).1 + LONGEST_WAIT
        <= i64::MAX by {
        assert(shorter[k] == inputs[k]);
    }
    lemma_evidence(recovery, session, shorter);
    lemma_readings(recovery, session, inputs);
    if !(before.recovery.phase is Members) {
        lemma_step_is_timely(before.recovery, before.session, last.0, last.1);
        let (k, l) = choose|k: int, l: int| judged(recovery, session, inputs, k, l);
        let readings = inputs[k].0->Usages_0;
        assert forall|i: int, j: int|
            0 <= i < readings.len() && 0 <= j < readings[i].windows.len()
                && #[trigger] readings[i].windows[j].resets_at is Some
                && readings[i].windows[j].resets_at->0 > inputs[l].1 implies
            end.events[e]->next_check_at <= readings[i].windows[j].resets_at->0 by {
            assert(end.recovery.usages[i].windows[j].resets_at is Some);
        }
    }
}

/// Where a reset is in sight, every eligible member is weekly exhausted, and the reset is for one
/// of them.
pub open spec fn weekly_case(recovery: RecoveryModel) -> bool {
    match recovery.phase {
        RecoveryPhase::Pending(_) | RecoveryPhase::Redeem(_) => {
            &&& recovery.decision is Redeem || (recovery.decision is Wait
                && recovery.decision->Wait_0 == PoolWaitReason::WeeklyQuota)
                ==> policy::all_weekly(recovery.usages, recovery.decided_at)
            &&& recovery.decision matches DecisionModel::Redeem(i, _) ==> 0 <= i
                < recovery.usages.len() && recovery.usages[i].eligible()
        },
        _ => true,
    }
}

/// A reset comes into sight only where every eligible member is weekly exhausted.
proof fn lemma_weekly_case(
    recovery: RecoveryModel,
    session: SessionModel,
    inputs: Seq<(RecoveryEventModel, i64)>,
)
    requires
        recovery.phase is Members,
        recovery.wf(),
        forall|k: int| 0 <= k < inputs.len() ==> (#[trigger] inputs[k]).1 + LONGEST_WAIT <= i64::MAX,
    ensures
        weekly_case(run(recovery, session, inputs).recovery),
    decreases inputs.len(),
{
    lemma_run(recovery, session, inputs);
    if inputs.len() > 0 {
        let shorter = inputs.drop_last();
        assert forall|k: int| 0 <= k < shorter.len() implies (#[trigger] shorter[k]).1
            + LONGEST_WAIT <= i64::MAX by {
            assert(shorter[k] == inputs[k]);
        }
        lemma_weekly_case(recovery, session, shorter);
        lemma_evidence(recovery, session, shorter);
        let before = run(recovery, session, shorter);
        let now = inputs.last().1;
        if before.recovery.phase is Confirm {
            let members = before.recovery.membership;
            let usages = marked(
                before.recovery.usages,
                members.accounts,
                before.session.denied,
                now,
            );
            let at = login_position(members.accounts, before.recovery.current);
            let trigger = if at < usages.len() && usages[at].blocked_by(WindowKind::Weekly) {
                WindowKind::Weekly
            } else {
                WindowKind::Short
            };
            if policy::decision(usages, at, trigger, members.redeem_weekly, now) is Redeem {
                policy::law_credit_comes_from_most_resets(
                    usages,
                    at,
                    trigger,
                    members.redeem_weekly,
                    now,
                );
            }
        }
    }
}

/// However a recovery goes, it asks for a reset only where every eligible member of the pool was
/// just read and found weekly exhausted, and for one of those members: short-window exhaustion with
/// weekly capacity left never spends a reset, nor does an unknown reading.
pub proof fn law_reset_needs_weekly_exhaustion(
    recovery: RecoveryModel,
    session: SessionModel,
    inputs: Seq<(RecoveryEventModel, i64)>,
)
    requires
        recovery.phase is Members,
        recovery.wf(),
        forall|k: int| 0 <= k < inputs.len() ==> (#[trigger] inputs[k]).1 + LONGEST_WAIT <= i64::MAX,
    ensures
        ({
            let end = run(recovery, session, inputs);
            end.recovery.action(end.session) matches ActionModel::Redeem(i, _) ==> {
                &&& policy::all_weekly(end.recovery.usages, end.recovery.decided_at)
                &&& 0 <= i < end.recovery.usages.len()
                &&& end.recovery.usages[i].blocked_by(WindowKind::Weekly)
            }
        }),
{
    lemma_weekly_case(recovery, session, inputs);
    lemma_evidence(recovery, session, inputs);
}

/// The quota that ranks an account does not depend on whether ordinary usage is allowed.
proof fn lemma_marks_keep_quota(
    usages: Seq<UsageModel>,
    accounts: Seq<AccountModel>,
    denied: Map<(Seq<char>, Seq<char>), i64>,
    now: i64,
    i: int,
)
    requires
        0 <= i < usages.len(),
    ensures
        ({
            let seen = marked(usages, accounts, denied, now)[i];
            &&& forall|kind: WindowKind| #[trigger] seen.remaining(kind) == usages[i].remaining(kind)
            &&& forall|kind: WindowKind| #[trigger]
                seen.blocked_by(kind) == usages[i].blocked_by(kind)
            &&& seen.windows == usages[i].windows
            &&& seen.usable_at(now) == (usages[i].usable_at(now) && !refused(
                denied,
                accounts[i],
                now,
            ))
        }),
{
    let seen = marked(usages, accounts, denied, now)[i];
    assert forall|window: crate::account_pool::WindowModel| #[trigger] seen.covers(window) == usages[i].covers(
        window,
    ) by {}
    assert forall|kind: WindowKind| #[trigger] seen.remaining(kind) == usages[i].remaining(kind) by {
        assert(seen.remaining_keys(kind) =~= usages[i].remaining_keys(kind));
    }
    assert forall|kind: WindowKind| #[trigger] seen.blocked_by(kind) == usages[i].blocked_by(
        kind,
    ) by {}
    if refused(denied, accounts[i], now) {
        if seen.known_at(now) {
            let k = choose|k: int|
                0 <= k < seen.windows.len() && #[trigger] seen.windows[k].limit_id == "codex"@;
            assert(usages[i].windows[k].limit_id == "codex"@);
        }
    }
}

/// Once the readings of a round are confirmed, the recovery goes on with a member that was read as
/// usable and is not refused. It is the account in use, where that can still be used. Otherwise, let
/// the readings of the account in use show an exhausted window longer than a day among those that
/// count: then no other such member has more quota left in its windows longer than a day, and where
/// none is exhausted, in its windows of a day or less. Of members with the same, the first is taken.
pub proof fn law_switch_goes_by_the_exhausted_window(
    recovery: RecoveryModel,
    session: SessionModel,
    readings: Seq<UsageModel>,
    read_at: i64,
    now: i64,
    chosen: int,
    at: int,
    other: int,
)
    requires
        recovery.phase is Usages,
        readings.len() == recovery.membership.accounts.len(),
        readings.len() <= usize::MAX,
        ({
            let read = recovery.stepped(session, RecoveryEventModel::Usages(readings), read_at);
            let judged = read.recovery.stepped(
                read.session,
                RecoveryEventModel::Membership(Some(recovery.membership)),
                now,
            );
            judged.recovery.action(judged.session) == ActionModel::ReadFresh(chosen)
        }),
        0 <= at < readings.len(),
        recovery.membership.accounts[at].user_id == recovery.current.user_id,
        recovery.membership.accounts[at].workspace_id == recovery.current.workspace_id,
        forall|i: int|
            0 <= i < at ==> (#[trigger] recovery.membership.accounts[i]).user_id
                != recovery.current.user_id || recovery.membership.accounts[i].workspace_id
                != recovery.current.workspace_id,
        0 <= other < readings.len(),
        readings[other].usable_at(now),
        !refused(session.denied, recovery.membership.accounts[other], now),
    ensures
        0 <= chosen < readings.len(),
        readings[chosen].usable_at(now),
        !refused(session.denied, recovery.membership.accounts[chosen], now),
        readings[at].usable_at(now) && !refused(
            session.denied,
            recovery.membership.accounts[at],
            now,
        ) ==> chosen == at,
        !(readings[at].usable_at(now) && !refused(
            session.denied,
            recovery.membership.accounts[at],
            now,
        )) ==> {
            let long = exists|w: int|
                {
                    &&& 0 <= w < readings[at].windows.len()
                    &&& readings[at].covers(#[trigger] readings[at].windows[w])
                    &&& readings[at].windows[w].window_minutes > 1440
                    &&& !readings[at].windows[w].remaining_percent.nan()
                    &&& readings[at].windows[w].remaining_percent.key() <= 0
                };
            let kind = if long {
                WindowKind::Weekly
            } else {
                WindowKind::Short
            };
            &&& readings[other].remaining(kind) <= readings[chosen].remaining(kind)
            &&& readings[other].remaining(kind) == readings[chosen].remaining(kind) ==> chosen
                <= other
            &&& forall|w: int|
                {
                    &&& 0 <= w < readings[chosen].windows.len()
                    &&& readings[chosen].covers(#[trigger] readings[chosen].windows[w])
                    &&& (readings[chosen].windows[w].window_minutes > 1440) == long
                } ==> readings[chosen].windows[w].remaining_percent.key() >= crate::percent::HUNDRED || exists|
                    v: int,
                |
                    {
                        &&& 0 <= v < readings[other].windows.len()
                        &&& readings[other].covers(#[trigger] readings[other].windows[v])
                        &&& (readings[other].windows[v].window_minutes > 1440) == long
                        &&& readings[other].windows[v].remaining_percent.key()
                            <= readings[chosen].windows[w].remaining_percent.key()
                    }
        },
{
    let members = recovery.membership.accounts;
    let usages = marked(readings, members, session.denied, now);
    let flags = Seq::new(
        members.len(),
        |i: int| members[i].identity() == recovery.current.identity(),
    );
    lists::lemma_first_is(flags, at);
    assert(login_position(members, recovery.current) == at);
    let trigger = if usages[at].blocked_by(WindowKind::Weekly) {
        WindowKind::Weekly
    } else {
        WindowKind::Short
    };
    let redeem_weekly = recovery.membership.redeem_weekly;
    let decision = policy::decision(usages, at, trigger, redeem_weekly, now);
    policy::law_usable_account_is_used(usages, at, trigger, redeem_weekly, now);
    lemma_marks_keep_quota(readings, members, session.denied, now, at);
    lemma_marks_keep_quota(readings, members, session.denied, now, other);
    assert(usages[other].usable_at(now));
    assert(decision is Use);
    assert(decision->Use_0 == chosen);
    lemma_marks_keep_quota(readings, members, session.denied, now, chosen);
    policy::law_exhausted_window_blocks(readings[at], true);
    if !usages[at].usable_at(now) {
        policy::law_most_quota_first_wins(usages, at, trigger, redeem_weekly, now, other);
        let long = trigger == WindowKind::Weekly;
        policy::law_ranked_by_the_least_left(readings[chosen], long);
        policy::law_ranked_by_the_least_left(readings[other], long);
        assert forall|w: int|
            {
                &&& 0 <= w < readings[chosen].windows.len()
                &&& readings[chosen].covers(#[trigger] readings[chosen].windows[w])
                &&& (readings[chosen].windows[w].window_minutes > 1440) == long
            } implies readings[chosen].windows[w].remaining_percent.key() >= crate::percent::HUNDRED || exists|v: int|
            {
                &&& 0 <= v < readings[other].windows.len()
                &&& readings[other].covers(#[trigger] readings[other].windows[v])
                &&& (readings[other].windows[v].window_minutes > 1440) == long
                &&& readings[other].windows[v].remaining_percent.key()
                    <= readings[chosen].windows[w].remaining_percent.key()
            } by {
            let least = readings[other].remaining(trigger);
            if least != crate::percent::HUNDRED {
                let v = choose|v: int|
                    0 <= v < readings[other].windows.len() && readings[other].covers(
                        readings[other].windows[v],
                    ) && (readings[other].windows[v].window_minutes > 1440) == long && least
                        == (#[trigger] readings[other].windows[v]).remaining_percent.key();
                assert(readings[other].covers(readings[other].windows[v]));
            }
        }
    }
}

/// An account is refused until the time noted for its login, and no longer.
pub proof fn law_refused_until_its_time(
    denied: Map<(Seq<char>, Seq<char>), i64>,
    account: AccountModel,
    now: i64,
)
    ensures
        refused(denied, account, now) <==> denied.contains_key(
            (account.user_id, account.workspace_id),
        ) && now < denied[(account.user_id, account.workspace_id)],
{
}

/// A round goes on with some member exactly where one was read as usable and is not refused.
pub proof fn law_usable_member_is_used(
    recovery: RecoveryModel,
    session: SessionModel,
    readings: Seq<UsageModel>,
    read_at: i64,
    now: i64,
)
    requires
        recovery.phase is Usages,
        readings.len() == recovery.membership.accounts.len(),
        0 < readings.len() <= usize::MAX,
        now + LONGEST_WAIT <= i64::MAX,
    ensures
        ({
            let read = recovery.stepped(session, RecoveryEventModel::Usages(readings), read_at);
            let judged = read.recovery.stepped(
                read.session,
                RecoveryEventModel::Membership(Some(recovery.membership)),
                now,
            );
            let some = exists|i: int|
                0 <= i < readings.len() && (#[trigger] readings[i]).usable_at(now) && !refused(
                    session.denied,
                    recovery.membership.accounts[i],
                    now,
                );
            &&& read.recovery.action(read.session) == ActionModel::ReadMembership
            &&& read.session == session && judged.session == session
            &&& judged.events.len() == 0
            &&& some <==> judged.recovery.action(judged.session) is ReadFresh
            &&& !some ==> judged.recovery.action(judged.session) == ActionModel::ReadPendingCredit(0)
        }),
{
    let members = recovery.membership.accounts;
    let usages = marked(readings, members, session.denied, now);
    let at = login_position(members, recovery.current);
    let trigger = if at < usages.len() && usages[at].blocked_by(WindowKind::Weekly) {
        WindowKind::Weekly
    } else {
        WindowKind::Short
    };
    policy::law_usable_account_is_used(
        usages,
        at,
        trigger,
        recovery.membership.redeem_weekly,
        now,
    );
    assert forall|i: int| 0 <= i < readings.len() implies usages[i].usable_at(now) == (
    #[trigger] readings[i].usable_at(now) && !refused(session.denied, members[i], now)) by {
        lemma_marks_keep_quota(readings, members, session.denied, now, i);
    }
    if exists|i: int| 0 <= i < usages.len() && (#[trigger] usages[i]).usable_at(now) {
        let i = choose|i: int| 0 <= i < usages.len() && (#[trigger] usages[i]).usable_at(now);
        assert(readings[i].usable_at(now));
    }
    if exists|i: int|
        0 <= i < readings.len() && (#[trigger] readings[i]).usable_at(now) && !refused(
            session.denied,
            members[i],
            now,
        ) {
        let i = choose|i: int|
            0 <= i < readings.len() && (#[trigger] readings[i]).usable_at(now) && !refused(
                session.denied,
                members[i],
                now,
            );
        assert(usages[i].usable_at(now));
    }
}

/// The pending credits of all members are asked for in order, and only then is a decision carried
/// out: a reset takes the lock first, and with the lock is asked for with its member and credit; a
/// wait is announced.
pub proof fn law_decision_follows_the_pending_credits(
    recovery: RecoveryModel,
    session: SessionModel,
    i: usize,
    now: i64,
)
    requires
        recovery.wf(),
        recovery.phase == RecoveryPhase::Pending(i),
        recovery.membership.accounts.len() <= usize::MAX,
        !(recovery.decision is Use),
    ensures
        ({
            let after = recovery.stepped(session, RecoveryEventModel::PendingCredit(None), now);
            let next = after.recovery.action(after.session);
            &&& recovery.action(session) == ActionModel::ReadPendingCredit(i as int)
            &&& after.session == session
            &&& after.recovery.locked == (recovery.locked && !(after.recovery.phase is Sleep))
            &&& i + 1 < recovery.membership.accounts.len() ==> next
                == ActionModel::ReadPendingCredit(i + 1) && after.recovery.decision
                == recovery.decision
            &&& i + 1 == recovery.membership.accounts.len() ==> match recovery.decision {
                DecisionModel::Redeem(member, credit) => if recovery.locked {
                    next == ActionModel::Redeem(member, credit)
                } else {
                    next == ActionModel::TakeLock
                },
                DecisionModel::Wait(reason, _) => {
                    &&& next is Sleep
                    &&& after.events.len() == 1
                    &&& after.events[0] is Waiting
                    &&& after.events[0]->reason == reason
                },
                DecisionModel::Use(_) => true,
            }
        }),
{
}

/// An unfinished reset of a member is carried on with its own credit where the pool allows resets,
/// the member serves the model and the weekly quota of the pool is exhausted. Where that is not so, a
/// reset that was decided on waits for the unfinished one, and any other decision stands.
pub proof fn law_unfinished_reset_comes_first(
    recovery: RecoveryModel,
    session: SessionModel,
    i: usize,
    credit: Seq<char>,
    now: i64,
)
    requires
        recovery.wf(),
        recovery.phase == RecoveryPhase::Pending(i),
        !(recovery.decision is Use),
    ensures
        ({
            let after = recovery.stepped(
                session,
                RecoveryEventModel::PendingCredit(Some(credit)),
                now,
            );
            let next = after.recovery.action(after.session);
            let weekly = recovery.decision is Redeem || (recovery.decision is Wait
                && recovery.decision->Wait_0 == PoolWaitReason::WeeklyQuota);
            let resumed = recovery.membership.redeem_weekly && recovery.usages[i as
                int].model_supported == Some(true) && weekly;
            &&& after.session == session
            &&& resumed && recovery.locked ==> next == ActionModel::Redeem(i as int, credit)
            &&& resumed && !recovery.locked ==> next == ActionModel::TakeLock
            &&& !resumed ==> {
                &&& next is Sleep
                &&& after.events.len() == 1
                &&& after.events[0] is Waiting
                &&& recovery.decision is Redeem ==> after.events[0]->reason
                    == PoolWaitReason::RedemptionPending
                &&& recovery.decision is Wait ==> after.events[0]->reason
                    == recovery.decision->Wait_0
            }
        }),
{
}

/// While a session waited for the lock another one may have reset a shared account, so with the lock
/// all is read again.
pub proof fn law_lock_is_followed_by_a_new_round(
    recovery: RecoveryModel,
    session: SessionModel,
    now: i64,
)
    requires
        recovery.phase is Lock,
    ensures
        ({
            let after = recovery.stepped(session, RecoveryEventModel::LockTaken, now);
            &&& recovery.action(session) == ActionModel::TakeLock
            &&& after.recovery.locked
            &&& after.recovery.phase is Members
            &&& after.recovery.action(after.session) == ActionModel::ReadMembership
            &&& after.session == session && after.events.len() == 0
        }),
{
}

/// A round takes the members as they are now: the session goes by them, and forgets the refusals of
/// logins that are no longer among them, and no others.
pub proof fn law_round_takes_the_members(
    recovery: RecoveryModel,
    session: SessionModel,
    members: MembershipModel,
    now: i64,
    identity: (Seq<char>, Seq<char>),
)
    requires
        recovery.phase is Members,
    ensures
        ({
            let after = recovery.stepped(
                session,
                RecoveryEventModel::Membership(Some(members)),
                now,
            );
            let listed = exists|i: int|
                0 <= i < members.accounts.len() && (#[trigger] members.accounts[i]).user_id
                    == identity.0 && members.accounts[i].workspace_id == identity.1;
            &&& after.recovery.membership == members
            &&& after.session.membership == members
            &&& after.recovery.action(after.session) == ActionModel::ReadUsages
            &&& after.session.current == session.current
            &&& after.session.selection == session.selection
            &&& after.session.waiting == session.waiting
            &&& after.session.denied.contains_key(identity) <==> session.denied.contains_key(
                identity,
            ) && listed
            &&& after.session.denied.contains_key(identity) ==> after.session.denied[identity]
                == session.denied[identity]
        }),
{
    assert(denials::listed(members.accounts, identity) == exists|i: int|
        0 <= i < members.accounts.len() && (#[trigger] members.accounts[i]).user_id == identity.0
            && members.accounts[i].workspace_id == identity.1) by {
        if denials::listed(members.accounts, identity) {
            let i = choose|i: int|
                0 <= i < members.accounts.len() && (#[trigger] members.accounts[i]).identity()
                    == identity;
            assert(members.accounts[i].user_id == identity.0);
        }
        if exists|i: int|
            0 <= i < members.accounts.len() && (#[trigger] members.accounts[i]).user_id
                == identity.0 && members.accounts[i].workspace_id == identity.1 {
            let i = choose|i: int|
                0 <= i < members.accounts.len() && (#[trigger] members.accounts[i]).user_id
                    == identity.0 && members.accounts[i].workspace_id == identity.1;
            assert(members.accounts[i].identity() == identity);
        }
    }
}

/// A chosen member is read once more. Usable, it is verified against the members, its login is
/// loaded, the session runs on it, and the switch is announced and saved; if any of these fails, the
/// availability is unknown and the recovery waits, with the session on its old account.
pub proof fn law_switch_is_verified_step_by_step(
    recovery: RecoveryModel,
    session: SessionModel,
    i: usize,
    usage: UsageModel,
    read_at: i64,
    members: Option<MembershipModel>,
    now: i64,
)
    requires
        recovery.wf(),
        recovery.phase == RecoveryPhase::Fresh(i),
    ensures
        ({
            let fresh = recovery.stepped(session, RecoveryEventModel::Fresh(usage, read_at), now);
            let same = fresh.recovery.stepped(
                session,
                RecoveryEventModel::Membership(Some(recovery.membership)),
                now,
            );
            let changed = fresh.recovery.stepped(
                session,
                RecoveryEventModel::Membership(members),
                now,
            );
            let loaded = same.recovery.stepped(session, RecoveryEventModel::Activated(true), now);
            let unloaded = same.recovery.stepped(
                session,
                RecoveryEventModel::Activated(false),
                now,
            );
            let observed = loaded.recovery.stepped(
                loaded.session,
                RecoveryEventModel::Observed,
                now,
            );
            &&& recovery.action(session) == ActionModel::ReadFresh(i as int)
            &&& !usage.usable_at(read_at) ==> fresh.recovery.phase is Sleep && fresh.session
                == session && fresh.events.len() == 1 && fresh.events[0] is Waiting
                && fresh.events[0]->reason == PoolWaitReason::UnknownAvailability
            &&& usage.usable_at(read_at) ==> {
                &&& fresh.recovery.action(session) == ActionModel::ReadMembership
                &&& fresh.session == session && fresh.events.len() == 0
                &&& members != Some(recovery.membership) ==> changed.recovery.phase is Sleep
                    && changed.session == session && changed.events.len() == 1
                    && changed.events[0] is Waiting && changed.events[0]->reason
                    == PoolWaitReason::UnknownAvailability
                &&& same.recovery.action(session) == ActionModel::Activate(i as int)
                &&& same.session == session
                &&& unloaded.recovery.phase is Sleep && unloaded.session == session
                    && unloaded.events.len() == 1 && unloaded.events[0] is Waiting
                    && unloaded.events[0]->reason == PoolWaitReason::UnknownAvailability
                &&& loaded.session == (SessionModel {
                    current: recovery.membership.accounts[i as int],
                    ..session
                })
                &&& loaded.recovery.action(loaded.session) == ActionModel::ObserveUsable(i as int)
                &&& loaded.events.len() == 0
                &&& observed.recovery.action(observed.session) is Save
                &&& observed.session == loaded.session
                &&& announces_switch(recovery, i as int, observed.events)
            }
        }),
{
    policy::lemma_next_check(
        recovery.usages,
        recovery.decided_at,
        recovery.decided_at + backoff(recovery.failures + 1),
    );
}

/// A switch from the account that was in use is announced, unless the account stays the same.
pub open spec fn announces_switch(
    recovery: RecoveryModel,
    i: int,
    events: Seq<EventModel>,
) -> bool {
    if recovery.membership.accounts[i].alias == recovery.current.alias {
        events.len() == 0
    } else {
        events == seq![
            EventModel::Switched {
                account: recovery.membership.accounts[i].alias,
                previous_account: recovery.current.alias,
            },
        ]
    }
}

/// After a reset the account must be usable: then its refusal is forgotten and the reset announced,
/// the members are verified, the login is loaded, and the session runs on the account. A reset that
/// was not verified is awaited; a change of members or a login that cannot be loaded starts over
/// without the lock.
pub proof fn law_reset_is_verified_step_by_step(
    recovery: RecoveryModel,
    session: SessionModel,
    i: usize,
    usage: Option<UsageModel>,
    read_at: i64,
    members: Option<MembershipModel>,
    now: i64,
)
    requires
        recovery.wf(),
        recovery.phase == RecoveryPhase::Redeem(i),
    ensures
        ({
            let account = recovery.membership.accounts[i as int];
            let reset = recovery.stepped(
                session,
                RecoveryEventModel::Redeemed(usage, read_at),
                now,
            );
            let same = reset.recovery.stepped(
                reset.session,
                RecoveryEventModel::Membership(Some(recovery.membership)),
                now,
            );
            let changed = reset.recovery.stepped(
                reset.session,
                RecoveryEventModel::Membership(members),
                now,
            );
            let loaded = same.recovery.stepped(
                same.session,
                RecoveryEventModel::Activated(true),
                now,
            );
            let unloaded = same.recovery.stepped(
                same.session,
                RecoveryEventModel::Activated(false),
                now,
            );
            let verified = usage is Some && usage->0.usable_at(read_at);
            &&& !verified ==> reset.recovery.phase is Sleep && reset.session == session
                && reset.events.len() == 1 && reset.events[0] is Waiting && reset.events[0]->reason
                == PoolWaitReason::RedemptionPending && !reset.recovery.locked
            &&& verified ==> {
                &&& reset.events == seq![EventModel::Redeemed { account: account.alias }]
                &&& reset.recovery.action(reset.session) == ActionModel::ReadMembership
                &&& !reset.session.denied.contains_key((account.user_id, account.workspace_id))
                &&& reset.session.denied == session.denied.remove(
                    (account.user_id, account.workspace_id),
                )
                &&& reset.session.current == session.current
                &&& reset.session.waiting == session.waiting
                &&& members != Some(recovery.membership) ==> changed.recovery.phase is Members
                    && !changed.recovery.locked && changed.session == reset.session
                    && changed.events.len() == 0
                &&& same.recovery.action(same.session) == ActionModel::Activate(i as int)
                &&& unloaded.recovery.phase is Members && !unloaded.recovery.locked
                    && unloaded.session == reset.session
                &&& loaded.session == (SessionModel { current: account, ..reset.session })
                &&& loaded.recovery.action(loaded.session) is Save
                &&& announces_switch(recovery, i as int, loaded.events)
            }
        }),
{
}

/// What is saved names the session's selection and the account, and says that it no longer waits;
/// when that is done the session does not wait, the lock is given up, and the recovery is over. A
/// wait is followed by a new round.
pub proof fn law_recovery_is_saved_and_over(
    recovery: RecoveryModel,
    session: SessionModel,
    i: usize,
    now: i64,
)
    requires
        recovery.phase == RecoveryPhase::Save(i),
    ensures
        ({
            let after = recovery.stepped(session, RecoveryEventModel::Saved, now);
            &&& session.thread is Some ==> {
                &&& recovery.action(session) matches ActionModel::Save(Some(state))
                &&& state.selection == session.selection
                &&& state.account == recovery.membership.accounts[i as int].alias
                &&& !state.waiting
            }
            &&& session.thread is None ==> recovery.action(session) == ActionModel::Save(None)
            &&& after.session == (SessionModel { waiting: false, ..session })
            &&& after.recovery.action(after.session) == ActionModel::Finish
            &&& !after.recovery.locked && after.events.len() == 0
        }),
{
}

/// A new round follows a wait.
pub proof fn law_wait_is_followed_by_a_new_round(
    recovery: RecoveryModel,
    session: SessionModel,
    seconds: u64,
    now: i64,
)
    requires
        recovery.phase == RecoveryPhase::Sleep(seconds),
    ensures
        recovery.action(session) == ActionModel::Sleep(seconds as int),
        recovery.stepped(session, RecoveryEventModel::Slept, now).recovery.phase is Members,
        recovery.stepped(session, RecoveryEventModel::Slept, now).session == session,
        recovery.stepped(session, RecoveryEventModel::Slept, now).recovery.failures
            == recovery.failures,
{
}

/// Failed reads back off: the first of a row is followed by a wait of two minutes, the second of
/// four, and every further one of five, unless a reset is advertised before that; a wait for another
/// reason ends the row. The announced time is when the wait is over.
pub proof fn law_failed_reads_back_off(
    recovery: RecoveryModel,
    session: SessionModel,
    reason: PoolWaitReason,
    next: i64,
)
    requires
        0 <= recovery.failures <= 3,
        recovery.decided_at + LONGEST_WAIT <= i64::MAX,
        recovery.decided_at < next <= recovery.decided_at + 60,
    ensures
        ({
            let after = recovery.waits(session, reason, next);
            let due = after.events[0]->next_check_at;
            let limit: int = if recovery.failures == 0 {
                120
            } else if recovery.failures == 1 {
                240
            } else {
                300
            };
            &&& after.session == session
            &&& !after.recovery.locked
            &&& after.events == seq![
                EventModel::Waiting {
                    account: recovery.current.alias,
                    reason,
                    next_check_at: due,
                },
            ]
            &&& after.recovery.action(session) == ActionModel::Sleep(due - recovery.decided_at)
            &&& reason != PoolWaitReason::UnknownAvailability ==> due == next
                && after.recovery.failures == 0
            &&& reason == PoolWaitReason::UnknownAvailability ==> after.recovery.failures == (
            if recovery.failures == 3 {
                3
            } else {
                recovery.failures + 1
            })
            &&& reason == PoolWaitReason::UnknownAvailability && next < recovery.decided_at + 60
                ==> due == next
            &&& reason == PoolWaitReason::UnknownAvailability && next == recovery.decided_at + 60
                ==> {
                &&& recovery.decided_at < due <= recovery.decided_at + limit
                &&& due == recovery.decided_at + limit || exists|i: int, j: int|
                    0 <= i < recovery.usages.len() && 0 <= j < recovery.usages[i].windows.len()
                        && #[trigger] recovery.usages[i].windows[j].resets_at == Some(due)
                &&& forall|i: int, j: int|
                    0 <= i < recovery.usages.len() && 0 <= j < recovery.usages[i].windows.len()
                        && #[trigger] recovery.usages[i].windows[j].resets_at is Some
                        && recovery.usages[i].windows[j].resets_at->0 > recovery.decided_at ==> due
                        <= recovery.usages[i].windows[j].resets_at->0
            }
        }),
{
    let limit = recovery.decided_at + backoff(recovery.failures + 1);
    policy::lemma_next_check(recovery.usages, recovery.decided_at, limit);
    let due = recovery.waits(session, reason, next).events[0]->next_check_at;
    if reason == PoolWaitReason::UnknownAvailability && next == recovery.decided_at + 60 && due
        != limit {
        let (i, j) = choose|i: int, j: int|
            0 <= i < recovery.usages.len() && 0 <= j < recovery.usages[i].windows.len()
                && #[trigger] recovery.usages[i].windows[j].resets_at is Some
                && recovery.usages[i].windows[j].resets_at->0 == due;
        assert(recovery.usages[i].windows[j].resets_at == Some(due));
    }
}

/// An event that a recovery does not wait for changes nothing, and none changes the account that the
/// recovery set out from, the session's selection or its thread.
pub proof fn law_recovery_waits_for_its_answers(
    recovery: RecoveryModel,
    session: SessionModel,
    event: RecoveryEventModel,
    now: i64,
)
    ensures
        ({
            let after = recovery.stepped(session, event, now);
            let asked = match recovery.action(session) {
                ActionModel::ReadMembership => event is Membership,
                ActionModel::ReadUsages => event is Usages,
                ActionModel::ReadPendingCredit(_) => event is PendingCredit,
                ActionModel::TakeLock => event is LockTaken,
                ActionModel::ReadFresh(_) => event is Fresh,
                ActionModel::Activate(_) => event is Activated,
                ActionModel::ObserveUsable(_) => event is Observed,
                ActionModel::Redeem(_, _) => event is Redeemed,
                ActionModel::Save(_) => event is Saved,
                ActionModel::Sleep(_) => event is Slept,
                ActionModel::Finish => false,
            };
            &&& !asked ==> after.recovery == recovery && after.session == session
                && after.events.len() == 0
            &&& after.recovery.current == recovery.current
            &&& after.session.selection == session.selection
            &&& after.session.thread == session.thread
            &&& after.session.needs_preflight == session.needs_preflight
        }),
{
}

/// The time of a recovery is the wall clock where that is ahead, and otherwise the wall clock at its
/// start plus what has passed since, cut to whole seconds towards zero; so it never falls behind
/// either.
pub proof fn law_time_never_falls_behind(wall_start: int, elapsed: int, wall: int)
    ensures
        ({
            let now = session_time(wall_start, elapsed, wall);
            let millis = wall_start + elapsed;
            &&& now >= wall
            &&& millis >= 0 ==> now * 1000 + 1000 > millis
            &&& millis < 0 ==> now * 1000 >= millis
            &&& now != wall && millis >= 0 ==> now * 1000 <= millis
            &&& now != wall && millis < 0 ==> now * 1000 - 1000 < millis && now <= 0
        }),
{
}

/// A `RecoveryAction` is seen as the form it has, with every part of it.
pub proof fn law_recovery_action_is_seen_whole(value: RecoveryAction)
    ensures
        value@ == (match value {
            RecoveryAction::ReadMembership => ActionModel::ReadMembership,
            RecoveryAction::ReadUsages => ActionModel::ReadUsages,
            RecoveryAction::ReadPendingCredit(i) => ActionModel::ReadPendingCredit(i as int),
            RecoveryAction::TakeLock => ActionModel::TakeLock,
            RecoveryAction::ReadFresh(i) => ActionModel::ReadFresh(i as int),
            RecoveryAction::Activate(i) => ActionModel::Activate(i as int),
            RecoveryAction::ObserveUsable(i) => ActionModel::ObserveUsable(i as int),
            RecoveryAction::Redeem(i, credit) => ActionModel::Redeem(i as int, credit@),
            RecoveryAction::Save(state) => ActionModel::Save(text::opt_view(state)),
            RecoveryAction::Sleep(seconds) => ActionModel::Sleep(seconds as int),
            RecoveryAction::Finish => ActionModel::Finish,
        }),
{
}

/// A `RecoveryEvent` is seen as the form it has, with every part of it.
pub proof fn law_recovery_event_is_seen_whole(value: RecoveryEvent)
    ensures
        value@ == (match value {
            RecoveryEvent::Membership(members) => RecoveryEventModel::Membership(
                text::opt_view(members),
            ),
            RecoveryEvent::Usages(usages) => RecoveryEventModel::Usages(text::views(usages@)),
            RecoveryEvent::PendingCredit(credit) => RecoveryEventModel::PendingCredit(
                text::opt_view(credit),
            ),
            RecoveryEvent::LockTaken => RecoveryEventModel::LockTaken,
            RecoveryEvent::Fresh(usage, now) => RecoveryEventModel::Fresh(usage@, now),
            RecoveryEvent::Activated(done) => RecoveryEventModel::Activated(done),
            RecoveryEvent::Observed => RecoveryEventModel::Observed,
            RecoveryEvent::Redeemed(usage, now) => RecoveryEventModel::Redeemed(
                text::opt_view(usage),
                now,
            ),
            RecoveryEvent::Saved => RecoveryEventModel::Saved,
            RecoveryEvent::Slept => RecoveryEventModel::Slept,
        }),
{
}

} // verus!
