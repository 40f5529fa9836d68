//! The parts of the chat window that know about accounts: the status line's quota, and bounded,
//! unattended retries of capacity failures without adding user messages.

use crate::account_pool::AccountModel;
use crate::account_pool::AccountPool;
use crate::account_pool::ManagedAccount;
use crate::account_pool::ManagedAccountUsage;
use crate::account_pool::PoolModel;
use crate::account_pool::UsageModel;
use crate::redemption;
use crate::status::AccountStatus;
use crate::status::StatusModel;
use crate::status::REFRESH_MILLIS;
use crate::text;
use vstd::prelude::*;

verus! {

/// The most retries in a row without model progress.
pub const MAX_CAPACITY_RETRIES: u8 = 10;

/// The shortest wait before a retry, in seconds.
pub const SHORTEST_DELAY: u64 = 10;

/// The longest wait before a retry, in seconds.
pub const LONGEST_DELAY: u64 = 60;

/// A retry that waits for its time, in milliseconds of a steady clock.
#[derive(Debug, PartialEq, Eq)]
pub struct PendingCapacityRetry {
    pub deadline: u64,
    pub thread_id: String,
    pub turn_id: String,
    pub model: String,
}

/// A `PendingCapacityRetry` as a mathematical value.
pub struct PendingModel {
    pub deadline: u64,
    pub thread_id: Seq<char>,
    pub turn_id: Seq<char>,
    pub model: Seq<char>,
}

impl View for PendingCapacityRetry {
    type V = PendingModel;

    open spec fn view(&self) -> PendingModel {
        PendingModel {
            deadline: self.deadline,
            thread_id: self.thread_id@,
            turn_id: self.turn_id@,
            model: self.model@,
        }
    }
}

/// The retries of a conversation.
#[derive(Debug, PartialEq, Eq)]
pub struct CapacityRetryState {
    pub attempts: u8,
    pub last_failed_turn: Option<String>,
    pub pending: Option<PendingCapacityRetry>,
}

/// A `CapacityRetryState` as a mathematical value.
pub struct RetryModel {
    pub attempts: u8,
    pub last_failed_turn: Option<Seq<char>>,
    pub pending: Option<PendingModel>,
}

impl View for CapacityRetryState {
    type V = RetryModel;

    open spec fn view(&self) -> RetryModel {
        RetryModel {
            attempts: self.attempts,
            last_failed_turn: text::opt_view(self.last_failed_turn),
            pending: text::opt_view(self.pending),
        }
    }
}

impl RetryModel {
    /// No retries are counted and none is pending. The last failed turn is kept, so that a repeated
    /// completion cannot undo a cancellation.
    pub open spec fn cleared(self) -> RetryModel {
        RetryModel { attempts: 0, pending: None, ..self }
    }

    /// There are at most ten retries in a row, and none is pending after the last.
    pub open spec fn wf(self) -> bool {
        &&& self.attempts <= MAX_CAPACITY_RETRIES
        &&& self.pending is Some ==> self.attempts < MAX_CAPACITY_RETRIES
    }
}

impl CapacityRetryState {
    /// Forgets the counted retries and the pending one.
    pub fn reset(&mut self)
        ensures
            final(self)@ == old(self)@.cleared(),
    {
        self.attempts = 0;
        self.pending = None;
    }
}

/// What keeps the chat window from being idle.
#[derive(Clone, Copy, Debug, PartialEq, Eq, Structural)]
pub struct InputState {
    pub session_configured: bool,
    pub blocks_direct_input: bool,
    pub user_turn_pending_or_running: bool,
    pub misalignment_policy_violation: bool,
    pub queued_follow_up_messages: bool,
    pub pending_steers: bool,
    pub suppress_queue_autosend: bool,
    pub rate_limit_recovery_pending: bool,
    pub recovered_queue: bool,
    pub composer_empty: bool,
    pub paste_burst: bool,
    pub modal_or_popup_active: bool,
    pub external_editor_closed: bool,
}

impl InputState {
    /// A retry would not get in anyone's way.
    pub open spec fn idle(self) -> bool {
        &&& self.session_configured
        &&& !self.blocks_direct_input
        &&& !self.user_turn_pending_or_running
        &&& !self.misalignment_policy_violation
        &&& !self.queued_follow_up_messages
        &&& !self.pending_steers
        &&& !self.suppress_queue_autosend
        &&& !self.rate_limit_recovery_pending
        &&& !self.recovered_queue
        &&& self.composer_empty
        &&& !self.paste_burst
        &&& !self.modal_or_popup_active
        &&& self.external_editor_closed
    }
}

/// An item of a thread, as far as it can show model progress.
#[derive(Debug, PartialEq, Eq)]
pub enum ThreadItem {
    /// A message, and whether it was delivered for another agent.
    AgentMessage { text: String, delivery: bool },
    Plan { text: String },
    Reasoning { summary: Vec<String>, content: Vec<String> },
    /// A command, and whether the user ran it in a shell.
    CommandExecution { user_shell: bool },
    FileChange,
    McpToolCall,
    DynamicToolCall,
    CollabAgentToolCall,
    FunctionCallOutput,
    WebSearch,
    ImageView,
    Sleep,
    ImageGeneration,
    UserMessage,
    HookPrompt,
    SubAgentActivity,
    EnteredReviewMode,
    ExitedReviewMode,
    ContextCompaction,
}

/// Some text of a list is not blank.
pub open spec fn any_written(texts: Seq<String>) -> bool {
    exists|i: int| 0 <= i < texts.len() && !text::blank((#[trigger] texts[i])@)
}

/// The item shows that the model is at work. User messages, hooks, reviews and compaction can occur
/// before inference, and other agents may be at work while this model is blocked.
pub open spec fn progress(item: ThreadItem) -> bool {
    match item {
        ThreadItem::AgentMessage { text: written, delivery } => !delivery && !text::blank(written@),
        ThreadItem::Plan { text: written } => !text::blank(written@),
        ThreadItem::Reasoning { summary, content } => any_written(summary@) || any_written(
            content@,
        ),
        ThreadItem::CommandExecution { user_shell } => !user_shell,
        ThreadItem::FileChange | ThreadItem::McpToolCall | ThreadItem::DynamicToolCall
        | ThreadItem::CollabAgentToolCall | ThreadItem::FunctionCallOutput
        | ThreadItem::WebSearch | ThreadItem::ImageView | ThreadItem::Sleep
        | ThreadItem::ImageGeneration => true,
        ThreadItem::UserMessage | ThreadItem::HookPrompt | ThreadItem::SubAgentActivity
        | ThreadItem::EnteredReviewMode | ThreadItem::ExitedReviewMode
        | ThreadItem::ContextCompaction => false,
    }
}

/// What a server tells about a turn, as far as it can show model progress.
#[derive(Debug, PartialEq, Eq)]
pub enum ServerNotification {
    /// Some text of a message, a plan, or reasoning.
    Delta { thread_id: String, turn_id: String, delta: String },
    /// An item was started or completed.
    Item { thread_id: String, turn_id: String, item: ThreadItem },
    /// Anything else.
    Other,
}

/// The notification shows model progress in the given turn of the given thread.
pub open spec fn progress_in(
    notification: ServerNotification,
    thread_id: Option<Seq<char>>,
    turn_id: Option<Seq<char>>,
) -> bool {
    match notification {
        ServerNotification::Delta { thread_id: thread, turn_id: turn, delta } => {
            !text::blank(delta@) && turn_id == Some(turn@) && thread_id == Some(thread@)
        },
        ServerNotification::Item { thread_id: thread, turn_id: turn, item } => {
            progress(item) && turn_id == Some(turn@) && thread_id == Some(thread@)
        },
        ServerNotification::Other => false,
    }
}

/// The chat window.
#[derive(Debug, PartialEq, Eq)]
pub struct ChatWidget {
    pub account_status: AccountStatus,
    pub managed_accounts_active: bool,
    pub status_line_items: Vec<String>,
    pub capacity_retry: CapacityRetryState,
    pub thread_id: Option<String>,
    pub last_turn_id: Option<String>,
    pub agent_turn_running: bool,
    pub current_model: String,
    pub input: InputState,
    /// A turn was sent and has not started yet.
    pub user_turn_pending_start: bool,
    /// What the user was told, in order.
    pub notices: Vec<String>,
}

/// A `ChatWidget` as a mathematical value.
pub struct ChatModel {
    pub account_status: StatusModel,
    pub managed_accounts_active: bool,
    pub status_line_items: Seq<Seq<char>>,
    pub capacity_retry: RetryModel,
    pub thread_id: Option<Seq<char>>,
    pub last_turn_id: Option<Seq<char>>,
    pub agent_turn_running: bool,
    pub current_model: Seq<char>,
    pub input: InputState,
    pub user_turn_pending_start: bool,
    pub notices: Seq<Seq<char>>,
}

impl View for ChatWidget {
    type V = ChatModel;

    open spec fn view(&self) -> ChatModel {
        ChatModel {
            account_status: self.account_status@,
            managed_accounts_active: self.managed_accounts_active,
            status_line_items: text::views(self.status_line_items@),
            capacity_retry: self.capacity_retry@,
            thread_id: text::opt_view(self.thread_id),
            last_turn_id: text::opt_view(self.last_turn_id),
            agent_turn_running: self.agent_turn_running,
            current_model: self.current_model@,
            input: self.input,
            user_turn_pending_start: self.user_turn_pending_start,
            notices: text::views(self.notices@),
        }
    }
}

/// What a due retry comes to.
#[derive(Clone, Copy, Debug, PartialEq, Eq, Structural)]
pub enum RetryStep {
    /// Nothing.
    Rest,
    /// Look again after so many milliseconds.
    LookAgain(u64),
    /// Send an empty turn, which resumes inference from the existing conversation without a user
    /// message.
    Submit,
}

/// A request for the quota of the account in use.
#[derive(Debug, PartialEq, Eq)]
pub struct RefreshRequest {
    pub request_id: String,
    pub account: ManagedAccount,
    pub pool: Option<AccountPool>,
}

/// A `RefreshRequest` as a mathematical value.
pub struct RefreshModel {
    pub request_id: Seq<char>,
    pub account: AccountModel,
    pub pool: Option<PoolModel>,
}

impl View for RefreshRequest {
    type V = RefreshModel;

    open spec fn view(&self) -> RefreshModel {
        RefreshModel {
            request_id: self.request_id@,
            account: self.account@,
            pool: text::opt_view(self.pool),
        }
    }
}

/// A random whole number from `low` to `high`.
///
/// `rand::random_range` on an inclusive range, which panics where the range is empty: the result
/// lies in the range. How it is spread there rests on chance and is not stated.
#[verifier::external_body]
fn random_between(low: u64, high: u64) -> (number: u64)
    requires
        low <= high,
    ensures
        low <= number <= high,
{
    rand::random_range(low..=high)
}

/// Whether some text of a list is not blank.
fn has_text(texts: &Vec<String>) -> (found: bool)
    ensures
        found == any_written(texts@),
{
    let mut i: usize = 0;
    while i < texts.len()
        invariant
            i <= texts.len(),
            forall|j: int| 0 <= j < i ==> text::blank((#[trigger] texts@[j])@),
        decreases texts.len() - i,
    {
        if !text::is_blank(texts[i].as_str()) {
            return true;
        }
        i = i + 1;
    }
    false
}

/// Whether an item shows that the model is at work.
pub fn item_has_model_progress(item: &ThreadItem) -> (answer: bool)
    ensures
        answer == progress(*item),
{
    match item {
        ThreadItem::AgentMessage { text: written, delivery } => !*delivery && !text::is_blank(
            written.as_str(),
        ),
        ThreadItem::Plan { text: written } => !text::is_blank(written.as_str()),
        ThreadItem::Reasoning { summary, content } => has_text(summary) || has_text(content),
        ThreadItem::CommandExecution { user_shell } => !*user_shell,
        ThreadItem::FileChange | ThreadItem::McpToolCall | ThreadItem::DynamicToolCall
        | ThreadItem::CollabAgentToolCall | ThreadItem::FunctionCallOutput
        | ThreadItem::WebSearch | ThreadItem::ImageView | ThreadItem::Sleep
        | ThreadItem::ImageGeneration => true,
        ThreadItem::UserMessage | ThreadItem::HookPrompt | ThreadItem::SubAgentActivity
        | ThreadItem::EnteredReviewMode | ThreadItem::ExitedReviewMode
        | ThreadItem::ContextCompaction => false,
    }
}

/// Whether an optional text is the given one.
fn is_text(value: &Option<String>, expected: &str) -> (same: bool)
    ensures
        same == (text::opt_view(*value) == Some(expected@)),
{
    match value {
        Some(value) => text::same_text(value.as_str(), expected),
        None => false,
    }
}

impl ChatModel {
    /// The window after the user was told something.
    pub open spec fn told(self, notice: Seq<char>) -> ChatModel {
        ChatModel { notices: self.notices.push(notice), ..self }
    }

    /// The window without a pending retry. The user is told of a cancellation.
    pub open spec fn cancelled(self) -> ChatModel {
        if self.capacity_retry.pending is Some {
            (ChatModel { capacity_retry: self.capacity_retry.cleared(), ..self }).told(
                "Automatic capacity retry canceled."@,
            )
        } else {
            self
        }
    }

    /// The notice of a retry.
    pub open spec fn retry_notice(self, delay: u64) -> Seq<char> {
        "Auto-retry "@ + text::decimal(self.capacity_retry.attempts + 1) + "/"@ + text::decimal(
            MAX_CAPACITY_RETRIES as int,
        ) + ": retrying in "@ + text::decimal(delay as int) + "s. Typing or Esc cancels."@
    }

    /// The failure of a turn leads to a retry: it is the first one of the turn that ran last, and
    /// the window has a thread, is idle and has attempts left.
    pub open spec fn retries(self, turn_id: Seq<char>) -> bool {
        &&& self.capacity_retry.last_failed_turn != Some(turn_id)
        &&& self.input.idle()
        &&& self.last_turn_id == Some(turn_id)
        &&& self.capacity_retry.attempts < MAX_CAPACITY_RETRIES
        &&& self.thread_id is Some
    }

    /// The window after a turn failed for lack of capacity, with a delay at hand, and the
    /// milliseconds after which to look again. One failure of a turn counts once.
    pub open spec fn scheduled(self, turn_id: Seq<char>, delay: u64, now: u64) -> (
        ChatModel,
        Option<u64>,
    ) {
        let noted = ChatModel {
            capacity_retry: RetryModel {
                last_failed_turn: Some(turn_id),
                ..self.capacity_retry
            },
            ..self
        };
        if self.capacity_retry.last_failed_turn == Some(turn_id) {
            (self, None)
        } else if !self.input.idle() || self.last_turn_id != Some(turn_id) {
            (
                ChatModel { capacity_retry: noted.capacity_retry.cleared(), ..noted },
                None,
            )
        } else if self.capacity_retry.attempts >= MAX_CAPACITY_RETRIES {
            (noted.told("Automatic capacity retries stopped after 10 attempts."@), None)
        } else if self.thread_id is None {
            (noted, None)
        } else {
            (
                (ChatModel {
                    capacity_retry: RetryModel {
                        pending: Some(
                            PendingModel {
                                deadline: (now + delay * 1000) as u64,
                                thread_id: self.thread_id->0,
                                turn_id,
                                model: self.current_model,
                            },
                        ),
                        ..noted.capacity_retry
                    },
                    ..noted
                }).told(self.retry_notice(delay)),
                Some((delay * 1000) as u64),
            )
        }
    }

    /// The pending retry still fits the conversation.
    pub open spec fn retry_fits(self, pending: PendingModel) -> bool {
        &&& self.thread_id == Some(pending.thread_id)
        &&& self.last_turn_id == Some(pending.turn_id)
        &&& self.current_model == pending.model
        &&& self.input.idle()
    }

    /// The window once a retry was looked at, and what it comes to.
    pub open spec fn looked_at(self, now: u64) -> (ChatModel, RetryStep) {
        match self.capacity_retry.pending {
            None => (self, RetryStep::Rest),
            Some(pending) => if !self.retry_fits(pending) {
                (self.cancelled(), RetryStep::Rest)
            } else if pending.deadline > now {
                (self, RetryStep::LookAgain((pending.deadline - now) as u64))
            } else {
                (
                    ChatModel {
                        capacity_retry: RetryModel { pending: None, ..self.capacity_retry },
                        ..self
                    },
                    RetryStep::Submit,
                )
            },
        }
    }

    /// Some item of the status line shows a quota.
    pub open spec fn shows_quota(self) -> bool {
        self.status_line_items.contains("weekly-limit-with-reset"@)
            || self.status_line_items.contains("account-weekly"@)
            || self.status_line_items.contains("pool-weekly"@)
    }

    /// A refresh of the quota is due.
    pub open spec fn refresh_due(self, now: u64) -> bool {
        &&& self.shows_quota()
        &&& self.managed_accounts_active
        &&& self.account_status.account is Some
        &&& self.account_status.pending_request is None
        &&& self.account_status.next_check is None || self.account_status.next_check->0 <= now
    }

    /// The window once a refresh was looked at, with a request id at hand.
    pub open spec fn refreshed(self, now: u64, id: Seq<char>) -> ChatModel {
        ChatModel {
            account_status: if !self.shows_quota() {
                StatusModel { pending_request: None, ..self.account_status }
            } else if self.refresh_due(now) {
                StatusModel {
                    pending_request: Some(id),
                    next_check: Some((now + REFRESH_MILLIS) as u64),
                    ..self.account_status
                }
            } else {
                self.account_status
            },
            ..self
        }
    }

    /// The window once a reply to a refresh came. One that was not asked for last is discarded.
    pub open spec fn finished(
        self,
        request_id: Seq<char>,
        usages: Seq<UsageModel>,
        now: i64,
    ) -> ChatModel {
        if self.account_status.pending_request == Some(request_id) {
            ChatModel {
                account_status: (StatusModel {
                    pending_request: None,
                    ..self.account_status
                }).read(usages, now),
                ..self
            }
        } else {
            self
        }
    }

    /// The request of a refresh, if one is due.
    pub open spec fn refresh_request(self, now: u64, id: Seq<char>) -> Option<RefreshModel> {
        if self.refresh_due(now) {
            Some(
                RefreshModel {
                    request_id: id,
                    account: self.account_status.account->0,
                    pool: if self.status_line_items.contains("pool-weekly"@) {
                        self.account_status.pool
                    } else {
                        None
                    },
                },
            )
        } else {
            None
        }
    }
}

impl ChatWidget {
    /// Tells the user something.
    fn add_info_message(&mut self, notice: String)
        ensures
            final(self)@ == old(self)@.told(notice@),
    {
        let ghost before = self@.notices;
        let ghost said = notice@;
        self.notices.push(notice);
        assert(self@.notices =~= before.push(said));
    }

    /// Forgets the retries once the model makes progress in the turn under way, even where a later
    /// inference of that turn fails.
    pub fn reset_capacity_retry_on_progress(&mut self, notification: &ServerNotification)
        ensures
            final(self)@ == (if old(self)@.capacity_retry.attempts > 0
                && old(self)@.agent_turn_running && progress_in(
                *notification,
                old(self)@.thread_id,
                old(self)@.last_turn_id,
            ) {
                ChatModel {
                    capacity_retry: old(self)@.capacity_retry.cleared(),
                    ..old(self)@
                }
            } else {
                old(self)@
            }),
    {
        if self.capacity_retry.attempts == 0 || !self.agent_turn_running {
            return ;
        }
        let progressed: bool = match notification {
            ServerNotification::Delta { thread_id, turn_id, delta } => !text::is_blank(
                delta.as_str(),
            ) && is_text(&self.last_turn_id, turn_id.as_str()) && is_text(
                &self.thread_id,
                thread_id.as_str(),
            ),
            ServerNotification::Item { thread_id, turn_id, item } => item_has_model_progress(item)
                && is_text(&self.last_turn_id, turn_id.as_str()) && is_text(
                &self.thread_id,
                thread_id.as_str(),
            ),
            ServerNotification::Other => false,
        };
        if progressed {
            self.capacity_retry.reset();
        }
    }

    /// Cancels a pending retry on a key. Says whether the key is used up, as it is where it would
    /// interrupt a turn.
    pub fn cancel_capacity_retry_on_key(&mut self, released: bool, interrupts: bool) -> (used: bool)
        ensures
            used == (!released && old(self)@.capacity_retry.pending is Some && interrupts),
            final(self)@ == (if released {
                old(self)@
            } else {
                old(self)@.cancelled()
            }),
    {
        if released || self.capacity_retry.pending.is_none() {
            return false;
        }
        self.cancel_capacity_retry();
        interrupts
    }

    /// Whether a retry would not get in anyone's way.
    pub fn capacity_retry_input_is_idle(&self) -> (idle: bool)
        ensures
            idle == self@.input.idle(),
    {
        let input: InputState = self.input;
        input.session_configured && !input.blocks_direct_input
            && !input.user_turn_pending_or_running && !input.misalignment_policy_violation
            && !input.queued_follow_up_messages && !input.pending_steers
            && !input.suppress_queue_autosend && !input.rate_limit_recovery_pending
            && !input.recovered_queue && input.composer_empty && !input.paste_burst
            && !input.modal_or_popup_active && input.external_editor_closed
    }

    /// Schedules a retry of a turn that failed for lack of capacity after the given delay.
    pub fn schedule_capacity_retry_after(&mut self, turn_id: String, delay: u64, now: u64) -> (
        frame: Option<u64>)
        requires
            old(self)@.capacity_retry.wf(),
            old(self)@.retries(turn_id@) ==> now + delay * 1000 <= u64::MAX,
        ensures
            final(self)@.capacity_retry.wf(),
            (final(self)@, frame) == old(self)@.scheduled(turn_id@, delay, now),
            old(self)@.capacity_retry.last_failed_turn == Some(turn_id@) ==> final(self)@ == old(
                self,
            )@ && frame is None,
    {
        if is_text(&self.capacity_retry.last_failed_turn, turn_id.as_str()) {
            return None;
        }
        self.capacity_retry.last_failed_turn = Some(turn_id.clone());
        if !self.capacity_retry_input_is_idle() || !is_text(&self.last_turn_id, turn_id.as_str()) {
            self.capacity_retry.reset();
            return None;
        }
        if self.capacity_retry.attempts >= MAX_CAPACITY_RETRIES {
            self.add_info_message(
                "Automatic capacity retries stopped after 10 attempts.".to_owned(),
            );
            return None;
        }
        let thread_id: String = match &self.thread_id {
            Some(thread_id) => thread_id.clone(),
            None => {
                return None;
            },
        };
        let attempt: i64 = self.capacity_retry.attempts as i64 + 1;
        let mut notice: String = "Auto-retry ".to_owned();
        notice.append(text::numeral(attempt).as_str());
        notice.append("/");
        notice.append(text::numeral(MAX_CAPACITY_RETRIES as i64).as_str());
        notice.append(": retrying in ");
        notice.append(text::long_numeral(delay).as_str());
        notice.append("s. Typing or Esc cancels.");
        self.capacity_retry.pending = Some(
            PendingCapacityRetry {
                deadline: now + delay * 1000,
                thread_id,
                turn_id,
                model: self.current_model.clone(),
            },
        );
        self.add_info_message(notice);
        Some(delay * 1000)
    }

    /// Schedules a retry of a turn that failed for lack of capacity after ten to sixty seconds.
    pub fn schedule_capacity_retry(&mut self, turn_id: String, now: u64) -> (frame: Option<u64>)
        requires
            old(self)@.capacity_retry.wf(),
            old(self)@.retries(turn_id@) ==> now + LONGEST_DELAY * 1000 <= u64::MAX,
        ensures
            final(self)@.capacity_retry.wf(),
            exists|delay: u64|
                SHORTEST_DELAY <= delay <= LONGEST_DELAY && (final(self)@, frame)
                    == #[trigger] old(self)@.scheduled(turn_id@, delay, now),
            old(self)@.capacity_retry.last_failed_turn == Some(turn_id@) ==> final(self)@ == old(
                self,
            )@ && frame is None,
    {
        let delay: u64 = random_between(SHORTEST_DELAY, LONGEST_DELAY);
        self.schedule_capacity_retry_after(turn_id, delay, now)
    }

    /// Cancels a pending retry and tells the user.
    pub fn cancel_capacity_retry(&mut self)
        ensures
            final(self)@ == old(self)@.cancelled(),
    {
        if self.capacity_retry.pending.is_some() {
            self.capacity_retry.reset();
            self.add_info_message("Automatic capacity retry canceled.".to_owned());
        }
    }

    /// Looks at the pending retry. One that no longer fits the conversation is cancelled.
    pub fn retry_capacity_if_due(&mut self, now: u64) -> (step: RetryStep)
        requires
            old(self)@.capacity_retry.wf(),
        ensures
            final(self)@.capacity_retry.wf(),
            (final(self)@, step) == old(self)@.looked_at(now),
            step == RetryStep::Submit ==> final(self)@.capacity_retry.attempts
                < MAX_CAPACITY_RETRIES,
    {
        let (fits, deadline): (bool, u64) = match &self.capacity_retry.pending {
            Some(pending) => (
                is_text(&self.thread_id, pending.thread_id.as_str()) && is_text(
                    &self.last_turn_id,
                    pending.turn_id.as_str(),
                ) && text::same_text(self.current_model.as_str(), pending.model.as_str())
                    && self.capacity_retry_input_is_idle(),
                pending.deadline,
            ),
            None => {
                return RetryStep::Rest;
            },
        };
        if !fits {
            self.cancel_capacity_retry();
            return RetryStep::Rest;
        }
        if deadline > now {
            return RetryStep::LookAgain(deadline - now);
        }
        self.capacity_retry.pending = None;
        RetryStep::Submit
    }

    /// Notes whether the empty turn of a retry was accepted.
    pub fn retry_submitted(&mut self, accepted: bool)
        requires
            old(self)@.capacity_retry.wf(),
            old(self)@.capacity_retry.pending is None,
            old(self)@.capacity_retry.attempts < MAX_CAPACITY_RETRIES,
        ensures
            final(self)@.capacity_retry.wf(),
            final(self)@ == (if accepted {
                ChatModel {
                    capacity_retry: RetryModel {
                        attempts: (old(self)@.capacity_retry.attempts + 1) as u8,
                        ..old(self)@.capacity_retry
                    },
                    user_turn_pending_start: true,
                    ..old(self)@
                }
            } else {
                ChatModel {
                    capacity_retry: old(self)@.capacity_retry.cleared(),
                    ..old(self)@
                }
            }),
    {
        if accepted {
            self.capacity_retry.attempts = self.capacity_retry.attempts + 1;
            self.user_turn_pending_start = true;
        } else {
            self.capacity_retry.reset();
        }
    }

    /// Starts the status line of an account and pool afresh.
    pub fn initialize_managed_account_status(
        &mut self,
        account: Option<ManagedAccount>,
        pool: Option<AccountPool>,
    )
        ensures
            final(self)@ == (ChatModel {
                account_status: StatusModel {
                    account: text::opt_view(account),
                    pool: text::opt_view(pool),
                    weekly: None,
                    pool_weekly: None,
                    pending_request: None,
                    next_check: None,
                },
                ..old(self)@
            }),
    {
        self.account_status = AccountStatus::new(account, pool);
    }

    /// Asks for the quota if the status line shows it and a refresh is due, under the given request
    /// id. Says whether the status line is to be drawn again, now and after a minute.
    pub fn refresh_account_status_as(&mut self, now: u64, id: String) -> (refresh: (
        bool,
        Option<RefreshRequest>,
    ))
        requires
            now + REFRESH_MILLIS <= u64::MAX,
        ensures
            refresh.0 == old(self)@.shows_quota(),
            text::opt_view(refresh.1) == old(self)@.refresh_request(now, id@),
            final(self)@ == old(self)@.refreshed(now, id@),
    {
        let pool_shown: bool = text::holds_text(&self.status_line_items, "pool-weekly");
        let shown: bool = pool_shown || text::holds_text(
            &self.status_line_items,
            "weekly-limit-with-reset",
        ) || text::holds_text(&self.status_line_items, "account-weekly");
        if !shown {
            self.account_status.pending_request = None;
            return (false, None);
        }
        if !self.managed_accounts_active || self.account_status.pending_request.is_some() {
            return (true, None);
        }
        if let Some(next) = self.account_status.next_check {
            if now < next {
                return (true, None);
            }
        }
        let account: ManagedAccount = match &self.account_status.account {
            Some(account) => account.clone(),
            None => {
                return (true, None);
            },
        };
        let pool: Option<AccountPool> = if pool_shown {
            match &self.account_status.pool {
                Some(pool) => Some(pool.clone()),
                None => None,
            }
        } else {
            None
        };
        self.account_status.pending_request = Some(id.clone());
        self.account_status.next_check = Some(now + REFRESH_MILLIS);
        (true, Some(RefreshRequest { request_id: id, account, pool }))
    }

    /// Asks for the quota if the status line shows it and a refresh is due.
    pub fn refresh_account_status_if_due(&mut self, now: u64) -> (refresh: (
        bool,
        Option<RefreshRequest>,
    ))
        requires
            now + REFRESH_MILLIS <= u64::MAX,
        ensures
            refresh.0 == old(self)@.shows_quota(),
            exists|id: Seq<char>|
                redemption::uuid_text(id) && text::opt_view(refresh.1)
                    == #[trigger] old(self)@.refresh_request(now, id) && final(self)@
                    == old(self)@.refreshed(now, id),
    {
        let id: String = redemption::random_key();
        self.refresh_account_status_as(now, id)
    }

    /// Takes the reply to a refresh. One that was not asked for last is discarded; a failed one shows
    /// no quota. Says whether the status line is to be drawn again.
    pub fn finish_account_status(
        &mut self,
        request_id: &str,
        result: &Option<Vec<ManagedAccountUsage>>,
        now: i64,
    ) -> (taken: bool)
        ensures
            taken == (old(self)@.account_status.pending_request == Some(request_id@)),
            final(self)@ == old(self)@.finished(
                request_id@,
                match result {
                    Some(usages) => text::views(usages@),
                    None => seq![],
                },
                now,
            ),
    {
        if !is_text(&self.account_status.pending_request, request_id) {
            return false;
        }
        self.account_status.pending_request = None;
        match result {
            Some(usages) => {
                self.account_status.record_usage(usages, now);
            },
            None => {
                let none: Vec<ManagedAccountUsage> = Vec::new();
                assert(text::views(none@) =~= seq![]);
                self.account_status.record_usage(&none, now);
            },
        }
        true
    }
}

/// The failure of a turn that was noted before changes nothing, whatever is pending: the attempts,
/// the pending retry with its deadline and the notices stay, and there is nothing to look at again.
pub proof fn law_noted_failure_changes_nothing(
    chat: ChatModel,
    turn_id: Seq<char>,
    delay: u64,
    now: u64,
)
    requires
        chat.capacity_retry.last_failed_turn == Some(turn_id),
    ensures
        chat.scheduled(turn_id, delay, now) == (chat, None::<u64>),
        chat.cancelled().scheduled(turn_id, delay, now) == (chat.cancelled(), None::<u64>),
{
}

/// A turn that failed once for lack of capacity does not count again: a repeated completion changes
/// nothing, neither at once nor after the retry was cancelled.
pub proof fn law_repeated_failure_counts_once(
    chat: ChatModel,
    turn_id: Seq<char>,
    delay: u64,
    again: u64,
    now: u64,
    later: u64,
)
    ensures
        ({
            let after = chat.scheduled(turn_id, delay, now).0;
            &&& after.scheduled(turn_id, again, later) == (after, None::<u64>)
            &&& after.cancelled().scheduled(turn_id, again, later) == (
                after.cancelled(),
                None::<u64>,
            )
        }),
{
}

/// A retry is scheduled only while the chat window is idle, and never an eleventh in a row.
pub proof fn law_retry_needs_idle_window(chat: ChatModel, turn_id: Seq<char>, delay: u64, now: u64)
    requires
        chat.capacity_retry.pending is None,
        chat.scheduled(turn_id, delay, now).0.capacity_retry.pending is Some,
    ensures
        chat.input.idle(),
        chat.last_turn_id == Some(turn_id),
        chat.thread_id is Some,
        chat.capacity_retry.attempts < MAX_CAPACITY_RETRIES,
        chat.scheduled(turn_id, delay, now).0.capacity_retry.pending->0.deadline == (now + delay
            * 1000) as u64,
{
}

/// A retry is sent only in the conversation that it was scheduled for, after its delay, while the
/// chat window is idle and with the same model.
pub proof fn law_retry_is_sent_only_in_its_conversation(chat: ChatModel, now: u64)
    requires
        chat.looked_at(now).1 == RetryStep::Submit,
    ensures
        chat.capacity_retry.pending is Some,
        chat.retry_fits(chat.capacity_retry.pending->0),
        chat.capacity_retry.pending->0.deadline <= now,
        chat.looked_at(now).0.notices == chat.notices,
{
}

/// A reply that was asked for an earlier account is discarded: once another account is in use, it
/// changes nothing.
pub proof fn law_earlier_replies_are_discarded(
    chat: ChatModel,
    account: AccountModel,
    request_id: Seq<char>,
    usages: Seq<UsageModel>,
    now: i64,
)
    requires
        chat.account_status.account is None || !chat.account_status.account->0.names(account),
    ensures
        ({
            let moved = ChatModel {
                account_status: chat.account_status.selected(account),
                ..chat
            };
            moved.finished(request_id, usages, now) == moved
        }),
{
}

/// The first failure of the last turn for lack of capacity, in an idle window with a thread and
/// fewer than ten retries so far, leaves a retry of that turn with the same model pending for the end
/// of the delay; the user is told which retry it is and when it comes. Nothing else changes.
pub proof fn law_capacity_failure_leaves_a_retry(
    chat: ChatModel,
    turn_id: Seq<char>,
    delay: u64,
    now: u64,
)
    requires
        chat.capacity_retry.last_failed_turn != Some(turn_id),
        chat.last_turn_id == Some(turn_id),
        chat.input.idle(),
        chat.capacity_retry.attempts < 10,
        chat.thread_id is Some,
        now + delay * 1000 <= u64::MAX,
    ensures
        ({
            let (after, frame) = chat.scheduled(turn_id, delay, now);
            let pending = after.capacity_retry.pending->0;
            &&& frame == Some((1000 * delay) as u64)
            &&& after.capacity_retry.pending is Some
            &&& pending.deadline - now == 1000 * delay
            &&& Some(pending.thread_id) == chat.thread_id
            &&& pending.turn_id == turn_id
            &&& pending.model == chat.current_model
            &&& after.capacity_retry.attempts == chat.capacity_retry.attempts
            &&& after.capacity_retry.last_failed_turn == Some(turn_id)
            &&& after.notices == chat.notices.push(
                "Auto-retry "@ + text::decimal(1 + chat.capacity_retry.attempts) + "/"@
                    + text::decimal(10) + ": retrying in "@ + text::decimal(delay as int)
                    + "s. Typing or Esc cancels."@,
            )
            &&& after == (ChatModel {
                capacity_retry: after.capacity_retry,
                notices: after.notices,
                ..chat
            })
        }),
{
}

/// A failure that leads to no retry is noted all the same. A window that is busy, or another turn,
/// starts the count anew and drops what is pending; after ten retries the user is told that it was
/// the last.
pub proof fn law_capacity_failure_without_a_retry(
    chat: ChatModel,
    turn_id: Seq<char>,
    delay: u64,
    now: u64,
)
    requires
        chat.capacity_retry.last_failed_turn != Some(turn_id),
    ensures
        ({
            let (after, frame) = chat.scheduled(turn_id, delay, now);
            let busy = !chat.input.idle() || chat.last_turn_id != Some(turn_id);
            &&& after.capacity_retry.last_failed_turn == Some(turn_id)
            &&& busy ==> frame is None && after.capacity_retry.attempts == 0
                && after.capacity_retry.pending is None && after.notices == chat.notices
            &&& !busy && chat.capacity_retry.attempts >= 10 ==> frame is None
                && after.capacity_retry.attempts == chat.capacity_retry.attempts
                && after.capacity_retry.pending == chat.capacity_retry.pending && after.notices
                == chat.notices.push("Automatic capacity retries stopped after 10 attempts."@)
            &&& !busy && chat.capacity_retry.attempts < 10 && chat.thread_id is None
                ==> frame is None && after.capacity_retry.attempts == chat.capacity_retry.attempts
                && after.capacity_retry.pending == chat.capacity_retry.pending && after.notices
                == chat.notices
            &&& after.thread_id == chat.thread_id && after.last_turn_id == chat.last_turn_id
            &&& after.input == chat.input && after.account_status == chat.account_status
        }),
{
}

/// A pending retry is sent once its time has come; before that there is as long to wait as is left;
/// and where the thread, the turn or the model is another, or the window is busy, it is cancelled and
/// the user told.
pub proof fn law_pending_retry_is_looked_at(chat: ChatModel, now: u64)
    ensures
        ({
            let (after, step) = chat.looked_at(now);
            let pending = chat.capacity_retry.pending->0;
            let fits = chat.thread_id == Some(pending.thread_id) && chat.last_turn_id == Some(
                pending.turn_id,
            ) && chat.current_model == pending.model && chat.input.idle();
            &&& chat.capacity_retry.pending is None ==> after == chat && step == RetryStep::Rest
            &&& chat.capacity_retry.pending is Some && !fits ==> {
                &&& step == RetryStep::Rest
                &&& after.capacity_retry.pending is None && after.capacity_retry.attempts == 0
                &&& after.capacity_retry.last_failed_turn == chat.capacity_retry.last_failed_turn
                &&& after.notices == chat.notices.push("Automatic capacity retry canceled."@)
            }
            &&& chat.capacity_retry.pending is Some && fits && now < pending.deadline ==> {
                &&& after == chat
                &&& step matches RetryStep::LookAgain(rest)
                &&& now + rest == pending.deadline
            }
            &&& chat.capacity_retry.pending is Some && fits && now >= pending.deadline ==> {
                &&& step == RetryStep::Submit
                &&& after.capacity_retry.pending is None
                &&& after.capacity_retry.attempts == chat.capacity_retry.attempts
                &&& after.capacity_retry.last_failed_turn == chat.capacity_retry.last_failed_turn
                &&& after.notices == chat.notices
            }
        }),
{
}

/// A retry would get in the way of a session that is not configured, of input that is blocked or
/// waiting, of a turn, a queue, a recovery, a draft, a paste, a dialog and an open editor, and of
/// nothing else.
pub proof fn law_idle_window(input: InputState)
    ensures
        input.idle() <==> input == (InputState {
            session_configured: true,
            blocks_direct_input: false,
            user_turn_pending_or_running: false,
            misalignment_policy_violation: false,
            queued_follow_up_messages: false,
            pending_steers: false,
            suppress_queue_autosend: false,
            rate_limit_recovery_pending: false,
            recovered_queue: false,
            composer_empty: true,
            paste_burst: false,
            modal_or_popup_active: false,
            external_editor_closed: true,
        }),
{
}

/// A cancellation drops the pending retry and the count, tells the user, and leaves the noted
/// failure; without a pending retry there is nothing to cancel.
pub proof fn law_cancellation(chat: ChatModel)
    ensures
        chat.capacity_retry.pending is None ==> chat.cancelled() == chat,
        chat.capacity_retry.pending is Some ==> {
            &&& chat.cancelled().capacity_retry.pending is None
            &&& chat.cancelled().capacity_retry.attempts == 0
            &&& chat.cancelled().capacity_retry.last_failed_turn
                == chat.capacity_retry.last_failed_turn
            &&& chat.cancelled().notices == chat.notices.push(
                "Automatic capacity retry canceled."@,
            )
        },
        chat.capacity_retry.cleared().last_failed_turn == chat.capacity_retry.last_failed_turn,
        chat.capacity_retry.cleared().attempts == 0,
        chat.capacity_retry.cleared().pending is None,
{
}

/// The model shows progress by what it writes and by the tools it uses: by a message of its own, a
/// plan or reasoning that is not blank, and by every tool but the user's own shell. What the user,
/// hooks, reviews, compaction and other agents do is no progress of the model.
pub proof fn law_model_progress(item: ThreadItem)
    ensures
        item is UserMessage || item is HookPrompt || item is SubAgentActivity
            || item is EnteredReviewMode || item is ExitedReviewMode || item is ContextCompaction
            ==> !progress(item),
        item is FileChange || item is McpToolCall || item is DynamicToolCall
            || item is CollabAgentToolCall || item is FunctionCallOutput || item is WebSearch
            || item is ImageView || item is Sleep || item is ImageGeneration ==> progress(item),
        item matches ThreadItem::CommandExecution { user_shell } ==> progress(item) == !user_shell,
        item matches ThreadItem::AgentMessage { text: written, delivery } ==> (progress(item)
            <==> !delivery && exists|i: int|
            0 <= i < written@.len() && !text::white_space(#[trigger] written@[i])),
        item matches ThreadItem::Plan { text: written } ==> (progress(item) <==> exists|i: int|
            0 <= i < written@.len() && !text::white_space(#[trigger] written@[i])),
        item matches ThreadItem::Reasoning { summary, content } ==> (progress(item) <==> (exists|
            i: int,
        |
            0 <= i < summary@.len() && !text::blank((#[trigger] summary@[i])@)) || (exists|i: int|
            0 <= i < content@.len() && !text::blank((#[trigger] content@[i])@))),
{
}

/// Progress counts only in the turn and the thread that it belongs to.
pub proof fn law_progress_counts_in_its_turn(
    notification: ServerNotification,
    thread_id: Option<Seq<char>>,
    turn_id: Option<Seq<char>>,
)
    ensures
        notification is Other ==> !progress_in(notification, thread_id, turn_id),
        notification matches ServerNotification::Delta { thread_id: thread, turn_id: turn, delta }
            ==> (progress_in(notification, thread_id, turn_id) <==> thread_id == Some(thread@)
            && turn_id == Some(turn@) && !text::blank(delta@)),
        notification matches ServerNotification::Item { thread_id: thread, turn_id: turn, item }
            ==> (progress_in(notification, thread_id, turn_id) <==> thread_id == Some(thread@)
            && turn_id == Some(turn@) && progress(item)),
{
}

/// The quota is asked for where the status line shows one, the accounts are managed, one is in use,
/// no request is pending and a minute has passed since the last; the pool is asked for where its
/// quota is shown. A line that shows no quota drops the pending request.
pub proof fn law_quota_is_asked_for_each_minute(chat: ChatModel, now: u64, id: Seq<char>)
    requires
        now + 60_000 <= u64::MAX,
    ensures
        ({
            let status = chat.account_status;
            let after = chat.refreshed(now, id);
            let shown = chat.status_line_items.contains("account-weekly"@)
                || chat.status_line_items.contains("pool-weekly"@)
                || chat.status_line_items.contains("weekly-limit-with-reset"@);
            let due = shown && chat.managed_accounts_active && status.account is Some
                && status.pending_request is None && (status.next_check matches Some(next) ==> next
                <= now);
            &&& chat.shows_quota() == shown
            &&& chat.refresh_request(now, id) is Some <==> due
            &&& due ==> {
                &&& chat.refresh_request(now, id)->0.request_id == id
                &&& Some(chat.refresh_request(now, id)->0.account) == status.account
                &&& chat.status_line_items.contains("pool-weekly"@) ==> chat.refresh_request(
                    now,
                    id,
                )->0.pool == status.pool
                &&& !chat.status_line_items.contains("pool-weekly"@) ==> chat.refresh_request(
                    now,
                    id,
                )->0.pool is None
                &&& after.account_status.pending_request == Some(id)
                &&& after.account_status.next_check is Some
                &&& after.account_status.next_check->0 - now == 60_000
            }
            &&& !due && shown ==> after == chat
            &&& !shown ==> after.account_status.pending_request is None
                && after.account_status.next_check == status.next_check
            &&& after.account_status.account == status.account && after.account_status.pool
                == status.pool && after.account_status.weekly == status.weekly
                && after.account_status.pool_weekly == status.pool_weekly
            &&& after.capacity_retry == chat.capacity_retry && after.notices == chat.notices
        }),
{
}

/// The reply to the pending request is taken, and the request is no longer pending; any other reply
/// changes nothing.
pub proof fn law_pending_reply_is_taken(
    chat: ChatModel,
    request_id: Seq<char>,
    usages: Seq<UsageModel>,
    now: i64,
)
    ensures
        ({
            let after = chat.finished(request_id, usages, now);
            let asked = chat.account_status.pending_request == Some(request_id);
            &&& !asked ==> after == chat
            &&& asked ==> {
                &&& after.account_status.pending_request is None
                &&& after.account_status.weekly == chat.account_status.read(usages, now).weekly
                &&& after.account_status.pool_weekly == chat.account_status.read(
                    usages,
                    now,
                ).pool_weekly
                &&& after.account_status.account == chat.account_status.account
                &&& after.account_status.pool == chat.account_status.pool
                &&& after.account_status.next_check == chat.account_status.next_check
            }
        }),
{
}

/// Retries come after ten to sixty seconds, and ten of them at most.
pub proof fn law_retry_limits()
    ensures
        SHORTEST_DELAY == 10,
        LONGEST_DELAY == 60,
        MAX_CAPACITY_RETRIES == 10,
        REFRESH_MILLIS == 60_000,
{
}

/// A `PendingCapacityRetry` is seen with every field as it is.
pub proof fn law_pending_capacity_retry_is_seen_whole(value: PendingCapacityRetry)
    ensures
        value@.deadline == value.deadline,
        value@.thread_id == value.thread_id@,
        value@.turn_id == value.turn_id@,
        value@.model == value.model@,
{
}

/// A `CapacityRetryState` is seen with every field as it is.
pub proof fn law_capacity_retry_state_is_seen_whole(value: CapacityRetryState)
    ensures
        value@.attempts == value.attempts,
        value@.last_failed_turn == text::opt_view(value.last_failed_turn),
        value@.pending == text::opt_view(value.pending),
{
}

/// A `ChatWidget` is seen with every field as it is.
pub proof fn law_chat_widget_is_seen_whole(value: ChatWidget)
    ensures
        value@.account_status == value.account_status@,
        value@.managed_accounts_active == value.managed_accounts_active,
        value@.status_line_items == text::views(value.status_line_items@),
        value@.capacity_retry == value.capacity_retry@,
        value@.thread_id == text::opt_view(value.thread_id),
        value@.last_turn_id == text::opt_view(value.last_turn_id),
        value@.agent_turn_running == value.agent_turn_running,
        value@.current_model == value.current_model@,
        value@.input == value.input,
        value@.user_turn_pending_start == value.user_turn_pending_start,
        value@.notices == text::views(value.notices@),
{
}

/// A `RefreshRequest` is seen with every field as it is.
pub proof fn law_refresh_request_is_seen_whole(value: RefreshRequest)
    ensures
        value@.request_id == value.request_id@,
        value@.account == value.account@,
        value@.pool == text::opt_view(value.pool),
{
}

} // verus!
