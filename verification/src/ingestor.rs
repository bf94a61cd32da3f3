//! A run over all active users as a state machine: one task per user, the
//! outcomes joined into one batch of receipts and one list of users whose
//! watermark advances.
//!
//! The caller performs each action and hands back what came of it as the
//! next event. The failure of one user's task leaves the others as they are.

use vstd::prelude::*;
use crate::receipt::{is_stamped, Receipt, ReceiptRecord};
use crate::text::{decimal, decimal_string, views};
use crate::user::{Account, User};
use crate::window::{clauses_for, query_clauses, window_day_count, window_days, window_for, window_of};

verus! {

/// The part of the ingestor that decides: the addresses of the issuers whose
/// messages are searched for.
#[derive(Debug)]
pub struct IngestorService {
    pub issuers_email: Vec<String>,
}

/// The task of one user: whose mailbox, and the clauses of the search.
#[derive(Debug)]
pub struct UserTask {
    pub email: String,
    pub queries: Vec<String>,
}

/// How the task of one user ended.
#[derive(Debug)]
pub enum UserOutcome {
    /// The sync completed, with these receipts.
    Synced(Vec<Receipt>),
    /// The sync returned an error.
    Failed,
    /// The task was cancelled or died.
    Aborted,
}

/// What a run amounts to.
#[derive(Debug)]
pub struct SyncReport {
    /// The receipts of all users whose sync completed, in the order of the
    /// users.
    pub receipts: Vec<Receipt>,
    /// The users whose sync completed, each with the watermark set to the
    /// time of the run.
    pub updated_users: Vec<User>,
    /// The addresses of the users whose sync did not complete.
    pub failed: Vec<String>,
}

/// Which write of a run failed.
#[derive(Debug, Clone, Copy, PartialEq, Eq, Structural)]
pub enum RunFailure {
    /// The active users could not be listed.
    UsersUnavailable,
    /// The receipts could not be inserted.
    ReceiptStore,
    /// The watermarks could not be updated.
    Watermarks,
}

/// Where a run stands.
#[derive(Debug)]
pub enum SyncRun {
    /// No run is under way.
    Idle,
    /// The active users are awaited.
    AwaitingUsers { now: i64 },
    /// The tasks of the users are awaited.
    AwaitingTasks { now: i64, users: Vec<User> },
    /// The store is to confirm the receipts.
    Inserting { report: SyncReport },
    /// The directory is to confirm the watermarks.
    UpdatingWatermarks { report: SyncReport },
    /// The run is complete.
    Done { report: SyncReport },
    /// The run failed.
    Failed { reason: RunFailure },
}

/// What came of the last action of a run.
#[derive(Debug)]
pub enum RunEvent {
    /// A run is due; `now` is the time in milliseconds since the Unix epoch.
    Tick { now: i64 },
    /// The directory answered with the active users.
    Users(Vec<User>),
    /// The directory did not answer.
    UsersUnavailable,
    /// Every task has ended; the outcomes stand in the order of the tasks.
    Joined(Vec<UserOutcome>),
    /// The write was done.
    Written,
    /// The write failed.
    WriteFailed,
}

/// What the caller of a run is to do next.
#[derive(Debug)]
pub enum RunAction {
    /// List the active users.
    ListActiveUsers,
    /// Run one task for each entry, all at once, and join them.
    Spawn(Vec<UserTask>),
    /// Insert these receipts, in one write.
    InsertReceipts(Vec<Receipt>),
    /// Update the watermarks of these users, in one write.
    UpdateWatermarks(Vec<User>),
    /// The run is complete: take the report from the state.
    Finish,
    /// The run failed: take the reason from the state.
    Abort,
    /// The event does not belong to the state; nothing changed.
    Ignore,
}

/// The mathematical form of a `UserTask`.
pub struct Task {
    pub email: Seq<char>,
    pub queries: Seq<Seq<char>>,
}

/// The mathematical form of a `UserOutcome`.
pub enum Outcome {
    Synced(Seq<ReceiptRecord>),
    Failed,
    Aborted,
}

/// The mathematical form of a `SyncReport`.
pub struct Report {
    pub receipts: Seq<ReceiptRecord>,
    pub updated_users: Seq<Account>,
    pub failed: Seq<Seq<char>>,
}

/// The mathematical form of a `SyncRun`.
pub enum RunState {
    Idle,
    AwaitingUsers { now: i64 },
    AwaitingTasks { now: i64, users: Seq<Account> },
    Inserting { report: Report },
    UpdatingWatermarks { report: Report },
    Done { report: Report },
    Failed { reason: RunFailure },
}

/// The mathematical form of a `RunEvent`.
pub enum RunInput {
    Tick { now: i64 },
    Users(Seq<Account>),
    UsersUnavailable,
    Joined(Seq<Outcome>),
    Written,
    WriteFailed,
}

/// The mathematical form of a `RunAction`.
pub enum RunOutput {
    ListActiveUsers,
    Spawn(Seq<Task>),
    InsertReceipts(Seq<ReceiptRecord>),
    UpdateWatermarks(Seq<Account>),
    Finish,
    Abort,
    Ignore,
}

impl View for UserTask {
    type V = Task;

    open spec fn view(&self) -> Task {
        Task { email: self.email@, queries: views(self.queries@) }
    }
}

impl View for UserOutcome {
    type V = Outcome;

    open spec fn view(&self) -> Outcome {
        match self {
            UserOutcome::Synced(receipts) => Outcome::Synced(views(receipts@)),
            UserOutcome::Failed => Outcome::Failed,
            UserOutcome::Aborted => Outcome::Aborted,
        }
    }
}

impl View for SyncReport {
    type V = Report;

    open spec fn view(&self) -> Report {
        Report {
            receipts: views(self.receipts@),
            updated_users: views(self.updated_users@),
            failed: views(self.failed@),
        }
    }
}

impl View for SyncRun {
    type V = RunState;

    open spec fn view(&self) -> RunState {
        match self {
            SyncRun::Idle => RunState::Idle,
            SyncRun::AwaitingUsers { now } => RunState::AwaitingUsers { now: *now },
            SyncRun::AwaitingTasks { now, users } => RunState::AwaitingTasks {
                now: *now,
                users: views(users@),
            },
            SyncRun::Inserting { report } => RunState::Inserting { report: report@ },
            SyncRun::UpdatingWatermarks { report } => RunState::UpdatingWatermarks {
                report: report@,
            },
            SyncRun::Done { report } => RunState::Done { report: report@ },
            SyncRun::Failed { reason } => RunState::Failed { reason: *reason },
        }
    }
}

impl View for RunEvent {
    type V = RunInput;

    open spec fn view(&self) -> RunInput {
        match self {
            RunEvent::Tick { now } => RunInput::Tick { now: *now },
            RunEvent::Users(users) => RunInput::Users(views(users@)),
            RunEvent::UsersUnavailable => RunInput::UsersUnavailable,
            RunEvent::Joined(outcomes) => RunInput::Joined(views(outcomes@)),
            RunEvent::Written => RunInput::Written,
            RunEvent::WriteFailed => RunInput::WriteFailed,
        }
    }
}

impl View for RunAction {
    type V = RunOutput;

    open spec fn view(&self) -> RunOutput {
        match self {
            RunAction::ListActiveUsers => RunOutput::ListActiveUsers,
            RunAction::Spawn(tasks) => RunOutput::Spawn(views(tasks@)),
            RunAction::InsertReceipts(receipts) => RunOutput::InsertReceipts(views(receipts@)),
            RunAction::UpdateWatermarks(users) => RunOutput::UpdateWatermarks(views(users@)),
            RunAction::Finish => RunOutput::Finish,
            RunAction::Abort => RunOutput::Abort,
            RunAction::Ignore => RunOutput::Ignore,
        }
    }
}

/// The task of `user` in a run at `now`.
pub open spec fn task_of(issuers: Seq<Seq<char>>, now: i64, user: Account) -> Task {
    Task {
        email: user.email,
        queries: query_clauses(issuers, window_of(now as int, user.last_synced)),
    }
}

/// The tasks of `users`, in order.
pub open spec fn tasks_of(issuers: Seq<Seq<char>>, now: i64, users: Seq<Account>) -> Seq<Task> {
    users.map_values(|u: Account| task_of(issuers, now, u))
}

/// `user` with the watermark set to `now`.
pub open spec fn advanced(user: Account, now: i64) -> Account {
    Account { last_synced: Some(now), ..user }
}

/// The report of a run at `now` over `users` whose tasks ended as `outcomes`
/// say, one outcome for each user, in order.
pub open spec fn report_of(now: i64, users: Seq<Account>, outcomes: Seq<Outcome>) -> Report
    decreases users.len(),
{
    if users.len() == 0 || outcomes.len() == 0 {
        Report { receipts: Seq::empty(), updated_users: Seq::empty(), failed: Seq::empty() }
    } else {
        let before = report_of(now, users.drop_last(), outcomes.drop_last());
        match outcomes.last() {
            Outcome::Synced(receipts) => Report {
                receipts: before.receipts + receipts,
                updated_users: before.updated_users.push(advanced(users.last(), now)),
                failed: before.failed,
            },
            _ => Report {
                receipts: before.receipts,
                updated_users: before.updated_users,
                failed: before.failed.push(users.last().email),
            },
        }
    }
}

/// The step of a run: the state and the action that follow from a state and
/// an event.
pub open spec fn run_step(issuers: Seq<Seq<char>>, state: RunState, event: RunInput) -> (
    RunState,
    RunOutput,
) {
    match (state, event) {
        (RunState::Idle, RunInput::Tick { now }) => (
            RunState::AwaitingUsers { now },
            RunOutput::ListActiveUsers,
        ),
        (RunState::AwaitingUsers { now }, RunInput::Users(users)) => (
            RunState::AwaitingTasks { now, users },
            RunOutput::Spawn(tasks_of(issuers, now, users)),
        ),
        (RunState::AwaitingUsers { now }, RunInput::UsersUnavailable) => (
            RunState::Failed { reason: RunFailure::UsersUnavailable },
            RunOutput::Abort,
        ),
        (RunState::AwaitingTasks { now, users }, RunInput::Joined(outcomes)) => if outcomes.len()
            != users.len() {
            (state, RunOutput::Ignore)
        } else {
            let report = report_of(now, users, outcomes);
            if report.receipts.len() > 0 {
                (RunState::Inserting { report }, RunOutput::InsertReceipts(report.receipts))
            } else {
                (
                    RunState::UpdatingWatermarks { report },
                    RunOutput::UpdateWatermarks(report.updated_users),
                )
            }
        },
        (RunState::Inserting { report }, RunInput::Written) => (
            RunState::UpdatingWatermarks { report },
            RunOutput::UpdateWatermarks(report.updated_users),
        ),
        (RunState::Inserting { report }, RunInput::WriteFailed) => (
            RunState::Failed { reason: RunFailure::ReceiptStore },
            RunOutput::Abort,
        ),
        (RunState::UpdatingWatermarks { report }, RunInput::Written) => (
            RunState::Done { report },
            RunOutput::Finish,
        ),
        (RunState::UpdatingWatermarks { report }, RunInput::WriteFailed) => (
            RunState::Failed { reason: RunFailure::Watermarks },
            RunOutput::Abort,
        ),
        _ => (state, RunOutput::Ignore),
    }
}

/// Whether a task ended with a completed sync.
pub open spec fn is_synced(outcome: Outcome) -> bool {
    outcome is Synced
}

/// The receipts of a task: none where the sync did not complete.
pub open spec fn receipts_of(outcome: Outcome) -> Seq<ReceiptRecord> {
    match outcome {
        Outcome::Synced(receipts) => receipts,
        _ => Seq::empty(),
    }
}

/// What the report of a run says of the user in place `i`. Where the task
/// of the user completed, the user stands among the updated users with the
/// watermark at the time of the run, and every receipt of the task stands in
/// the batch. Where it did not, the user's address stands among the failed.
pub proof fn lemma_report_tells_of_each_user(
    now: i64,
    users: Seq<Account>,
    outcomes: Seq<Outcome>,
    i: int,
)
    requires
        users.len() == outcomes.len(),
        0 <= i < users.len(),
    ensures
        outcomes[i] matches Outcome::Synced(receipts) ==> {
            &&& report_of(now, users, outcomes).updated_users.contains(advanced(users[i], now))
            &&& forall|k: int|
                0 <= k < receipts.len() ==> report_of(now, users, outcomes).receipts.contains(
                    #[trigger] receipts[k],
                )
        },
        !is_synced(outcomes[i]) ==> report_of(now, users, outcomes).failed.contains(
            users[i].email,
        ),
    decreases users.len(),
{
    let report = report_of(now, users, outcomes);
    let before = report_of(now, users.drop_last(), outcomes.drop_last());
    if i == users.len() - 1 {
        match outcomes[i] {
            Outcome::Synced(receipts) => {
                assert(report.updated_users.last() == advanced(users[i], now));
                assert forall|k: int| 0 <= k < receipts.len() implies report.receipts.contains(
                    #[trigger] receipts[k],
                ) by {
                    assert(report.receipts[before.receipts.len() + k] == receipts[k]);
                }
            },
            _ => {
                assert(report.failed.last() == users[i].email);
            },
        }
    } else {
        lemma_report_tells_of_each_user(now, users.drop_last(), outcomes.drop_last(), i);
        assert(users.drop_last()[i] == users[i]);
        assert(outcomes.drop_last()[i] == outcomes[i]);
        match outcomes[i] {
            Outcome::Synced(receipts) => {
                let w = choose|w: int|
                    0 <= w < before.updated_users.len() && before.updated_users[w] == advanced(
                        users[i],
                        now,
                    );
                assert(report.updated_users[w] == advanced(users[i], now));
                assert forall|k: int| 0 <= k < receipts.len() implies report.receipts.contains(
                    #[trigger] receipts[k],
                ) by {
                    let v = choose|v: int|
                        0 <= v < before.receipts.len() && before.receipts[v] == receipts[k];
                    assert(report.receipts[v] == receipts[k]);
                }
            },
            _ => {
                let w = choose|w: int|
                    0 <= w < before.failed.len() && before.failed[w] == users[i].email;
                assert(report.failed[w] == users[i].email);
            },
        }
    }
}

/// Whether `account` is a user whose task completed, with the watermark at
/// `now`.
pub open spec fn is_advanced_user(
    now: i64,
    users: Seq<Account>,
    outcomes: Seq<Outcome>,
    account: Account,
) -> bool {
    exists|i: int|
        0 <= i < users.len() && is_synced(outcomes[i]) && account == advanced(
            #[trigger] users[i],
            now,
        )
}

/// Whether `receipt` is one of a task that completed.
pub open spec fn is_completed_work(outcomes: Seq<Outcome>, receipt: ReceiptRecord) -> bool {
    exists|i: int|
        0 <= i < outcomes.len() && (#[trigger] receipts_of(outcomes[i])).contains(receipt)
}

/// Whether `email` is the address of a user whose task did not complete.
pub open spec fn is_failed_user(users: Seq<Account>, outcomes: Seq<Outcome>, email: Seq<char>) -> bool {
    exists|i: int|
        0 <= i < users.len() && !is_synced(outcomes[i]) && email == (#[trigger] users[i]).email
}

/// Whatever a report holds comes from the task it is said of: every updated
/// user is one whose task completed, with the watermark at the time of the
/// run; every receipt of the batch is one of a task that completed; every
/// address among the failed is one of a user whose task did not complete. So
/// the watermark of a user whose task failed is not touched, and nothing of
/// that task is stored.
pub proof fn lemma_report_holds_only_completed_work(
    now: i64,
    users: Seq<Account>,
    outcomes: Seq<Outcome>,
)
    requires
        users.len() == outcomes.len(),
    ensures
        forall|w: int|
            0 <= w < report_of(now, users, outcomes).updated_users.len() ==> is_advanced_user(
                now,
                users,
                outcomes,
                #[trigger] report_of(now, users, outcomes).updated_users[w],
            ),
        forall|v: int|
            0 <= v < report_of(now, users, outcomes).receipts.len() ==> is_completed_work(
                outcomes,
                #[trigger] report_of(now, users, outcomes).receipts[v],
            ),
        forall|f: int|
            0 <= f < report_of(now, users, outcomes).failed.len() ==> is_failed_user(
                users,
                outcomes,
                #[trigger] report_of(now, users, outcomes).failed[f],
            ),
    decreases users.len(),
{
    let report = report_of(now, users, outcomes);
    if users.len() > 0 {
        let n = users.len() - 1;
        let front = users.drop_last();
        let ended = outcomes.drop_last();
        let before = report_of(now, front, ended);
        lemma_report_holds_only_completed_work(now, front, ended);
        assert forall|w: int| 0 <= w < report.updated_users.len() implies is_advanced_user(
            now,
            users,
            outcomes,
            #[trigger] report.updated_users[w],
        ) by {
            if w < before.updated_users.len() {
                assert(report.updated_users[w] == before.updated_users[w]);
                assert(is_advanced_user(now, front, ended, before.updated_users[w]));
                let i = choose|i: int|
                    0 <= i < front.len() && is_synced(ended[i]) && before.updated_users[w]
                        == advanced(#[trigger] front[i], now);
                assert(users[i] == front[i]);
                assert(outcomes[i] == ended[i]);
            } else {
                assert(is_synced(outcomes[n]));
                assert(report.updated_users[w] == advanced(users[n], now));
            }
        }
        assert forall|v: int| 0 <= v < report.receipts.len() implies is_completed_work(
            outcomes,
            #[trigger] report.receipts[v],
        ) by {
            if v < before.receipts.len() {
                assert(report.receipts[v] == before.receipts[v]);
                assert(is_completed_work(ended, before.receipts[v]));
                let i = choose|i: int|
                    0 <= i < ended.len() && (#[trigger] receipts_of(ended[i])).contains(
                        before.receipts[v],
                    );
                assert(outcomes[i] == ended[i]);
                assert(receipts_of(outcomes[i]).contains(report.receipts[v]));
            } else {
                assert(receipts_of(outcomes[n])[v - before.receipts.len()] == report.receipts[v]);
                assert(receipts_of(outcomes[n]).contains(report.receipts[v]));
            }
        }
        assert forall|f: int| 0 <= f < report.failed.len() implies is_failed_user(
            users,
            outcomes,
            #[trigger] report.failed[f],
        ) by {
            if f < before.failed.len() {
                assert(report.failed[f] == before.failed[f]);
                assert(is_failed_user(front, ended, before.failed[f]));
                let i = choose|i: int|
                    0 <= i < front.len() && !is_synced(ended[i]) && before.failed[f] == (
                    #[trigger] front[i]).email;
                assert(users[i] == front[i]);
                assert(outcomes[i] == ended[i]);
            } else {
                assert(!is_synced(outcomes[n]));
                assert(report.failed[f] == users[n].email);
            }
        }
    }
}

/// Where every receipt of every task that completed says where it comes
/// from, so does every receipt of the batch.
pub proof fn lemma_batch_is_stamped(now: i64, users: Seq<Account>, outcomes: Seq<Outcome>)
    requires
        users.len() == outcomes.len(),
        forall|i: int, k: int|
            0 <= i < outcomes.len() && 0 <= k < receipts_of(outcomes[i]).len() ==> is_stamped(
                #[trigger] receipts_of(outcomes[i])[k],
            ),
    ensures
        forall|v: int|
            0 <= v < report_of(now, users, outcomes).receipts.len() ==> is_stamped(
                #[trigger] report_of(now, users, outcomes).receipts[v],
            ),
{
    lemma_report_holds_only_completed_work(now, users, outcomes);
    assert forall|v: int| 0 <= v < report_of(now, users, outcomes).receipts.len() implies is_stamped(
        #[trigger] report_of(now, users, outcomes).receipts[v],
    ) by {
        let r = report_of(now, users, outcomes).receipts[v];
        assert(is_completed_work(outcomes, r));
        let i = choose|i: int|
            0 <= i < outcomes.len() && (#[trigger] receipts_of(outcomes[i])).contains(r);
        let k = choose|k: int|
            0 <= k < receipts_of(outcomes[i]).len() && receipts_of(outcomes[i])[k] == r;
        assert(is_stamped(receipts_of(outcomes[i])[k]));
    }
}

/// No outcome of a task makes a run fail: once every task has ended, the run
/// goes on to its writes, first the receipts where there are any, then the
/// watermarks.
pub proof fn lemma_tasks_cannot_fail_the_run(
    issuers: Seq<Seq<char>>,
    now: i64,
    users: Seq<Account>,
    outcomes: Seq<Outcome>,
)
    requires
        users.len() == outcomes.len(),
    ensures
        ({
            let report = report_of(now, users, outcomes);
            let next = run_step(
                issuers,
                RunState::AwaitingTasks { now, users },
                RunInput::Joined(outcomes),
            );
            if report.receipts.len() > 0 {
                &&& next == (RunState::Inserting { report }, RunOutput::InsertReceipts(report.receipts))
                &&& run_step(issuers, next.0, RunInput::Written) == (
                    RunState::UpdatingWatermarks { report },
                    RunOutput::UpdateWatermarks(report.updated_users),
                )
            } else {
                next == (
                    RunState::UpdatingWatermarks { report },
                    RunOutput::UpdateWatermarks(report.updated_users),
                )
            }
        }),
{
}

/// Copies of the receipts of `more`, added to `all`.
pub fn collect_receipts(all: &mut Vec<Receipt>, more: &Vec<Receipt>)
    ensures
        views(final(all)@) == views(old(all)@) + views(more@),
{
    let mut i: usize = 0;
    proof {
        assert(views(more@).take(0) == Seq::<ReceiptRecord>::empty());
        assert(views(all@) == views(old(all)@) + views(more@).take(0));
    }
    while i < more.len()
        invariant
            i <= more.len(),
            views(all@) == views(old(all)@) + views(more@).take(i as int),
        decreases more.len() - i,
    {
        let copy: Receipt = more[i].clone();
        proof {
            assert(views(all@.push(copy)) == views(all@).push(copy@));
            assert(views(more@).take(i + 1) == views(more@).take(i as int).push(more@[i as int]@));
            assert(views(old(all)@) + views(more@).take(i as int).push(more@[i as int]@) == (views(
                old(all)@,
            ) + views(more@).take(i as int)).push(more@[i as int]@));
        }
        all.push(copy);
        i += 1;
    }
    proof {
        assert(views(more@).take(more.len() as int) == views(more@));
    }
}

/// Copies of `users`.
pub fn copy_users(users: &Vec<User>) -> (copy: Vec<User>)
    ensures
        views(copy@) == views(users@),
{
    let mut copy: Vec<User> = Vec::new();
    let mut i: usize = 0;
    while i < users.len()
        invariant
            i <= users.len(),
            views(copy@) == views(users@).take(i as int),
        decreases users.len() - i,
    {
        let user: User = users[i].clone();
        proof {
            assert(views(copy@.push(user)) == views(copy@).push(user@));
            assert(views(users@).take(i + 1) == views(users@).take(i as int).push(users@[i as int]@));
        }
        copy.push(user);
        i += 1;
    }
    proof {
        assert(views(users@).take(users.len() as int) == views(users@));
    }
    copy
}

impl IngestorService {
    /// An ingestor that searches for messages of `issuers_email`.
    pub fn new(issuers_email: Vec<String>) -> (service: IngestorService)
        ensures
            service.issuers_email@ == issuers_email@,
    {
        IngestorService { issuers_email }
    }

    /// The window between `last_synced` and `current_time`, both in
    /// milliseconds, as a number of days in decimal: rounded up, and one at
    /// least.
    pub fn get_time_query(current_time: i64, last_synced: i64) -> (days: String)
        ensures
            days@ == decimal(window_days(current_time as int, last_synced as int) as nat),
    {
        decimal_string(window_day_count(current_time, last_synced))
    }

    /// The clauses of the search for `user` in a run at `current_time`.
    pub fn build_query(&self, current_time: i64, user: &User) -> (clauses: Vec<String>)
        ensures
            views(clauses@) == task_of(views(self.issuers_email@), current_time, user@).queries,
    {
        self.query_for(current_time, user.last_synced)
    }

    /// The clauses of the search for a user whose watermark is
    /// `last_synced`, as `current_time` stands.
    pub fn query_for(&self, current_time: i64, last_synced: Option<i64>) -> (clauses: Vec<String>)
        ensures
            views(clauses@) == query_clauses(
                views(self.issuers_email@),
                window_of(current_time as int, last_synced),
            ),
    {
        clauses_for(&self.issuers_email, window_for(current_time, last_synced))
    }

    /// The tasks of a run at `now` over `users`: one for each user, in order.
    pub fn plan(&self, now: i64, users: &Vec<User>) -> (tasks: Vec<UserTask>)
        ensures
            views(tasks@) == tasks_of(views(self.issuers_email@), now, views(users@)),
    {
        let ghost issuers = views(self.issuers_email@);
        let mut tasks: Vec<UserTask> = Vec::new();
        let mut i: usize = 0;
        while i < users.len()
            invariant
                i <= users.len(),
                issuers == views(self.issuers_email@),
                views(tasks@) == tasks_of(issuers, now, views(users@).take(i as int)),
            decreases users.len() - i,
        {
            let task = UserTask {
                email: users[i].email.clone(),
                queries: self.build_query(now, &users[i]),
            };
            proof {
                let done = views(users@).take(i as int);
                assert(views(users@).take(i + 1) == done.push(users@[i as int]@));
                assert(views(tasks@.push(task)) == views(tasks@).push(task@));
                assert(tasks_of(issuers, now, done.push(users@[i as int]@)) == tasks_of(
                    issuers,
                    now,
                    done,
                ).push(task_of(issuers, now, users@[i as int]@)));
            }
            tasks.push(task);
            i += 1;
        }
        proof {
            assert(views(users@).take(users.len() as int) == views(users@));
        }
        tasks
    }

    /// Joins the outcomes of the tasks of a run at `now` over `users`.
    pub fn aggregate(now: i64, users: &Vec<User>, outcomes: &Vec<UserOutcome>) -> (report:
        SyncReport)
        requires
            users.len() == outcomes.len(),
        ensures
            report@ == report_of(now, views(users@), views(outcomes@)),
    {
        let mut receipts: Vec<Receipt> = Vec::new();
        let mut updated_users: Vec<User> = Vec::new();
        let mut failed: Vec<String> = Vec::new();
        let mut i: usize = 0;
        proof {
            assert(views(receipts@) == Seq::<ReceiptRecord>::empty());
            assert(views(updated_users@) == Seq::<Account>::empty());
            assert(views(failed@) == Seq::<Seq<char>>::empty());
        }
        while i < users.len()
            invariant
                i <= users.len() == outcomes.len(),
                (Report {
                    receipts: views(receipts@),
                    updated_users: views(updated_users@),
                    failed: views(failed@),
                }) == report_of(
                    now,
                    views(users@).take(i as int),
                    views(outcomes@).take(i as int),
                ),
            decreases users.len() - i,
        {
            proof {
                let us = views(users@).take(i + 1);
                let os = views(outcomes@).take(i + 1);
                assert(us.drop_last() == views(users@).take(i as int));
                assert(os.drop_last() == views(outcomes@).take(i as int));
                assert(us.last() == users@[i as int]@);
                assert(os.last() == outcomes@[i as int]@);
            }
            match &outcomes[i] {
                UserOutcome::Synced(batch) => {
                    collect_receipts(&mut receipts, batch);
                    let mut user: User = users[i].clone();
                    user.last_synced = Some(now);
                    proof {
                        assert(views(updated_users@.push(user)) == views(updated_users@).push(
                            user@,
                        ));
                    }
                    updated_users.push(user);
                },
                _ => {
                    let email: String = users[i].email.clone();
                    proof {
                        assert(views(failed@.push(email)) == views(failed@).push(email@));
                    }
                    failed.push(email);
                },
            }
            i += 1;
        }
        proof {
            assert(views(users@).take(users.len() as int) == views(users@));
            assert(views(outcomes@).take(outcomes.len() as int) == views(outcomes@));
        }
        SyncReport { receipts, updated_users, failed }
    }

    /// One step of a run over all active users: takes what came of the last
    /// action and says what is to be done next.
    pub fn sync_receipts(&self, state: SyncRun, event: RunEvent) -> (next: (SyncRun, RunAction))
        ensures
            (next.0@, next.1@) == run_step(views(self.issuers_email@), state@, event@),
    {
        match (state, event) {
            (SyncRun::Idle, RunEvent::Tick { now }) => (
                SyncRun::AwaitingUsers { now },
                RunAction::ListActiveUsers,
            ),
            (SyncRun::AwaitingUsers { now }, RunEvent::Users(users)) => {
                let tasks: Vec<UserTask> = self.plan(now, &users);
                (SyncRun::AwaitingTasks { now, users }, RunAction::Spawn(tasks))
            },
            (SyncRun::AwaitingUsers { now }, RunEvent::UsersUnavailable) => (
                SyncRun::Failed { reason: RunFailure::UsersUnavailable },
                RunAction::Abort,
            ),
            (SyncRun::AwaitingTasks { now, users }, RunEvent::Joined(outcomes)) => {
                if outcomes.len() != users.len() {
                    (SyncRun::AwaitingTasks { now, users }, RunAction::Ignore)
                } else {
                    let report: SyncReport = IngestorService::aggregate(now, &users, &outcomes);
                    if report.receipts.len() > 0 {
                        let mut batch: Vec<Receipt> = Vec::new();
                        proof {
                            assert(views(batch@) == Seq::<ReceiptRecord>::empty());
                        }
                        collect_receipts(&mut batch, &report.receipts);
                        proof {
                            assert(Seq::<ReceiptRecord>::empty() + views(report.receipts@)
                                == views(report.receipts@));
                        }
                        (SyncRun::Inserting { report }, RunAction::InsertReceipts(batch))
                    } else {
                        let updated: Vec<User> = copy_users(&report.updated_users);
                        (
                            SyncRun::UpdatingWatermarks { report },
                            RunAction::UpdateWatermarks(updated),
                        )
                    }
                }
            },
            (SyncRun::Inserting { report }, RunEvent::Written) => {
                let updated: Vec<User> = copy_users(&report.updated_users);
                (SyncRun::UpdatingWatermarks { report }, RunAction::UpdateWatermarks(updated))
            },
            (SyncRun::Inserting { report }, RunEvent::WriteFailed) => (
                SyncRun::Failed { reason: RunFailure::ReceiptStore },
                RunAction::Abort,
            ),
            (SyncRun::UpdatingWatermarks { report }, RunEvent::Written) => (
                SyncRun::Done { report },
                RunAction::Finish,
            ),
            (SyncRun::UpdatingWatermarks { report }, RunEvent::WriteFailed) => (
                SyncRun::Failed { reason: RunFailure::Watermarks },
                RunAction::Abort,
            ),
            (state, _) => (state, RunAction::Ignore),
        }
    }
}

} // verus!
