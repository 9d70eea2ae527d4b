//! The scanning engine's verified core: a FIFO task queue with the two
//! counters that define idleness, the transitions a driver and its
//! workers take, and the per-task action pipeline that produces exactly
//! one log record per task.
//!
//! The engine state lives in a [`Scanner`], which a program wraps in its
//! own synchronisation to run workers concurrently:
//! - the driver pops work with [`Scanner::try_begin_task`], which also
//!   enforces the concurrency bound;
//! - a worker's exit calls [`Scanner::finish_task`] on every path — the
//!   RAII decrement that keeps the counters honest — and the call says
//!   whether an idle record is due;
//! - consumers poll [`Scanner::await_idle_poll`] and shut the engine
//!   down with [`Scanner::shutdown_graceful`] once it has drained.
//!
//! Connecting, reading and broadcasting are performed by the program
//! around the library; every decision, and the exact content of every
//! record, is computed and specified here.

pub mod actions;
pub mod buffer_pool;
pub mod formatter;
pub mod results;

use crate::scanner::actions::{Action, CtxView, ScanContext};
use crate::scanner::formatter::LogFormatter;
use crate::scanner::results::{assoc_contains, ResultMap, ResultPairs};
use crate::utils::text::{dec_str_of, push_char, u64_to_dec_string};
use crate::utils::url::{UrlParser, UrlView};
use vstd::prelude::*;
use vstd::string::StrSliceExecFns;
use vstd::utf8::encode_utf8;

verus! {

/// Runtime configuration: how many workers may run at once, and the
/// connect timeout in milliseconds.
#[derive(Debug, Clone, Copy)]
pub struct ScannerOptions {
    /// Maximum number of tasks processed in a single batch.
    pub batch_size: usize,
    /// Timeout for network operations, in milliseconds.
    pub timeout_ms: u64,
}

impl Default for ScannerOptions {
    /// The defaults: one hundred concurrent workers, half a second to
    /// connect.
    fn default() -> (r: Self)
        ensures
            r.batch_size == 100,
            r.timeout_ms == 500,
    {
        ScannerOptions { batch_size: 100, timeout_ms: 500 }
    }
}

/// The output families a logger can be chosen from.
#[derive(Debug, Clone, Copy)]
pub enum LoggerType {
    Raw,
    Structured,
    Json,
}

/// Scanning operations a target can be probed with.
#[derive(PartialEq, Eq, PartialOrd, Hash)]
pub enum Actions {
    /// Check if a single port is open.
    PortIsOpen,
    /// Check if all ports are open.
    CheckAllPortsAreOpen,
    /// Identify the service running on a specific port.
    ServiceOnPort,
    /// Determine the version of a service running on a port.
    ServicePortVersion,
    /// Fallback strategy for failed scans or unknown states.
    FallBack,
}

/// The abstract value of a task: its actions and its target.
pub struct TaskView<A> {
    pub todo: Seq<A>,
    pub target: UrlView,
}

/// A unit of work: an ordered list of actions and the target they run
/// against. A task is consumed exactly once by one worker.
pub struct Task<A> {
    todo: Vec<A>,
    target: UrlParser,
}

impl<A> View for Task<A> {
    type V = TaskView<A>;

    closed spec fn view(&self) -> TaskView<A> {
        TaskView { todo: self.todo@, target: self.target@ }
    }
}

impl<A> Task<A> {
    /// Creates a new task for the given `target` with the specified
    /// actions.
    pub fn new(todo: Vec<A>, target: UrlParser) -> (t: Task<A>)
        ensures
            t@.todo == todo@,
            t@.target == target@,
    {
        Task { todo, target }
    }

    /// The task's actions, in execution order.
    pub fn actions_list(&self) -> (r: &Vec<A>)
        ensures
            r@ == self@.todo,
    {
        &self.todo
    }

    /// The task's target.
    pub fn target(&self) -> (r: &UrlParser)
        ensures
            r@ == self@.target,
    {
        &self.target
    }
}

/// The abstract state of the engine.
pub struct ScannerView<A> {
    pub batch_size: int,
    pub timeout_ms: int,
    pub queue: Seq<TaskView<A>>,
    pub pending: int,
    pub active: int,
    pub cancelled: bool,
    pub channel_open: bool,
}

impl<A> ScannerView<A> {
    /// The engine's invariant: the pending counter counts exactly the
    /// queued tasks, and the in-flight workers never exceed the batch
    /// size.
    pub open spec fn wf(self) -> bool {
        &&& self.pending == self.queue.len()
        &&& self.active <= self.batch_size
    }

    /// The engine is idle exactly when nothing is queued and nothing is
    /// running.
    pub open spec fn is_idle(self) -> bool {
        self.pending == 0 && self.active == 0
    }
}

/// Whether a poll for idleness publishes the idle sentinel: only an idle
/// engine whose log channel is still open does.
pub open spec fn emits_idle_record<A>(v: ScannerView<A>) -> bool {
    v.is_idle() && v.channel_open
}

/// The engine state: the queue, the two counters whose joint zero means
/// idle, the cancellation flag, and whether the log channel is still
/// open.
pub struct Scanner<A> {
    /// Configuration options controlling runtime behavior.
    pub options: ScannerOptions,
    task_pool: Vec<Task<A>>,
    pending_tasks: usize,
    active_tasks: usize,
    cancelled: bool,
    channel_open: bool,
}

impl<A> View for Scanner<A> {
    type V = ScannerView<A>;

    closed spec fn view(&self) -> ScannerView<A> {
        ScannerView {
            batch_size: self.options.batch_size as int,
            timeout_ms: self.options.timeout_ms as int,
            queue: self.task_pool@.map_values(|t: Task<A>| t@),
            pending: self.pending_tasks as int,
            active: self.active_tasks as int,
            cancelled: self.cancelled,
            channel_open: self.channel_open,
        }
    }
}

impl<A> Scanner<A> {
    /// A fresh engine with the default options: empty, idle, not
    /// cancelled, channel open.
    pub fn new() -> (s: Scanner<A>)
        ensures
            s@.wf(),
            s@.batch_size == 100,
            s@.timeout_ms == 500,
            s@.queue.len() == 0,
            s@.pending == 0,
            s@.active == 0,
            !s@.cancelled,
            s@.channel_open,
    {
        let s = Scanner {
            options: ScannerOptions::default(),
            task_pool: Vec::new(),
            pending_tasks: 0,
            active_tasks: 0,
            cancelled: false,
            channel_open: true,
        };
        proof {
            assert(s@.queue =~= Seq::<TaskView<A>>::empty());
        }
        s
    }

    /// Replaces the configuration before any worker has started.
    pub fn with_options(self, options: ScannerOptions) -> (s: Scanner<A>)
        requires
            self@.wf(),
            self@.active == 0,
        ensures
            s@.wf(),
            s@.batch_size == options.batch_size,
            s@.timeout_ms == options.timeout_ms,
            s@.queue == self@.queue,
            s@.pending == self@.pending,
            s@.active == 0,
            s@.cancelled == self@.cancelled,
            s@.channel_open == self@.channel_open,
    {
        let Scanner { options: _, task_pool, pending_tasks, active_tasks, cancelled, channel_open } =
            self;
        Scanner { options, task_pool, pending_tasks, active_tasks, cancelled, channel_open }
    }

    /// Adds one task at the tail of the queue; the pending count rises
    /// by exactly one, and the sum of pending and active work strictly
    /// increases.
    pub fn add_task(&mut self, task: Vec<A>, target: UrlParser)
        requires
            old(self)@.wf(),
            old(self)@.pending < usize::MAX,
        ensures
            final(self)@.wf(),
            final(self)@.queue == old(self)@.queue.push(
                TaskView { todo: task@, target: target@ },
            ),
            final(self)@.pending == old(self)@.pending + 1,
            final(self)@.active == old(self)@.active,
            final(self)@.pending + final(self)@.active == old(self)@.pending + old(self)@.active
                + 1,
            final(self)@.batch_size == old(self)@.batch_size,
            final(self)@.timeout_ms == old(self)@.timeout_ms,
            final(self)@.cancelled == old(self)@.cancelled,
            final(self)@.channel_open == old(self)@.channel_open,
    {
        self.pending_tasks = self.pending_tasks + 1;
        let ghost tv = TaskView { todo: task@, target: target@ };
        let t = Task { todo: task, target };
        self.task_pool.push(t);
        proof {
            assert(final(self)@.queue =~= old(self)@.queue.push(tv));
        }
    }

    /// Adds several pre-built tasks at the tail of the queue; the
    /// pending count rises by their number.
    pub fn add_multiple_tasks(&mut self, tasks: Vec<Task<A>>)
        requires
            old(self)@.wf(),
            old(self)@.pending + tasks@.len() <= usize::MAX,
        ensures
            final(self)@.wf(),
            final(self)@.queue == old(self)@.queue + tasks@.map_values(|t: Task<A>| t@),
            final(self)@.pending == old(self)@.pending + tasks@.len(),
            final(self)@.active == old(self)@.active,
            final(self)@.batch_size == old(self)@.batch_size,
            final(self)@.timeout_ms == old(self)@.timeout_ms,
            final(self)@.cancelled == old(self)@.cancelled,
            final(self)@.channel_open == old(self)@.channel_open,
    {
        let ghost incoming = tasks@;
        let mut rest = tasks;
        let mut moved: usize = 0;
        while rest.len() > 0
            invariant
                moved + rest@.len() == incoming.len(),
                rest@ =~= incoming.skip(moved as int),
                self.task_pool@ =~= old(self).task_pool@ + incoming.take(moved as int),
                self.pending_tasks == old(self).pending_tasks + moved,
                old(self)@.wf(),
                old(self)@.pending + incoming.len() <= usize::MAX,
                self.active_tasks == old(self).active_tasks,
                self.cancelled == old(self).cancelled,
                self.channel_open == old(self).channel_open,
                self.options == old(self).options,
            decreases rest@.len(),
        {
            let t = rest.remove(0);
            proof {
                assert(incoming.skip(moved as int)[0] == incoming[moved as int]);
                assert(rest@ =~= incoming.skip(moved + 1));
            }
            self.pending_tasks = self.pending_tasks + 1;
            self.task_pool.push(t);
            proof {
                assert(self.task_pool@ =~= old(self).task_pool@ + incoming.take(moved + 1));
            }
            moved = moved + 1;
        }
        proof {
            assert(incoming.take(moved as int) =~= incoming);
            assert(self.task_pool@ =~= old(self).task_pool@ + incoming);
            assert(final(self)@.queue =~= old(self)@.queue + incoming.map_values(
                |t: Task<A>| t@,
            ));
        }
    }

    /// The number of tasks still queued.
    pub fn total_tasks(&self) -> (r: usize)
        ensures
            r == self@.queue.len(),
    {
        self.task_pool.len()
    }

    /// The pending and active work together.
    pub fn total_tasks_on_queue(&self) -> (r: usize)
        requires
            self@.pending + self@.active <= usize::MAX,
        ensures
            r == self@.pending + self@.active,
    {
        self.pending_tasks + self.active_tasks
    }

    /// Whether the engine is idle: nothing queued and nothing running.
    pub fn is_idle(&self) -> (r: bool)
        ensures
            r == self@.is_idle(),
    {
        self.pending_tasks == 0 && self.active_tasks == 0
    }

    /// Pops the task at the head of the queue and accounts a worker for
    /// it, when there is a task and a worker may still start: the active
    /// count rises and the pending count falls in the same step, and the
    /// concurrency bound is never crossed. Returns nothing — changing no
    /// state — when the queue is empty or the batch is full.
    pub fn try_begin_task(&mut self) -> (r: Option<Task<A>>)
        requires
            old(self)@.wf(),
        ensures
            final(self)@.wf(),
            final(self)@.batch_size == old(self)@.batch_size,
            final(self)@.timeout_ms == old(self)@.timeout_ms,
            final(self)@.cancelled == old(self)@.cancelled,
            final(self)@.channel_open == old(self)@.channel_open,
            r is Some <==> old(self)@.queue.len() > 0 && old(self)@.active < old(
                self,
            )@.batch_size,
            r matches Some(t) ==> {
                &&& t@ == old(self)@.queue[0]
                &&& final(self)@.queue == old(self)@.queue.drop_first()
                &&& final(self)@.pending == old(self)@.pending - 1
                &&& final(self)@.active == old(self)@.active + 1
                &&& final(self)@.pending + final(self)@.active == old(self)@.pending + old(
                    self,
                )@.active
            },
            r is None ==> final(self)@ == old(self)@,
    {
        if self.task_pool.len() == 0 {
            return None;
        }
        if self.active_tasks >= self.options.batch_size {
            return None;
        }
        let t = self.task_pool.remove(0);
        self.active_tasks = self.active_tasks + 1;
        self.pending_tasks = self.pending_tasks - 1;
        proof {
            assert(final(self)@.queue =~= old(self)@.queue.drop_first());
            assert(t@ == old(self)@.queue[0]);
        }
        Some(t)
    }

    /// Accounts a worker's exit, on every path it can take: the active
    /// count falls by exactly one, and the call reports whether this
    /// exit made the engine idle, so that the caller publishes the idle
    /// sentinel and wakes the idle waiters.
    pub fn finish_task(&mut self) -> (emit_idle: bool)
        requires
            old(self)@.wf(),
            old(self)@.active > 0,
        ensures
            final(self)@.wf(),
            final(self)@.active == old(self)@.active - 1,
            final(self)@.pending == old(self)@.pending,
            final(self)@.pending + final(self)@.active == old(self)@.pending + old(self)@.active
                - 1,
            final(self)@.queue == old(self)@.queue,
            final(self)@.batch_size == old(self)@.batch_size,
            final(self)@.timeout_ms == old(self)@.timeout_ms,
            final(self)@.cancelled == old(self)@.cancelled,
            final(self)@.channel_open == old(self)@.channel_open,
            emit_idle == final(self)@.is_idle(),
    {
        self.active_tasks = self.active_tasks - 1;
        self.active_tasks == 0 && self.pending_tasks == 0
    }

    /// One poll of `await_idle`: whether the wait completes now, and
    /// whether the idle sentinel is published on this poll.
    pub fn await_idle_poll(&self) -> (r: (bool, bool))
        ensures
            r.0 == self@.is_idle(),
            r.1 == emits_idle_record(self@),
    {
        let idle = self.pending_tasks == 0 && self.active_tasks == 0;
        (idle, idle && self.channel_open)
    }

    /// Shuts a drained engine down: no new worker will start its probe,
    /// and the log channel closes so subscribers observe end-of-stream.
    /// After the call both counters are zero and the channel is closed.
    pub fn shutdown_graceful(&mut self)
        requires
            old(self)@.wf(),
            old(self)@.is_idle(),
        ensures
            final(self)@.wf(),
            final(self)@.pending == 0,
            final(self)@.active == 0,
            final(self)@.cancelled,
            !final(self)@.channel_open,
            final(self)@.queue == old(self)@.queue,
            final(self)@.batch_size == old(self)@.batch_size,
            final(self)@.timeout_ms == old(self)@.timeout_ms,
    {
        self.cancelled = true;
        self.channel_open = false;
    }

    /// Whether cancellation has been requested.
    pub fn is_cancelled(&self) -> (r: bool)
        ensures
            r == self@.cancelled,
    {
        self.cancelled
    }

    /// Whether the log channel is still open for new subscribers.
    pub fn can_subscribe(&self) -> (r: bool)
        ensures
            r == self@.channel_open,
    {
        self.channel_open
    }
}

/// In every well-formed engine state the count of in-flight workers is
/// at most the batch size; with `try_begin_task` starting a worker only
/// below the bound and `finish_task` retiring one, no instant exceeds
/// it.
pub proof fn lemma_bounded_concurrency<A>(v: ScannerView<A>)
    requires
        v.wf(),
    ensures
        v.active <= v.batch_size,
{
}

/// Waiting for idleness is idempotent: polling does not change the
/// engine, so when no tasks are added between two polls of an idle
/// engine, both complete; and once the log channel has closed, a poll
/// publishes no further idle record.
pub proof fn lemma_await_idle_idempotent<A>(v: ScannerView<A>)
    requires
        v.is_idle(),
    ensures
        v.is_idle(),
        !v.channel_open ==> !emits_idle_record(v),
{
}

// ---------------------------------------------------------------------------
// The worker's computation
// ---------------------------------------------------------------------------

/// How a connection attempt ended, as the program reports it: connected,
/// refused or otherwise failed with an error text, or timed out.
pub enum ConnectOutcome {
    Connected,
    Failed(String),
    TimedOut(String),
}

/// The result map reported for a failed connect.
pub open spec fn failure_pairs(timed_out: bool) -> ResultPairs {
    seq![
        (
            "IsPortOpen"@,
            if timed_out {
                "timeout"@
            } else {
                "closed"@
            },
        ),
    ]
}

/// The record body reported for a failed connect.
pub open spec fn failure_body_bytes(timed_out: bool, detail: Seq<char>) -> Seq<u8> {
    encode_utf8(
        (if timed_out {
            "connection timed out: "@
        } else {
            "connection error: "@
        }) + detail,
    )
}

/// Builds the result map of a failed connect.
pub fn connect_failure_results(timed_out: bool) -> (m: ResultMap)
    ensures
        m@ == failure_pairs(timed_out),
{
    let mut m = ResultMap::new();
    let verdict = if timed_out {
        String::from_str("timeout")
    } else {
        String::from_str("closed")
    };
    m.insert(String::from_str("IsPortOpen"), verdict);
    proof {
        assert(m@ =~= failure_pairs(timed_out));
    }
    m
}

/// Builds the record body of a failed connect.
pub fn failure_body(timed_out: bool, detail: &str) -> (r: Vec<u8>)
    ensures
        r@ == failure_body_bytes(timed_out, detail@),
{
    let mut s = if timed_out {
        String::from_str("connection timed out: ")
    } else {
        String::from_str("connection error: ")
    };
    s.append(detail);
    s.as_str().as_bytes_vec()
}

/// The address a worker connects to: the host, a colon, and the port,
/// with a port of zero standing for the default eighty.
pub open spec fn addr_of(v: UrlView) -> Seq<char> {
    v.target + seq![':'] + dec_str_of(
        if v.port == 0 {
            80int
        } else {
            v.port
        },
    )
}

/// Composes the address text a worker connects to.
pub fn compose_addr(target: &UrlParser) -> (r: String)
    ensures
        r@ == addr_of(target@),
{
    let mut s = String::new();
    s.append(target.target.as_str());
    push_char(&mut s, ':');
    let port: u16 = if target.port == 0 {
        80
    } else {
        target.port
    };
    let p = u64_to_dec_string(port as u64);
    s.append(p.as_str());
    proof {
        assert(s@ =~= addr_of(target@));
    }
    s
}

/// Whether any action of the task asks for the single socket read.
pub fn task_wants_read<A: Action>(todo: &Vec<A>) -> (r: bool)
    ensures
        r == exists|i: int| 0 <= i < todo@.len() && (#[trigger] todo@[i]).wants_read_spec(),
{
    let n = todo.len();
    let mut i: usize = 0;
    while i < n
        invariant
            i <= n,
            n == todo@.len(),
            forall|j: int| 0 <= j < i ==> !(#[trigger] todo@[j]).wants_read_spec(),
        decreases n - i,
    {
        if todo[i].set_read_from_successfull_connection() {
            return true;
        }
        i = i + 1;
    }
    false
}

/// The result map after the actions have run in order: each action that
/// asked for the read sees the same bytes, each other action runs on
/// connect alone, and every action reads the map its predecessors left.
pub open spec fn pipeline_effect<A: Action>(
    todo: Seq<A>,
    ctx: CtxView,
    raw: Seq<u8>,
    m: ResultPairs,
) -> ResultPairs
    decreases todo.len(),
{
    if todo.len() == 0 {
        m
    } else {
        let m2 = if todo[0].wants_read_spec() {
            todo[0].read_effect(ctx, raw, m)
        } else {
            todo[0].connect_effect(ctx, m)
        };
        pipeline_effect(todo.drop_first(), ctx, raw, m2)
    }
}

/// Runs the actions of one task in submitted order over the shared
/// result map.
pub fn run_actions<A: Action>(
    todo: &Vec<A>,
    ctx: &ScanContext,
    raw_data: &[u8],
    actions_results: &mut ResultMap,
)
    ensures
        final(actions_results)@ == pipeline_effect(todo@, ctx@, raw_data@, old(actions_results)@),
{
    let n = todo.len();
    proof {
        assert(todo@.skip(0) =~= todo@);
    }
    let mut i: usize = 0;
    while i < n
        invariant
            i <= n,
            n == todo@.len(),
            pipeline_effect(todo@.skip(i as int), ctx@, raw_data@, actions_results@)
                == pipeline_effect(todo@, ctx@, raw_data@, old(actions_results)@),
        decreases n - i,
    {
        proof {
            assert(todo@.skip(i as int)[0] == todo@[i as int]);
            assert(todo@.skip(i as int).drop_first() =~= todo@.skip(i + 1));
        }
        if todo[i].set_read_from_successfull_connection() {
            todo[i].execute_after_successfull_connection_and_read(ctx, raw_data, actions_results);
        } else {
            todo[i].execute_after_successfull_connection(ctx, actions_results);
        }
        i = i + 1;
    }
    proof {
        assert(todo@.skip(n as int) =~= Seq::<A>::empty());
    }
}

/// The context a worker hands its actions.
pub open spec fn worker_ctx<A>(task: TaskView<A>, worker_id: u64) -> CtxView {
    CtxView { target_addr: task.target.target, port: task.target.port as u16, task_id: worker_id }
}

/// The one record a worker produces for its task: a failure verdict with
/// the error text as body when the connect failed or timed out, and the
/// pipeline's result map with the raw bytes when it succeeded.
pub open spec fn worker_record_view<A: Action, F: LogFormatter>(
    fmt: F,
    task: TaskView<A>,
    outcome: ConnectOutcome,
    raw: Seq<u8>,
    worker_id: u64,
) -> <F::Output as View>::V {
    match outcome {
        ConnectOutcome::Failed(msg) => fmt.format_view(
            failure_pairs(false),
            failure_body_bytes(false, msg@),
        ),
        ConnectOutcome::TimedOut(msg) => fmt.format_view(
            failure_pairs(true),
            failure_body_bytes(true, msg@),
        ),
        ConnectOutcome::Connected => fmt.format_view(
            pipeline_effect(task.todo, worker_ctx(task, worker_id), raw, Seq::empty()),
            raw,
        ),
    }
}

/// Runs one task to its record, the connection already attempted and the
/// single read (if any action asked for one) already performed by the
/// caller. Exactly one record comes back for the task.
pub fn run_worker<A: Action, F: LogFormatter>(
    task: &Task<A>,
    outcome: ConnectOutcome,
    raw_data: &[u8],
    worker_id: u64,
    formatter: &F,
) -> (r: F::Output)
    ensures
        r@ == worker_record_view(*formatter, task@, outcome, raw_data@, worker_id),
{
    match outcome {
        ConnectOutcome::Failed(msg) => {
            let results = connect_failure_results(false);
            let body = failure_body(false, msg.as_str());
            formatter.format(results, body.as_slice())
        },
        ConnectOutcome::TimedOut(msg) => {
            let results = connect_failure_results(true);
            let body = failure_body(true, msg.as_str());
            formatter.format(results, body.as_slice())
        },
        ConnectOutcome::Connected => {
            let ctx = ScanContext {
                target_addr: task.target.target.clone(),
                port: task.target.port,
                task_id: worker_id,
            };
            let mut results = ResultMap::new();
            run_actions(&task.todo, &ctx, raw_data, &mut results);
            formatter.format(results, raw_data)
        },
    }
}

/// Whatever keys stand in the map survive the whole pipeline: actions
/// add and overwrite entries, never remove them.
pub proof fn lemma_pipeline_preserves_keys<A: Action>(
    todo: Seq<A>,
    ctx: CtxView,
    raw: Seq<u8>,
    m: ResultPairs,
    key: Seq<char>,
)
    requires
        assoc_contains(m, key),
    ensures
        assoc_contains(pipeline_effect(todo, ctx, raw, m), key),
    decreases todo.len(),
{
    if todo.len() > 0 {
        let a = todo[0];
        let m2 = if a.wants_read_spec() {
            a.read_effect(ctx, raw, m)
        } else {
            a.connect_effect(ctx, m)
        };
        if a.wants_read_spec() {
            a.read_effect_properties(ctx, raw, m);
        } else {
            a.connect_effect_properties(ctx, m);
        }
        lemma_pipeline_preserves_keys(todo.drop_first(), ctx, raw, m2, key);
    }
}

/// A task submitted with an action that declares no read yields, on a
/// successful connect, a result map that carries that action's name —
/// and the task yields exactly one record, the value [`run_worker`]
/// returns, which formats this map.
pub proof fn lemma_record_carries_action_name<A: Action>(
    todo: Seq<A>,
    ctx: CtxView,
    raw: Seq<u8>,
    m: ResultPairs,
    k: int,
)
    requires
        0 <= k < todo.len(),
        !todo[k].wants_read_spec(),
    ensures
        assoc_contains(pipeline_effect(todo, ctx, raw, m), todo[k].name_spec()),
    decreases k,
{
    let a = todo[0];
    let m2 = if a.wants_read_spec() {
        a.read_effect(ctx, raw, m)
    } else {
        a.connect_effect(ctx, m)
    };
    if k == 0 {
        a.connect_effect_properties(ctx, m);
        lemma_pipeline_preserves_keys(todo.drop_first(), ctx, raw, m2, a.name_spec());
    } else {
        assert(todo.drop_first()[k - 1] == todo[k]);
        lemma_record_carries_action_name(todo.drop_first(), ctx, raw, m2, k - 1);
    }
}

// ---------------------------------------------------------------------------
// The task-aware log stream's decision
// ---------------------------------------------------------------------------

/// What one receive on the broadcast channel delivered.
pub enum RecvEvent<T> {
    Item(T),
    Lagged,
    Closed,
}

/// One step of the task-aware log stream: deliver an item, skip over a
/// lag silently and receive again, and report end-of-stream when the
/// channel has closed.
pub fn stream_step<T>(event: RecvEvent<T>) -> (r: Option<Option<T>>)
    ensures
        event matches RecvEvent::Item(v) ==> r == Some(Some(v)),
        event is Lagged ==> r is None,
        event is Closed ==> r == Some(None::<T>),
{
    match event {
        RecvEvent::Item(v) => Some(Some(v)),
        RecvEvent::Lagged => None,
        RecvEvent::Closed => Some(None),
    }
}

} // verus!
