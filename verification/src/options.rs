//! Everything that can be tuned when instantiating a pool, and how a list of
//! options folds into one configuration.

use std::sync::Arc;
use vstd::prelude::*;

use crate::deps::golog::{default_logger, SharedLogger};
use crate::deps::gotime::Duration;

verus! {

/// The value a panicking task was carrying, as text: a panic message given
/// as a string shows as that string.
pub struct PanicPayload {
    /// The text of the value the task panicked with.
    pub message: String,
}

/// What a pool calls with the value a panicking worker was carrying.
pub trait PanicHook: Send + Sync {
    /// Handles one recovered panic.
    fn handle(&self, payload: PanicPayload);
}

/// A shared handler invoked with the value a panicking worker was carrying.
pub struct PanicHandler {
    /// The hook.
    pub inner: Arc<dyn PanicHook>,
}

impl PanicHandler {

    /// Hands one recovered panic to the hook.
    pub fn handle(&self, payload: PanicPayload) {
        self.inner.handle(payload);
    }
}

impl Clone for PanicHandler {
    fn clone(&self) -> (r: PanicHandler)
        ensures
            r == *self,
    {
        share_panic_handler(self)
    }
}

/// Contains all options which will be applied when instantiating a pool.
pub struct Options {
    /// A period for the scavenger to clean up expired workers: every
    /// `expiry_duration` it removes the workers that have not been used for
    /// more than `expiry_duration`.
    pub expiry_duration: Duration,
    /// Whether to pre-allocate the worker queue when initializing a pool.
    pub pre_alloc: bool,
    /// Max number of callers blocking on submit; 0 (the default) means no
    /// such limit.
    pub max_blocking_tasks: i32,
    /// When true, submitting never blocks: it fails with
    /// [`crate::Error::PoolOverload`] when it cannot be done at once, and
    /// `max_blocking_tasks` is inoperative.
    pub nonblocking: bool,
    /// Handles panics from each worker; when `None` the worker's panic is
    /// logged instead.
    pub panic_handler: Option<PanicHandler>,
    /// The logger for logging info; when `None` the default logger is used.
    pub logger: Option<SharedLogger>,
    /// When true, workers are not purged and stay resident.
    pub disable_purge: bool,
}

/// The configuration before any option is applied.
pub open spec fn default_options() -> Options {
    Options {
        expiry_duration: Duration::spec_zero(),
        pre_alloc: false,
        max_blocking_tasks: 0,
        nonblocking: false,
        panic_handler: None,
        logger: None,
        disable_purge: false,
    }
}

/// Returns another handle to the same panic hook, through `Arc::clone`.
#[verifier::external_body]
fn share_panic_handler(h: &PanicHandler) -> (r: PanicHandler)
    ensures
        r == *h,
{
    PanicHandler { inner: Arc::clone(&h.inner) }
}

impl Clone for Options {
    fn clone(&self) -> (r: Options)
        ensures
            r == *self,
    {
        Options {
            expiry_duration: self.expiry_duration,
            pre_alloc: self.pre_alloc,
            max_blocking_tasks: self.max_blocking_tasks,
            nonblocking: self.nonblocking,
            panic_handler: match &self.panic_handler {
                Some(h) => Some(h.clone()),
                None => None,
            },
            logger: match &self.logger {
                Some(l) => Some(l.clone()),
                None => None,
            },
            disable_purge: self.disable_purge,
        }
    }
}

impl Default for Options {
    fn default() -> (r: Options)
        ensures
            r == default_options(),
    {
        Options {
            expiry_duration: Duration::zero(),
            pre_alloc: false,
            max_blocking_tasks: 0,
            nonblocking: false,
            panic_handler: None,
            logger: None,
            disable_purge: false,
        }
    }
}

impl Options {
    /// The logger this configuration writes through: the customized one when
    /// there is one, and the default one otherwise.
    pub fn logger(&self) -> (l: SharedLogger)
        ensures
            self.logger matches Some(custom) ==> l == custom,
            self.logger is None ==> call_ensures(default_logger, (), l),
    {
        match &self.logger {
            Some(l) => l.clone(),
            None => {
                let fallback = default_logger;
                fallback()
            },
        }
    }
}

/// A single change to [`Options`]; a pool is built from a list of them,
/// applied in order.
pub enum Opt {
    /// Replaces the whole configuration.
    Options(Options),
    /// Sets [`Options::expiry_duration`].
    ExpiryDuration(Duration),
    /// Sets [`Options::pre_alloc`].
    PreAlloc(bool),
    /// Sets [`Options::max_blocking_tasks`].
    MaxBlockingTasks(i32),
    /// Sets [`Options::nonblocking`].
    Nonblocking(bool),
    /// Sets [`Options::panic_handler`].
    PanicHandler(PanicHandler),
    /// Sets [`Options::logger`].
    Logger(SharedLogger),
    /// Sets [`Options::disable_purge`].
    DisablePurge(bool),
}

/// The configuration after applying `opt` to `o`.
pub open spec fn apply_opt(o: Options, opt: Opt) -> Options {
    match opt {
        Opt::Options(whole) => whole,
        Opt::ExpiryDuration(d) => Options { expiry_duration: d, ..o },
        Opt::PreAlloc(b) => Options { pre_alloc: b, ..o },
        Opt::MaxBlockingTasks(n) => Options { max_blocking_tasks: n, ..o },
        Opt::Nonblocking(b) => Options { nonblocking: b, ..o },
        Opt::PanicHandler(h) => Options { panic_handler: Some(h), ..o },
        Opt::Logger(l) => Options { logger: Some(l), ..o },
        Opt::DisablePurge(b) => Options { disable_purge: b, ..o },
    }
}

/// The configuration the options `opts` produce, applied in order to the
/// default one.
pub open spec fn loaded_options(opts: Seq<Opt>) -> Options
    decreases opts.len(),
{
    if opts.len() == 0 {
        default_options()
    } else {
        apply_opt(loaded_options(opts.drop_last()), opts.last())
    }
}

/// Applies `opt` to `o`.
fn apply(o: &mut Options, opt: &Opt)
    ensures
        *final(o) == apply_opt(*old(o), *opt),
{
    match opt {
        Opt::Options(whole) => {
            *o = whole.clone();
        },
        Opt::ExpiryDuration(d) => {
            o.expiry_duration = *d;
        },
        Opt::PreAlloc(b) => {
            o.pre_alloc = *b;
        },
        Opt::MaxBlockingTasks(n) => {
            o.max_blocking_tasks = *n;
        },
        Opt::Nonblocking(b) => {
            o.nonblocking = *b;
        },
        Opt::PanicHandler(h) => {
            o.panic_handler = Some(h.clone());
        },
        Opt::Logger(l) => {
            o.logger = Some(l.clone());
        },
        Opt::DisablePurge(b) => {
            o.disable_purge = *b;
        },
    }
}

/// Folds `options`, in order, into one configuration.
pub fn load_options(options: &[Opt]) -> (o: Options)
    ensures
        o == loaded_options(options@),
{
    let mut opts = Options::default();
    let mut i: usize = 0;
    while i < options.len()
        invariant
            i <= options@.len(),
            opts == loaded_options(options@.take(i as int)),
        decreases options@.len() - i,
    {
        apply(&mut opts, &options[i]);
        assert(options@.take(i + 1).drop_last() =~= options@.take(i as int));
        i = i + 1;
    }
    assert(options@.take(options@.len() as int) =~= options@);
    opts
}

/// Accepts the whole [`Options`] config.
pub fn with_options(options: Options) -> (o: Opt)
    ensures
        o == Opt::Options(options),
{
    Opt::Options(options)
}

/// Sets up the interval time of cleaning up workers.
pub fn with_expiry_duration(expiry_duration: Duration) -> (o: Opt)
    ensures
        o == Opt::ExpiryDuration(expiry_duration),
{
    Opt::ExpiryDuration(expiry_duration)
}

/// Indicates whether it should allocate for workers up front.
pub fn with_pre_alloc(pre_alloc: bool) -> (o: Opt)
    ensures
        o == Opt::PreAlloc(pre_alloc),
{
    Opt::PreAlloc(pre_alloc)
}

/// Sets up the maximum number of callers that are blocked when the pool
/// reaches its capacity.
pub fn with_max_blocking_tasks(max_blocking_tasks: i32) -> (o: Opt)
    ensures
        o == Opt::MaxBlockingTasks(max_blocking_tasks),
{
    Opt::MaxBlockingTasks(max_blocking_tasks)
}

/// Indicates that the pool fails with [`crate::Error::PoolOverload`] when
/// there are no available workers.
pub fn with_nonblocking(nonblocking: bool) -> (o: Opt)
    ensures
        o == Opt::Nonblocking(nonblocking),
{
    Opt::Nonblocking(nonblocking)
}

/// Sets up the panic handler.
pub fn with_panic_handler(panic_handler: PanicHandler) -> (o: Opt)
    ensures
        o == Opt::PanicHandler(panic_handler),
{
    Opt::PanicHandler(panic_handler)
}

/// Sets up a customized logger.
pub fn with_logger(logger: SharedLogger) -> (o: Opt)
    ensures
        o == Opt::Logger(logger),
{
    Opt::Logger(logger)
}

/// Indicates whether automatic purging is turned off.
pub fn with_disable_purge(disable: bool) -> (o: Opt)
    ensures
        o == Opt::DisablePurge(disable),
{
    Opt::DisablePurge(disable)
}


/// A pool built from no option gets the default configuration.
pub proof fn law_no_options_is_default()
    ensures
        loaded_options(Seq::<Opt>::empty()) == default_options(),
{
}

/// Passing a whole configuration discards every option before it.
pub proof fn law_whole_options_replace(before: Seq<Opt>, o: Options)
    ensures
        loaded_options(before.push(Opt::Options(o))) == o,
{
    assert(before.push(Opt::Options(o)).drop_last() =~= before);
}

/// Of two options setting the same field, the later one wins, and a field
/// option leaves every other field as it was.
pub proof fn law_later_option_wins(before: Seq<Opt>, first: Duration, second: Duration, pre_alloc: bool)
    ensures
        loaded_options(before.push(Opt::ExpiryDuration(first)).push(Opt::ExpiryDuration(second))).expiry_duration
            == second,
        loaded_options(before.push(Opt::PreAlloc(pre_alloc))) == (Options {
            pre_alloc,
            ..loaded_options(before)
        }),
{
    let s1 = before.push(Opt::ExpiryDuration(first));
    assert(s1.push(Opt::ExpiryDuration(second)).drop_last() =~= s1);
    assert(before.push(Opt::PreAlloc(pre_alloc)).drop_last() =~= before);
}

/// Each field option sets only the field it names: every other field keeps
/// what the options before it made of it.
pub proof fn law_field_option_sets_only_its_field(
    before: Seq<Opt>,
    expiry_duration: Duration,
    pre_alloc: bool,
    max_blocking_tasks: i32,
    nonblocking: bool,
    panic_handler: PanicHandler,
    logger: SharedLogger,
    disable_purge: bool,
)
    ensures
        loaded_options(before.push(Opt::ExpiryDuration(expiry_duration)))
            == (Options { expiry_duration, ..loaded_options(before) }),
        loaded_options(before.push(Opt::PreAlloc(pre_alloc))) == (Options { pre_alloc, ..loaded_options(before) }),
        loaded_options(before.push(Opt::MaxBlockingTasks(max_blocking_tasks)))
            == (Options { max_blocking_tasks, ..loaded_options(before) }),
        loaded_options(before.push(Opt::Nonblocking(nonblocking))) == (Options { nonblocking, ..loaded_options(before) }),
        loaded_options(before.push(Opt::PanicHandler(panic_handler)))
            == (Options { panic_handler: Some(panic_handler), ..loaded_options(before) }),
        loaded_options(before.push(Opt::Logger(logger))) == (Options { logger: Some(logger), ..loaded_options(before) }),
        loaded_options(before.push(Opt::DisablePurge(disable_purge)))
            == (Options { disable_purge, ..loaded_options(before) }),
{
    assert(before.push(Opt::ExpiryDuration(expiry_duration)).drop_last() =~= before);
    assert(before.push(Opt::PreAlloc(pre_alloc)).drop_last() =~= before);
    assert(before.push(Opt::MaxBlockingTasks(max_blocking_tasks)).drop_last() =~= before);
    assert(before.push(Opt::Nonblocking(nonblocking)).drop_last() =~= before);
    assert(before.push(Opt::PanicHandler(panic_handler)).drop_last() =~= before);
    assert(before.push(Opt::Logger(logger)).drop_last() =~= before);
    assert(before.push(Opt::DisablePurge(disable_purge)).drop_last() =~= before);
}

} // verus!
