//! Construction of configured crawlers.

use crate::autoscale::pool::{AutoscaleMode, AutoscaledPoolOptions};
use crate::config::{ConfigError, Configuration, ConfigurationBuilder, Environment};
use crate::crawler::completion::EngineOptions;
use crate::errors::{Cause, CrawlError, LinkView};
use crate::storage::StorageError;
use crate::text::{joined, owned};
use crate::time::Duration;
use crate::url::opt_view;
use vstd::prelude::*;

verus! {

/// Why a crawler cannot be built.
#[derive(Debug)]
pub enum CrawlerBuildError {
    /// No request handler is set.
    MissingRequestHandler,
    /// No storage client is set.
    MissingStorage,
    /// A fixed concurrency of zero.
    ZeroMaxConcurrency,
    /// Bounds out of order, or an interval of zero.
    InvalidConcurrencyBounds,
    /// No room for results.
    ZeroResultsCapacity,
    /// The configuration cannot be resolved.
    Config(ConfigError),
    /// The storage failed.
    Storage(StorageError),
}

impl CrawlerBuildError {
    /// The text of the error.
    pub open spec fn message_spec(self) -> Seq<char> {
        match self {
            CrawlerBuildError::MissingRequestHandler => "a request handler is required"@,
            CrawlerBuildError::MissingStorage =>
                "no storage client configured (set .storage_client(...) or Configuration::storage_client)"@,
            CrawlerBuildError::ZeroMaxConcurrency => "max_concurrency must be at least 1"@,
            CrawlerBuildError::InvalidConcurrencyBounds =>
                "dynamic scheduler options require valid concurrency bounds and a non-zero maybe_run_interval"@,
            CrawlerBuildError::ZeroResultsCapacity => "results_capacity must be at least 1"@,
            CrawlerBuildError::Config(e) => "configuration: "@ + e.message_spec(),
            CrawlerBuildError::Storage(e) => "storage: "@ + e.message_spec(),
        }
    }

    /// The text of the error.
    pub fn message(&self) -> (r: String)
        ensures
            r@ == self.message_spec(),
    {
        match self {
            CrawlerBuildError::MissingRequestHandler => owned("a request handler is required"),
            CrawlerBuildError::MissingStorage => owned(
                "no storage client configured (set .storage_client(...) or Configuration::storage_client)",
            ),
            CrawlerBuildError::ZeroMaxConcurrency => owned("max_concurrency must be at least 1"),
            CrawlerBuildError::InvalidConcurrencyBounds => owned(
                "dynamic scheduler options require valid concurrency bounds and a non-zero maybe_run_interval",
            ),
            CrawlerBuildError::ZeroResultsCapacity => owned("results_capacity must be at least 1"),
            CrawlerBuildError::Config(e) => joined("configuration: ", e.message().as_str()),
            CrawlerBuildError::Storage(e) => joined("storage: ", e.message().as_str()),
        }
    }
}

/// What a crawler is built from, as far as it is not an object of the caller.
#[derive(Debug)]
pub struct CrawlerBuilder {
    pub has_handler: bool,
    pub has_storage: bool,
    pub has_queue: bool,
    pub autoscaled_pool: AutoscaledPoolOptions,
    pub max_request_retries: u32,
    pub max_session_rotations: u32,
    pub request_handler_timeout: Duration,
    pub internal_operation_timeout: Duration,
    pub configuration: Option<Configuration>,
    pub results_capacity: usize,
}

/// How a crawler is put together.
#[derive(Debug)]
pub struct CrawlerPlan {
    pub configuration: Configuration,
    /// Whether the storage is emptied first.
    pub purge: bool,
    /// The name of the queue to open, where none is given.
    pub open_queue: Option<String>,
    /// The name of the key-value store to open.
    pub open_store: String,
    pub engine: EngineOptions,
    pub pool: AutoscaledPoolOptions,
    pub results_capacity: usize,
}

impl CrawlerBuilder {
    /// A builder with the default settings: ten requests at a time.
    pub fn new() -> (r: CrawlerBuilder)
        ensures
            !r.has_handler,
            !r.has_storage,
            !r.has_queue,
            r.autoscaled_pool == (AutoscaledPoolOptions {
                fixed_concurrency: Some(10),
                min_concurrency: 1,
                max_concurrency: 10,
                desired_concurrency: None,
                task_timeout: None,
                max_tasks_per_minute: None,
                same_domain_delay: Duration { nanos: 0 },
                maybe_run_interval: Duration::millis(500),
                autoscale_interval: Duration::secs(10),
                mode: AutoscaleMode::Aimd { increase_after_successes: 10 },
                signal_count: 0,
            }),
            r.max_request_retries == 3,
            r.max_session_rotations == 10,
            r.request_handler_timeout == Duration::secs(60),
            r.internal_operation_timeout == Duration::secs(30),
            r.configuration is None,
            r.results_capacity == 1024,
    {
        let mut pool: AutoscaledPoolOptions = AutoscaledPoolOptions::default();
        pool.fixed_concurrency = Some(10);
        pool.max_concurrency = 10;
        CrawlerBuilder {
            has_handler: false,
            has_storage: false,
            has_queue: false,
            autoscaled_pool: pool,
            max_request_retries: 3,
            max_session_rotations: 10,
            request_handler_timeout: Duration::from_secs(60),
            internal_operation_timeout: Duration::from_secs(30),
            configuration: None,
            results_capacity: 1024,
        }
    }

    /// Records that there is a request handler.
    pub fn request_handler(self) -> (r: CrawlerBuilder)
        ensures
            r == (CrawlerBuilder { has_handler: true, ..self }),
    {
        let mut out = self;
        out.has_handler = true;
        out
    }

    /// Pins the concurrency.
    pub fn max_concurrency(self, count: usize) -> (r: CrawlerBuilder)
        ensures
            r == (CrawlerBuilder {
                autoscaled_pool: AutoscaledPoolOptions {
                    fixed_concurrency: Some(count),
                    max_concurrency: count,
                    ..self.autoscaled_pool
                },
                ..self
            }),
    {
        let mut out = self;
        out.autoscaled_pool.fixed_concurrency = Some(count);
        out.autoscaled_pool.max_concurrency = count;
        out
    }

    /// Sets the minimum dynamic concurrency.
    pub fn min_concurrency(self, count: usize) -> (r: CrawlerBuilder)
        ensures
            r == (CrawlerBuilder {
                autoscaled_pool: AutoscaledPoolOptions {
                    min_concurrency: count,
                    ..self.autoscaled_pool
                },
                ..self
            }),
    {
        let mut out = self;
        out.autoscaled_pool.min_concurrency = count;
        out
    }

    /// Sets the initial dynamic concurrency.
    pub fn desired_concurrency(self, count: usize) -> (r: CrawlerBuilder)
        ensures
            r == (CrawlerBuilder {
                autoscaled_pool: AutoscaledPoolOptions {
                    desired_concurrency: Some(count),
                    ..self.autoscaled_pool
                },
                ..self
            }),
    {
        let mut out = self;
        out.autoscaled_pool.desired_concurrency = Some(count);
        out
    }

    /// Chooses dynamic concurrency.
    pub fn autoscale_mode(self, mode: AutoscaleMode) -> (r: CrawlerBuilder)
        ensures
            r == (CrawlerBuilder {
                autoscaled_pool: AutoscaledPoolOptions {
                    mode,
                    fixed_concurrency: None,
                    ..self.autoscaled_pool
                },
                ..self
            }),
    {
        let mut out = self;
        out.autoscaled_pool.mode = mode;
        out.autoscaled_pool.fixed_concurrency = None;
        out
    }

    /// Sets the budget of starts per minute.
    pub fn max_tasks_per_minute(self, count: u32) -> (r: CrawlerBuilder)
        ensures
            r == (CrawlerBuilder {
                autoscaled_pool: AutoscaledPoolOptions {
                    max_tasks_per_minute: Some(count),
                    ..self.autoscaled_pool
                },
                ..self
            }),
    {
        let mut out = self;
        out.autoscaled_pool.max_tasks_per_minute = Some(count);
        out
    }

    /// Sets the delay between requests to one host.
    pub fn same_domain_delay(self, delay: Duration) -> (r: CrawlerBuilder)
        ensures
            r == (CrawlerBuilder {
                autoscaled_pool: AutoscaledPoolOptions {
                    same_domain_delay: delay,
                    ..self.autoscaled_pool
                },
                ..self
            }),
    {
        let mut out = self;
        out.autoscaled_pool.same_domain_delay = delay;
        out
    }

    /// Replaces all concurrency settings.
    pub fn autoscaled_pool_options(self, options: AutoscaledPoolOptions) -> (r: CrawlerBuilder)
        ensures
            r == (CrawlerBuilder { autoscaled_pool: options, ..self }),
    {
        let mut out = self;
        out.autoscaled_pool = options;
        out
    }

    /// Sets the limit on ordinary retries.
    pub fn max_request_retries(self, count: u32) -> (r: CrawlerBuilder)
        ensures
            r == (CrawlerBuilder { max_request_retries: count, ..self }),
    {
        let mut out = self;
        out.max_request_retries = count;
        out
    }

    /// Sets the limit on session rotations.
    pub fn max_session_rotations(self, count: u32) -> (r: CrawlerBuilder)
        ensures
            r == (CrawlerBuilder { max_session_rotations: count, ..self }),
    {
        let mut out = self;
        out.max_session_rotations = count;
        out
    }

    /// Sets the time limit of the request handler.
    pub fn request_handler_timeout(self, timeout: Duration) -> (r: CrawlerBuilder)
        ensures
            r == (CrawlerBuilder { request_handler_timeout: timeout, ..self }),
    {
        let mut out = self;
        out.request_handler_timeout = timeout;
        out
    }

    /// Sets the time limit of storage operations.
    pub fn internal_operation_timeout(self, timeout: Duration) -> (r: CrawlerBuilder)
        ensures
            r == (CrawlerBuilder { internal_operation_timeout: timeout, ..self }),
    {
        let mut out = self;
        out.internal_operation_timeout = timeout;
        out
    }

    /// Sets the configuration.
    pub fn configuration(self, configuration: Configuration) -> (r: CrawlerBuilder)
        ensures
            r == (CrawlerBuilder { configuration: Some(configuration), ..self }),
    {
        let mut out = self;
        out.configuration = Some(configuration);
        out
    }

    /// Records that there is a storage client.
    pub fn storage_client(self) -> (r: CrawlerBuilder)
        ensures
            r == (CrawlerBuilder { has_storage: true, ..self }),
    {
        let mut out = self;
        out.has_storage = true;
        out
    }

    /// Records that there is a request queue.
    pub fn request_queue(self) -> (r: CrawlerBuilder)
        ensures
            r == (CrawlerBuilder { has_queue: true, ..self }),
    {
        let mut out = self;
        out.has_queue = true;
        out
    }

    /// Sets how many results are kept for slow receivers.
    pub fn results_capacity(self, capacity: usize) -> (r: CrawlerBuilder)
        ensures
            r == (CrawlerBuilder { results_capacity: capacity, ..self }),
    {
        let mut out = self;
        out.results_capacity = capacity;
        out
    }

    /// Whether dynamic bounds are out of order or the fallback interval is zero.
    pub open spec fn bounds_are_invalid(self) -> bool {
        let pool = self.autoscaled_pool;
        (pool.fixed_concurrency is None && (pool.min_concurrency < 1 || pool.max_concurrency
            < pool.min_concurrency)) || pool.maybe_run_interval.nanos == 0
    }

    /// Whether `plan` puts the crawler together by this builder and a configuration.
    pub open spec fn is_planned(self, plan: CrawlerPlan) -> bool {
        let config = plan.configuration;
        &&& plan.purge == config.purge_on_start
        &&& opt_view(plan.open_queue) == if self.has_queue {
            None
        } else {
            Some(config.default_request_queue_id@)
        }
        &&& plan.open_store@ == config.default_key_value_store_id@
        &&& plan.engine == (EngineOptions {
            max_request_retries: self.max_request_retries,
            max_session_rotations: self.max_session_rotations,
            request_handler_timeout: self.request_handler_timeout,
            internal_operation_timeout: self.internal_operation_timeout,
            persist_state_interval: config.persist_state_interval,
            task_timeout: self.autoscaled_pool.task_timeout,
            maybe_run_interval: self.autoscaled_pool.maybe_run_interval,
        })
        &&& plan.pool == self.autoscaled_pool
        &&& plan.results_capacity == self.results_capacity
    }

    /// Whether a configuration is the builder's own or the one that a set of environment variables
    /// resolves to.
    pub open spec fn is_configuration(self, env: Environment, config: Configuration) -> bool {
        match self.configuration {
            Some(own) => config == own,
            None => exists|builder: ConfigurationBuilder| #[trigger]
                builder.is_new() && builder.first_fault(env) is None && builder.resolves_to(
                    env,
                    config,
                ),
        }
    }

    /// Whether building in an environment gives `r`.
    pub open spec fn builds(
        self,
        env: Environment,
        configured_storage: bool,
        r: Result<CrawlerPlan, CrawlerBuildError>,
    ) -> bool {
        if !self.has_handler {
            r is Err && r->Err_0 is MissingRequestHandler
        } else if self.autoscaled_pool.fixed_concurrency == Some(0usize) {
            r is Err && r->Err_0 is ZeroMaxConcurrency
        } else if self.bounds_are_invalid() {
            r is Err && r->Err_0 is InvalidConcurrencyBounds
        } else if self.results_capacity == 0 {
            r is Err && r->Err_0 is ZeroResultsCapacity
        } else {
            match r {
                Err(CrawlerBuildError::Config(e)) => self.configuration is None && exists|
                    builder: ConfigurationBuilder,
                | #[trigger]
                    builder.is_new() && builder.first_fault(env) is Some && e.reports(
                        builder.first_fault(env).unwrap(),
                    ),
                Err(CrawlerBuildError::MissingStorage) => !self.has_storage
                    && !configured_storage && exists|config: Configuration| #[trigger]
                    self.is_configuration(env, config),
                Err(_) => false,
                Ok(plan) => {
                    &&& self.has_storage || configured_storage
                    &&& self.is_configuration(env, plan.configuration)
                    &&& self.is_planned(plan)
                },
            }
        }
    }

    /// Checks the settings in a fixed order and plans the crawler. `configured_storage` says
    /// whether the configuration brings a storage client of its own.
    pub fn build(self, env: &Environment, configured_storage: bool) -> (r: Result<
        CrawlerPlan,
        CrawlerBuildError,
    >)
        ensures
            self.builds(*env, configured_storage, r),
    {
        if !self.has_handler {
            return Err(CrawlerBuildError::MissingRequestHandler);
        }
        if let Some(fixed) = self.autoscaled_pool.fixed_concurrency {
            if fixed == 0 {
                return Err(CrawlerBuildError::ZeroMaxConcurrency);
            }
        }
        if (self.autoscaled_pool.fixed_concurrency.is_none()
            && (self.autoscaled_pool.min_concurrency < 1 || self.autoscaled_pool.max_concurrency
            < self.autoscaled_pool.min_concurrency))
            || self.autoscaled_pool.maybe_run_interval.is_zero() {
            return Err(CrawlerBuildError::InvalidConcurrencyBounds);
        }
        if self.results_capacity == 0 {
            return Err(CrawlerBuildError::ZeroResultsCapacity);
        }
        let configuration: Configuration = match self.configuration {
            Some(configuration) => configuration,
            None => {
                let builder: ConfigurationBuilder = Configuration::builder();
                match builder.build_with_env(env) {
                    Ok(configuration) => configuration,
                    Err(error) => {
                        return Err(CrawlerBuildError::Config(error));
                    },
                }
            },
        };
        assert(self.is_configuration(*env, configuration));
        if !self.has_storage && !configured_storage {
            return Err(CrawlerBuildError::MissingStorage);
        }
        let open_queue: Option<String> = if self.has_queue {
            None
        } else {
            Some(owned(configuration.default_request_queue_id()))
        };
        let open_store: String = owned(configuration.default_key_value_store_id());
        let engine = EngineOptions {
            max_request_retries: self.max_request_retries,
            max_session_rotations: self.max_session_rotations,
            request_handler_timeout: self.request_handler_timeout,
            internal_operation_timeout: self.internal_operation_timeout,
            persist_state_interval: configuration.persist_state_interval(),
            task_timeout: self.autoscaled_pool.task_timeout,
            maybe_run_interval: self.autoscaled_pool.maybe_run_interval,
        };
        let purge: bool = configuration.purge_on_start();
        Ok(
            CrawlerPlan {
                configuration,
                purge,
                open_queue,
                open_store,
                engine,
                pool: self.autoscaled_pool,
                results_capacity: self.results_capacity,
            },
        )
    }
}

/// The last of two calls decides whether the concurrency is fixed: choosing a mode makes it dynamic
/// with the ceiling that was pinned, and pinning it again makes it fixed.
pub proof fn the_last_concurrency_call_decides(
    builder: CrawlerBuilder,
    pinned: CrawlerBuilder,
    dynamic: CrawlerBuilder,
    count: usize,
    mode: AutoscaleMode,
)
    requires
        pinned.autoscaled_pool == (AutoscaledPoolOptions {
            fixed_concurrency: Some(count),
            max_concurrency: count,
            ..builder.autoscaled_pool
        }),
        dynamic.autoscaled_pool == (AutoscaledPoolOptions {
            mode,
            fixed_concurrency: None,
            ..pinned.autoscaled_pool
        }),
    ensures
        pinned.autoscaled_pool.fixed_concurrency == Some(count),
        dynamic.autoscaled_pool.fixed_concurrency is None,
        dynamic.autoscaled_pool.max_spec() == if (count as nat) < dynamic.autoscaled_pool.min_spec() {
            dynamic.autoscaled_pool.min_spec()
        } else {
            count as nat
        },
{
}

/// Lets a crawler run once.
#[derive(Clone, Copy, Debug, PartialEq, Eq, Structural)]
pub struct RunGuard {
    pub started: bool,
}

impl RunGuard {
    /// The crawler has not run.
    pub fn new() -> (r: RunGuard)
        ensures
            !r.started,
    {
        RunGuard { started: false }
    }

    /// Starts the only run.
    pub fn start(&mut self) -> (r: Result<(), CrawlError>)
        ensures
            final(self).started,
            match r {
                Ok(_) => !old(self).started,
                Err(e) => old(self).started && e is NonRetryable && e->NonRetryable_0@ == seq![
                    LinkView { message: "this crawler has already been run"@, status: None },
                ],
            },
    {
        if self.started {
            return Err(CrawlError::non_retryable(Cause::msg("this crawler has already been run")));
        }
        self.started = true;
        Ok(())
    }
}

/// What keeps a crawler from being built, in this order: no request handler, no concurrency, bounds
/// that do not fit or an interval of nothing, no room for results; then a configuration that cannot be
/// read, and storage that nobody configured. Nothing else does.
pub proof fn what_keeps_a_crawler_from_being_built(
    builder: CrawlerBuilder,
    env: Environment,
    configured_storage: bool,
    r: Result<CrawlerPlan, CrawlerBuildError>,
)
    requires
        builder.builds(env, configured_storage, r),
    ensures
        ({
            let pool = builder.autoscaled_pool;
            let bad_bounds = (pool.fixed_concurrency is None && (pool.min_concurrency == 0
                || pool.max_concurrency < pool.min_concurrency)) || pool.maybe_run_interval.nanos
                == 0;
            let zero = pool.fixed_concurrency == Some(0usize);
            &&& !builder.has_handler <==> r is Err && r->Err_0 is MissingRequestHandler
            &&& builder.has_handler && zero <==> r is Err && r->Err_0 is ZeroMaxConcurrency
            &&& builder.has_handler && !zero && bad_bounds <==> r is Err && r->Err_0
                is InvalidConcurrencyBounds
            &&& builder.has_handler && !zero && !bad_bounds && builder.results_capacity == 0 <==> r
                is Err && r->Err_0 is ZeroResultsCapacity
            &&& r is Err && r->Err_0 is Config ==> builder.configuration is None
            &&& r is Err && r->Err_0 is MissingStorage ==> !builder.has_storage
                && !configured_storage
            &&& builder.has_handler && !zero && !bad_bounds && builder.results_capacity > 0
                && builder.configuration is Some && (builder.has_storage || configured_storage)
                ==> r is Ok
            &&& !(r is Err && r->Err_0 is Storage)
        }),
{
}

/// A planned crawl takes its settings from where they were made: limits and timeouts from the builder,
/// names of stores and the interval of saving from the configuration, and opens the default queue only
/// where it was given none.
pub proof fn where_a_plan_comes_from(
    builder: CrawlerBuilder,
    env: Environment,
    configured_storage: bool,
    plan: CrawlerPlan,
)
    requires
        builder.builds(env, configured_storage, Ok::<CrawlerPlan, CrawlerBuildError>(plan)),
    ensures
        builder.configuration is Some ==> plan.configuration == builder.configuration.unwrap(),
        plan.purge == plan.configuration.purge_on_start,
        builder.has_queue ==> plan.open_queue is None,
        !builder.has_queue ==> plan.open_queue is Some && plan.open_queue.unwrap()@
            == plan.configuration.default_request_queue_id@,
        plan.open_store@ == plan.configuration.default_key_value_store_id@,
        plan.engine.max_request_retries == builder.max_request_retries,
        plan.engine.max_session_rotations == builder.max_session_rotations,
        plan.engine.request_handler_timeout == builder.request_handler_timeout,
        plan.engine.internal_operation_timeout == builder.internal_operation_timeout,
        plan.engine.persist_state_interval == plan.configuration.persist_state_interval,
        plan.engine.task_timeout == builder.autoscaled_pool.task_timeout,
        plan.engine.maybe_run_interval == builder.autoscaled_pool.maybe_run_interval,
        plan.pool == builder.autoscaled_pool,
        plan.results_capacity == builder.results_capacity,
{
}

/// What each failure to build says.
pub proof fn build_errors_in_words(config: ConfigError, storage: StorageError)
    ensures
        CrawlerBuildError::MissingRequestHandler.message_spec() == "a request handler is required"@,
        CrawlerBuildError::MissingStorage.message_spec()
            == "no storage client configured (set .storage_client(...) or Configuration::storage_client)"@,
        CrawlerBuildError::ZeroMaxConcurrency.message_spec() == "max_concurrency must be at least 1"@,
        CrawlerBuildError::InvalidConcurrencyBounds.message_spec()
            == "dynamic scheduler options require valid concurrency bounds and a non-zero maybe_run_interval"@,
        CrawlerBuildError::ZeroResultsCapacity.message_spec()
            == "results_capacity must be at least 1"@,
        CrawlerBuildError::Config(config).message_spec() == "configuration: "@
            + config.message_spec(),
        CrawlerBuildError::Storage(storage).message_spec() == "storage: "@ + storage.message_spec(),
{
}

} // verus!
