//! The handle of the tokio runtime that tasks are spawned on, and the sizes
//! of the pools that run them.
use std::ops::DerefMut;
use std::sync::{Arc, Mutex, MutexGuard, TryLockError};
use std::time::Duration;
use vstd::prelude::*;
use tokio::runtime::{Handle, Runtime};

verus! {

/// `tokio::runtime::Handle`, a handle of a runtime. It is carried through.
#[verifier::external_type_specification]
#[verifier::external_body]
pub struct ExHandle(tokio::runtime::Handle);

/// `tokio::runtime::Runtime`, a runtime. It is carried through.
#[verifier::external_type_specification]
#[verifier::external_body]
pub struct ExRuntime(tokio::runtime::Runtime);

/// `std::sync::Mutex`. It is carried through.
#[verifier::external_type_specification]
#[verifier::external_body]
#[verifier::reject_recursive_types(T)]
pub struct ExMutex<T: ?Sized>(std::sync::Mutex<T>);

/// `std::sync::MutexGuard`, the hold on a locked mutex. It is carried
/// through.
#[verifier::external_type_specification]
#[verifier::external_body]
#[verifier::reject_recursive_types(T)]
pub struct ExMutexGuard<'a, T: ?Sized + 'a>(std::sync::MutexGuard<'a, T>);

/// `std::sync::TryLockError`, why a mutex could not be locked at once. It
/// is carried through.
#[verifier::external_type_specification]
#[verifier::external_body]
#[verifier::reject_recursive_types(T)]
pub struct ExTryLockError<T>(std::sync::TryLockError<T>);

/// The handle of `runtime` (`Runtime::handle`).
pub uninterp spec fn handle_of(runtime: Runtime) -> Handle;

/// `Handle::clone`: a handle of the same runtime, which is the same handle
/// to all who hold it.
pub assume_specification[ <tokio::runtime::Handle as Clone>::clone ](
    handle: &tokio::runtime::Handle,
) -> (copy: tokio::runtime::Handle)
    ensures
        copy == *handle,
;

/// `Runtime::handle`: the handle of the runtime.
pub assume_specification[ tokio::runtime::Runtime::handle ](
    runtime: &tokio::runtime::Runtime,
) -> (handle: &tokio::runtime::Handle)
    ensures
        *handle == handle_of(*runtime),
;

/// `Mutex::new`: a mutex that guards `t`. Nothing is claimed of it.
pub assume_specification<T>[ std::sync::Mutex::<T>::new ](t: T) -> std::sync::Mutex<T>;

/// A tokio runtime to spawn tasks on: one that somebody else keeps alive,
/// by its handle, or one that is owned here, together with its handle.
#[derive(Debug, Clone)]
pub enum RuntimeOrHandle {
    Handle(Handle),
    Runtime(Handle, Arc<Mutex<Option<Runtime>>>),
}

impl RuntimeOrHandle {
    /// The handle that either variant holds.
    pub open spec fn handle_view(&self) -> Handle {
        match *self {
            RuntimeOrHandle::Handle(h) => h,
            RuntimeOrHandle::Runtime(h, _) => h,
        }
    }

    /// The handle of the runtime.
    pub fn handle(&self) -> (h: &Handle)
        ensures
            *h == self.handle_view(),
    {
        match self {
            Self::Handle(h) => h,
            Self::Runtime(h, _) => h,
        }
    }
}

impl From<Handle> for RuntimeOrHandle {
    fn from(value: Handle) -> (r: Self) {
        Self::Handle(value)
    }
}

impl vstd::std_specs::convert::FromSpecImpl<Handle> for RuntimeOrHandle {
    open spec fn obeys_from_spec() -> bool {
        true
    }

    open spec fn from_spec(value: Handle) -> Self {
        RuntimeOrHandle::Handle(value)
    }
}

impl From<Runtime> for RuntimeOrHandle {
    fn from(value: Runtime) -> (r: Self)
        ensures
            r matches RuntimeOrHandle::Runtime(handle, _) && handle == handle_of(value),
    {
        let handle = value.handle().clone();
        Self::Runtime(handle, Arc::new(Mutex::new(Some(value))))
    }
}

impl vstd::std_specs::convert::FromSpecImpl<Runtime> for RuntimeOrHandle {
    open spec fn obeys_from_spec() -> bool {
        false
    }

    open spec fn from_spec(value: Runtime) -> Self {
        arbitrary()
    }
}

impl Drop for RuntimeOrHandle {
    /// Shuts an owned runtime down without waiting for its tasks, so that
    /// the value can be dropped from inside a task. Where another holder of
    /// the runtime is at the same work, it is left to that one.
    fn drop(&mut self)
        opens_invariants none
        no_unwind
    {
        if let Self::Runtime(_, shared) = self {
            if let Ok(mut guard) = try_lock(shared) {
                let mut taken: Option<Runtime> = None;
                core::mem::swap(guarded(&mut guard), &mut taken);
                if let Some(runtime) = taken {
                    shutdown_timeout(runtime, 0);
                }
            }
        }
    }
}

/// `Mutex::try_lock`: the hold on the mutex, where no thread has it and
/// none has panicked with it. The call does not wait and does not panic.
/// Nothing is claimed of which outcome comes.
#[verifier::external_body]
fn try_lock<'a>(mutex: &'a Mutex<Option<Runtime>>) -> Result<
    MutexGuard<'a, Option<Runtime>>,
    TryLockError<MutexGuard<'a, Option<Runtime>>>,
>
    opens_invariants none
    no_unwind
{
    mutex.try_lock()
}

/// `DerefMut::deref_mut` on the hold of a mutex: what the mutex guards.
/// Nothing is claimed of it.
#[verifier::external_body]
fn guarded<'g, 'a>(guard: &'g mut MutexGuard<'a, Option<Runtime>>) -> &'g mut Option<Runtime>
    opens_invariants none
    no_unwind
{
    guard.deref_mut()
}

/// `Runtime::shutdown_timeout`, with a duration of no seconds: the runtime
/// is shut down at once, and its tasks are not waited for. (With any other
/// duration the call may panic inside a task.)
#[verifier::external_body]
fn shutdown_timeout(runtime: Runtime, seconds: u64)
    requires
        seconds == 0,
    opens_invariants none
    no_unwind
{
    runtime.shutdown_timeout(Duration::from_secs(seconds))
}

/// The number of worker threads when the machine cannot say how many it has.
pub const FALLBACK_PARALLELISM: usize = 8;

/// The least size of the pool of blocking threads.
pub const MIN_POOL_THREADS: usize = 200;

/// The threads of the pool for each thread that the machine runs at once.
pub const POOL_THREADS_PER_CORE: usize = 100;

/// The size of the pool of blocking threads on a machine that runs
/// `available` threads at once (one, where it cannot say): a hundred for
/// each, and 200 at least.
pub open spec fn pool_size(available: Option<usize>) -> int {
    let concurrency = match available {
        Some(n) => n,
        None => 1,
    };
    if concurrency * POOL_THREADS_PER_CORE > MIN_POOL_THREADS {
        concurrency * POOL_THREADS_PER_CORE
    } else {
        MIN_POOL_THREADS as int
    }
}

/// Computes `pool_size(available)`.
pub fn max_threads(available: Option<usize>) -> (n: usize)
    requires
        pool_size(available) <= usize::MAX,
    ensures
        n == pool_size(available),
{
    let concurrency: usize = match available {
        Some(n) => n,
        None => 1,
    };
    let scaled: usize = concurrency * POOL_THREADS_PER_CORE;
    if scaled > MIN_POOL_THREADS {
        scaled
    } else {
        MIN_POOL_THREADS
    }
}

/// The number of threads to run wasm on at once: what the machine says it
/// has, or eight where it cannot say.
pub fn thread_parallelism(available: Option<usize>) -> (n: usize)
    ensures
        n == (match available {
            Some(n) => n,
            None => FALLBACK_PARALLELISM,
        }),
{
    match available {
        Some(n) => n,
        None => FALLBACK_PARALLELISM,
    }
}

} // verus!
