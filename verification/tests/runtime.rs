use tokio::runtime::{Builder, Handle};
use wasm_metering::runtime::{
    max_threads, thread_parallelism, RuntimeOrHandle, FALLBACK_PARALLELISM, MIN_POOL_THREADS,
    POOL_THREADS_PER_CORE,
};

#[test]
fn pool_has_a_hundred_threads_a_core_and_200_at_least() {
    assert_eq!(max_threads(None), 200);
    assert_eq!(max_threads(Some(1)), 200);
    assert_eq!(max_threads(Some(2)), 200);
    assert_eq!(max_threads(Some(3)), 300);
    assert_eq!(max_threads(Some(64)), 6400);
    assert_eq!(max_threads(Some(0)), 200);
    assert_eq!(MIN_POOL_THREADS, 200);
    assert_eq!(POOL_THREADS_PER_CORE, 100);
}

#[test]
fn parallelism_falls_back_to_eight() {
    assert_eq!(thread_parallelism(None), 8);
    assert_eq!(thread_parallelism(Some(1)), 1);
    assert_eq!(thread_parallelism(Some(12)), 12);
    assert_eq!(FALLBACK_PARALLELISM, 8);
}

#[test]
fn handle_of_a_borrowed_runtime_is_the_one_given() {
    let runtime = Builder::new_current_thread().build().unwrap();
    let given: Handle = runtime.handle().clone();
    let rt = RuntimeOrHandle::from(given);
    assert!(matches!(rt, RuntimeOrHandle::Handle(_)));
    let task = rt.handle().spawn(async { 6 * 7 });
    assert_eq!(runtime.block_on(task).unwrap(), 42);
}

#[test]
fn handle_of_an_owned_runtime_runs_tasks() {
    let runtime = Builder::new_multi_thread().worker_threads(1).build().unwrap();
    let rt = RuntimeOrHandle::from(runtime);
    assert!(matches!(rt, RuntimeOrHandle::Runtime(_, _)));
    assert_eq!(rt.handle().block_on(async { 6 * 7 }), 42);
    let copy = rt.clone();
    assert_eq!(copy.handle().block_on(async { 1 + 1 }), 2);
}

#[test]
fn dropping_an_owned_runtime_shuts_it_down() {
    let runtime = Builder::new_multi_thread().worker_threads(1).build().unwrap();
    let rt = RuntimeOrHandle::from(runtime);
    let handle = rt.handle().clone();
    let shared = match &rt {
        RuntimeOrHandle::Runtime(_, shared) => shared.clone(),
        RuntimeOrHandle::Handle(_) => unreachable!(),
    };
    assert!(shared.lock().unwrap().is_some());
    drop(rt);
    assert!(shared.lock().unwrap().is_none());
    // A task spawned after the shutdown is cancelled at once.
    let late = handle.spawn(async { 1 });
    let outcome = Builder::new_current_thread().build().unwrap().block_on(late);
    assert!(outcome.is_err());
}
