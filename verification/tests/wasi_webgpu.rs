use std::future::Future;
use std::pin::Pin;
use std::sync::{Arc, Mutex};
use std::task::Poll;
use std::time::{Duration, Instant};

use tokio::runtime::Runtime;
use tokio::sync::Notify;
use wasi_nn_host::env::{Capabilities, CapabilityNnV1, CapabilityWebgpuSpikeV1, WasiEnv};
use wasi_nn_host::memory::GuestMemory;
use wasi_nn_host::stub::CpuStub;
use wasi_nn_host::syscalls::wasi_webgpu::abi::{deliver, guest_handle, status_of};
use wasi_nn_host::syscalls::wasi_webgpu::background::{guest_delay, BackgroundTask};
use wasi_nn_host::syscalls::wasi_webgpu::future_drop::future_drop;
use wasi_nn_host::syscalls::wasi_webgpu::future_new::future_new;
use wasi_nn_host::syscalls::wasi_webgpu::future_read::future_read;
use wasi_nn_host::syscalls::wasi_webgpu::future_resolve_after::{
    future_resolve_after, future_resolve_scheduled,
};
use wasi_nn_host::syscalls::wasi_webgpu::request_adapter_start::{
    request_adapter_spawned, request_adapter_start,
};
use wasi_nn_host::syscalls::wasi_webgpu::subtask_drop::subtask_drop;
use wasi_nn_host::syscalls::wasi_webgpu::waitable_join::waitable_join;
use wasi_nn_host::syscalls::wasi_webgpu::waitable_set_new::waitable_set_new;
use wasi_nn_host::syscalls::wasi_webgpu::waitable_set_wait::{
    waitable_set_wait, waitable_set_wait_not_supported, WaitStep,
};
use wasi_nn_host::syscalls::wasi_webgpu_spike::{
    request_adapter_spike, request_adapter_spike_not_supported, SIMULATED_DELAY_MS,
};
use wasi_nn_host::state::webgpu::WebgpuErrno;

const SUBTASK_OUT_PTR: i32 = 0;
const SET_OUT_PTR: i32 = 4;
/// 8 bytes: resolved waitable handle, then its payload.
const EVENT_OUT_PTR: i32 = 8;
const FUTURE_OUT_PTR: i32 = 16;
const FUTURE_VALUE_OUT_PTR: i32 = 20;
const DEFAULT_SIMULATED_DELAY: Duration = Duration::from_millis(50);
const JITTER_TOLERANCE: Duration = Duration::from_millis(5);
const FAKE_ADAPTER_ID: u32 = 1;
const BLOCKED: i32 = -8;

/// A process whose background work runs on a task pool.
struct Guest {
    runtime: Runtime,
    env: Arc<Mutex<WasiEnv<CpuStub>>>,
    memory: GuestMemory,
}

fn env(allow: bool) -> WasiEnv<CpuStub> {
    let capabilities = Capabilities {
        nn: CapabilityNnV1 { allow: false, allow_gpu: false, max_model_bytes: None },
        webgpu_spike: CapabilityWebgpuSpikeV1 { allow },
    };
    WasiEnv::new(capabilities, CpuStub)
}

async fn any_notified(waits: Vec<(u32, Arc<Notify>)>) {
    let mut pending: Vec<Pin<Box<dyn Future<Output = ()> + '_>>> = Vec::new();
    for (_, notify) in waits.iter() {
        pending.push(Box::pin(notify.notified()));
    }
    std::future::poll_fn(|cx| {
        for wait in pending.iter_mut() {
            if wait.as_mut().poll(cx).is_ready() {
                return Poll::Ready(());
            }
        }
        Poll::Pending
    })
    .await
}

impl Guest {
    fn new() -> Guest {
        let runtime = tokio::runtime::Builder::new_multi_thread().enable_all().build().unwrap();
        Guest {
            runtime,
            env: Arc::new(Mutex::new(env(true))),
            memory: GuestMemory::new(vec![0; 65536]),
        }
    }

    fn read_u32(&self, ptr: i32) -> u32 {
        self.memory.read_u32(ptr as u32).expect("read u32 from guest memory")
    }

    fn spawn(&self, task: BackgroundTask) {
        let env = self.env.clone();
        self.runtime.spawn(async move {
            tokio::time::sleep(Duration::from_millis(task.delay_ms as u64)).await;
            task.complete(&mut env.lock().unwrap().state.webgpu);
        });
    }

    fn sleep(&self, delay: Duration) {
        self.runtime.block_on(async move { tokio::time::sleep(delay).await });
    }

    fn request_adapter_start(&mut self, delay_ms: i32) -> u32 {
        let task = request_adapter_start(&mut self.env.lock().unwrap(), delay_ms)
            .expect("request_adapter_start should succeed");
        self.spawn(task);
        let rc = request_adapter_spawned(
            &mut self.env.lock().unwrap(),
            &mut self.memory,
            task,
            true,
            SUBTASK_OUT_PTR,
        );
        assert_eq!(rc, 0, "request_adapter_start should succeed");
        self.read_u32(SUBTASK_OUT_PTR)
    }

    fn waitable_set_new(&mut self) -> u32 {
        let rc = waitable_set_new(&mut self.env.lock().unwrap(), &mut self.memory, SET_OUT_PTR);
        assert_eq!(rc, 0, "waitable_set_new should succeed");
        self.read_u32(SET_OUT_PTR)
    }

    fn waitable_join(&mut self, waitable: u32, set: u32) -> i32 {
        waitable_join(&mut self.env.lock().unwrap(), waitable as i32, set as i32)
    }

    fn waitable_set_wait(&mut self, set: u32) -> i32 {
        loop {
            let step = waitable_set_wait(
                &mut self.env.lock().unwrap(),
                &mut self.memory,
                set as i32,
                EVENT_OUT_PTR,
            );
            match step {
                WaitStep::Done(code) => return code,
                WaitStep::Suspend(waits) => self.runtime.block_on(any_notified(waits)),
            }
        }
    }

    fn future_new(&mut self) -> u32 {
        let rc = future_new(&mut self.env.lock().unwrap(), &mut self.memory, FUTURE_OUT_PTR);
        assert_eq!(rc, 0, "future_new should succeed");
        self.read_u32(FUTURE_OUT_PTR)
    }

    fn future_resolve_after(&mut self, future: u32, value: i32, delay_ms: i32) -> i32 {
        let asked = future_resolve_after(&self.env.lock().unwrap(), future as i32, value, delay_ms);
        match asked {
            Ok(task) => {
                self.spawn(task);
                future_resolve_scheduled(true)
            }
            Err(code) => code,
        }
    }

    fn future_read(&mut self, future: u32) -> i32 {
        future_read(
            &self.env.lock().unwrap(),
            &mut self.memory,
            future as i32,
            FUTURE_VALUE_OUT_PTR,
        )
    }

    fn future_drop(&mut self, future: u32) -> i32 {
        future_drop(&mut self.env.lock().unwrap(), future as i32)
    }

    fn subtask_drop(&mut self, subtask: u32) -> i32 {
        subtask_drop(&mut self.env.lock().unwrap(), subtask as i32)
    }
}

#[test]
fn waitable_set_wait_suspends_and_resumes_through_a_real_guest() {
    let mut guest = Guest::new();
    let started = Instant::now();
    let subtask = guest.request_adapter_start(0);
    let set = guest.waitable_set_new();
    assert_eq!(guest.waitable_join(subtask, set), 0, "waitable_join should succeed");

    assert_eq!(guest.waitable_set_wait(set), 0, "waitable_set_wait should succeed");
    let elapsed = started.elapsed();
    assert!(
        elapsed >= DEFAULT_SIMULATED_DELAY,
        "expected waitable_set_wait to block while the guest was suspended; only took {:?}",
        elapsed
    );

    let event = guest.read_u32(EVENT_OUT_PTR);
    assert_eq!(event, FAKE_ADAPTER_ID);
    assert_eq!(guest.read_u32(EVENT_OUT_PTR + 4), FAKE_ADAPTER_ID);
    assert_eq!(guest.subtask_drop(subtask), 0, "subtask_drop should succeed");
}

#[test]
fn future_read_returns_the_value_immediately_once_already_resolved() {
    let mut guest = Guest::new();
    let future = guest.future_new();
    assert_eq!(guest.future_resolve_after(future, 42, 1), 0);
    guest.sleep(Duration::from_millis(30));

    let rc = guest.future_read(future);
    assert_eq!(rc, 0, "future_read should succeed once the future has resolved");
    assert_eq!(guest.read_u32(FUTURE_VALUE_OUT_PTR), 42);
    assert_eq!(guest.future_drop(future), 0);
}

#[test]
fn future_read_blocks_then_resolves_via_waitable_set_wait() {
    let mut guest = Guest::new();
    let future = guest.future_new();
    assert_eq!(guest.future_resolve_after(future, 7, 0), 0);
    assert_eq!(
        guest.future_read(future),
        BLOCKED,
        "future_read on an unresolved future should return Blocked"
    );

    let set = guest.waitable_set_new();
    assert_eq!(guest.waitable_join(future, set), 0);
    let started = Instant::now();
    assert_eq!(guest.waitable_set_wait(set), 0, "waitable_set_wait should succeed");
    let elapsed = started.elapsed();
    assert!(
        elapsed + JITTER_TOLERANCE >= DEFAULT_SIMULATED_DELAY,
        "expected waitable_set_wait to genuinely suspend; only took {:?}",
        elapsed
    );

    assert_eq!(
        guest.read_u32(EVENT_OUT_PTR),
        future,
        "the event should name the future's own handle"
    );
    assert_eq!(guest.read_u32(EVENT_OUT_PTR + 4), 7);
}

#[test]
fn a_subtask_and_a_future_can_share_one_waitable_set_and_resolve_in_order() {
    let mut guest = Guest::new();
    let set = guest.waitable_set_new();
    let future = guest.future_new();
    assert_eq!(guest.future_resolve_after(future, 99, 30), 0);
    assert_eq!(guest.waitable_join(future, set), 0);
    let subtask = guest.request_adapter_start(100);
    assert_eq!(guest.waitable_join(subtask, set), 0);

    let mut resolution_order = Vec::new();
    let mut payloads = Vec::new();
    for _ in 0..2 {
        assert_eq!(guest.waitable_set_wait(set), 0);
        resolution_order.push(guest.read_u32(EVENT_OUT_PTR));
        payloads.push(guest.read_u32(EVENT_OUT_PTR + 4));
    }
    assert_eq!(
        resolution_order,
        vec![future, subtask],
        "the future (30ms) should resolve before the subtask (100ms), regardless of kind"
    );
    let payload_of_last = guest.read_u32(EVENT_OUT_PTR + 4);
    assert_eq!(payload_of_last, FAKE_ADAPTER_ID);
    assert_eq!(payloads, vec![99, FAKE_ADAPTER_ID]);
}

#[test]
fn request_adapter_spike_suspends_and_resumes_through_a_real_guest() {
    let guest = Guest::new();
    let mut memory = GuestMemory::new(vec![0; 64]);
    let started = Instant::now();
    guest.sleep(Duration::from_millis(SIMULATED_DELAY_MS as u64));
    let return_code = request_adapter_spike(&mut memory, 0);
    assert_eq!(return_code, 0, "request_adapter_spike should report success");
    assert!(started.elapsed() >= Duration::from_millis(50));
    assert_eq!(
        memory.read_u32(0).unwrap(),
        FAKE_ADAPTER_ID,
        "guest memory should contain the fake adapter id written after resume"
    );
}

#[test]
fn the_spike_reports_its_own_codes() {
    let mut memory = GuestMemory::new(vec![0; 8]);
    assert_eq!(request_adapter_spike(&mut memory, 5), -1);
    assert_eq!(request_adapter_spike(&mut memory, -4), -1);
    assert_eq!(memory.read_bytes(0, 8).unwrap(), vec![0; 8]);
    assert_eq!(request_adapter_spike_not_supported(0), -2);
    assert_eq!(waitable_set_wait_not_supported(1, 0), -1);
}

#[test]
fn nothing_of_the_namespace_is_allowed_by_default() {
    let mut memory = GuestMemory::new(vec![3; 32]);
    let mut env = env(false);
    let denied = WebgpuErrno::CapabilityDenied.to_i32();
    assert_eq!(denied, -2);
    assert_eq!(request_adapter_start(&mut env, 0), Err(denied));
    assert_eq!(waitable_set_new(&mut env, &mut memory, 0), denied);
    assert_eq!(waitable_join(&mut env, -1, -1), denied);
    assert_eq!(future_new(&mut env, &mut memory, 0), denied);
    assert_eq!(future_read(&env, &mut memory, -1, 0), denied);
    assert_eq!(future_resolve_after(&env, -1, 0, 0), Err(denied));
    assert_eq!(future_drop(&mut env, -1), denied);
    assert_eq!(subtask_drop(&mut env, -1), denied);
    assert!(matches!(waitable_set_wait(&mut env, &mut memory, 1, 0), WaitStep::Done(-2)));
    // A wait looks at its handle first.
    assert!(matches!(waitable_set_wait(&mut env, &mut memory, -1, 0), WaitStep::Done(-4)));
    assert_eq!(memory.into_bytes(), vec![3; 32]);
}

#[test]
fn bad_handles_are_refused() {
    let mut memory = GuestMemory::new(vec![0; 64]);
    let mut env = env(true);
    let bad = WebgpuErrno::BadHandle.to_i32();
    assert_eq!(future_new(&mut env, &mut memory, 0), 0);
    assert_eq!(waitable_set_new(&mut env, &mut memory, 4), 0);
    let (future, set) = (1, 2);
    for handle in [-1, 0, 9, set] {
        assert_eq!(future_drop(&mut env, handle), bad);
        assert_eq!(subtask_drop(&mut env, handle), bad);
        assert_eq!(future_read(&env, &mut memory, handle, 8), bad);
        assert_eq!(future_resolve_after(&env, handle, 1, 1), Err(bad));
        assert_eq!(waitable_join(&mut env, handle, set), bad);
    }
    for handle in [-1, 0, 9, future] {
        assert_eq!(waitable_join(&mut env, future, handle), bad);
        assert!(matches!(waitable_set_wait(&mut env, &mut memory, handle, 8), WaitStep::Done(-4)));
    }
}

#[test]
fn kinds_are_not_mixed_up() {
    let mut memory = GuestMemory::new(vec![0; 64]);
    let mut env = env(true);
    let bad = WebgpuErrno::BadHandle.to_i32();
    assert_eq!(future_new(&mut env, &mut memory, 0), 0);
    let task = request_adapter_start(&mut env, 0).unwrap();
    assert_eq!((task.handle, task.payload, task.delay_ms), (2, FAKE_ADAPTER_ID, 50));
    assert_eq!(request_adapter_spawned(&mut env, &mut memory, task, true, 4), 0);
    assert_eq!(memory.read_u32(4).unwrap(), 2);
    assert_eq!(subtask_drop(&mut env, 1), bad);
    assert_eq!(future_drop(&mut env, 2), bad);
    assert_eq!(future_read(&env, &mut memory, 2, 8), bad);
    assert_eq!(future_drop(&mut env, 1), 0);
    assert_eq!(future_drop(&mut env, 1), bad);
    assert_eq!(subtask_drop(&mut env, 2), 0);
    assert_eq!(subtask_drop(&mut env, 2), bad);
    // Background work that comes too late resolves nothing.
    task.complete(&mut env.state.webgpu);
    assert_eq!(subtask_drop(&mut env, 2), bad);
}

#[test]
fn a_ninth_waitable_does_not_fit_into_a_set() {
    let mut memory = GuestMemory::new(vec![0; 64]);
    let mut env = env(true);
    assert_eq!(waitable_set_new(&mut env, &mut memory, 0), 0);
    for handle in 2..10 {
        assert_eq!(future_new(&mut env, &mut memory, 4), 0);
        assert_eq!(waitable_join(&mut env, handle, 1), 0);
    }
    assert_eq!(future_new(&mut env, &mut memory, 4), 0);
    assert_eq!(waitable_join(&mut env, 10, 1), WebgpuErrno::SetOccupied.to_i32());
    assert_eq!(WebgpuErrno::SetOccupied.to_i32(), -5);
}

#[test]
fn a_wait_delivers_and_removes_the_first_resolved_member() {
    let mut memory = GuestMemory::new(vec![0; 64]);
    let mut env = env(true);
    assert_eq!(waitable_set_new(&mut env, &mut memory, 0), 0);
    assert!(matches!(waitable_set_wait(&mut env, &mut memory, 1, 8), WaitStep::Done(-6)));
    for handle in [2, 3] {
        assert_eq!(future_new(&mut env, &mut memory, 4), 0);
        assert_eq!(waitable_join(&mut env, handle, 1), 0);
    }
    match waitable_set_wait(&mut env, &mut memory, 1, 8) {
        WaitStep::Suspend(waits) => {
            let handles: Vec<u32> = waits.iter().map(|wait| wait.0).collect();
            assert_eq!(handles, vec![2, 3]);
        }
        WaitStep::Done(code) => panic!("the wait ended with {}", code),
    }
    future_resolve_after(&env, 3, -1, 1).unwrap().complete(&mut env.state.webgpu);
    // The event does not fit: nothing is delivered, and the member stays.
    assert!(matches!(waitable_set_wait(&mut env, &mut memory, 1, 57), WaitStep::Done(-3)));
    assert!(matches!(waitable_set_wait(&mut env, &mut memory, 1, 8), WaitStep::Done(0)));
    assert_eq!(memory.read_u32(8).unwrap(), 3);
    assert_eq!(memory.read_u32(12).unwrap(), u32::MAX);
    // The other member is still waited for, and the future keeps its value.
    assert!(matches!(waitable_set_wait(&mut env, &mut memory, 1, 8), WaitStep::Suspend(_)));
    assert_eq!(future_read(&env, &mut memory, 3, 16), 0);
    assert_eq!(memory.read_u32(16).unwrap(), u32::MAX);
    // A member that was released makes the wait fail.
    assert_eq!(future_drop(&mut env, 2), 0);
    assert!(matches!(waitable_set_wait(&mut env, &mut memory, 1, 8), WaitStep::Done(-4)));
}

#[test]
fn handles_stay_registered_where_they_cannot_be_written() {
    let mut memory = GuestMemory::new(vec![0; 8]);
    let mut env = env(true);
    let missing = WebgpuErrno::MissingMemory.to_i32();
    assert_eq!(future_new(&mut env, &mut memory, 5), missing);
    assert_eq!(waitable_set_new(&mut env, &mut memory, -1), missing);
    let task = request_adapter_start(&mut env, 7).unwrap();
    assert_eq!(task.delay_ms, 7);
    assert_eq!(request_adapter_spawned(&mut env, &mut memory, task, true, 8), missing);
    assert_eq!(waitable_join(&mut env, 1, 2), 0);
    assert_eq!(waitable_join(&mut env, 3, 2), 0);
    future_resolve_after(&env, 1, 5, 0).unwrap().complete(&mut env.state.webgpu);
    assert_eq!(future_read(&env, &mut memory, 1, 6), missing);
}

#[test]
fn a_request_without_a_task_pool_is_taken_back() {
    let mut memory = GuestMemory::new(vec![0; 8]);
    let mut env = env(true);
    let task = request_adapter_start(&mut env, 0).unwrap();
    assert_eq!(request_adapter_spawned(&mut env, &mut memory, task, false, 0), -1);
    assert_eq!(subtask_drop(&mut env, task.handle as i32), -4);
    assert_eq!(memory.read_u32(0).unwrap(), 0);
    assert_eq!(future_resolve_scheduled(false), -1);
    assert_eq!(future_resolve_scheduled(true), 0);
    // The handle is spent.
    assert_eq!(future_new(&mut env, &mut memory, 0), 0);
    assert_eq!(memory.read_u32(0).unwrap(), 2);
}

#[test]
fn a_future_can_be_filled_in_again() {
    let mut memory = GuestMemory::new(vec![0; 8]);
    let mut env = env(true);
    assert_eq!(future_new(&mut env, &mut memory, 0), 0);
    for value in [1, 2] {
        let task = future_resolve_after(&env, 1, value, 3).unwrap();
        assert_eq!(task, BackgroundTask { handle: 1, payload: value as u32, delay_ms: 3 });
        task.complete(&mut env.state.webgpu);
        assert_eq!(future_read(&env, &mut memory, 1, 4), 0);
        assert_eq!(memory.read_u32(4).unwrap(), value as u32);
    }
}

#[test]
fn integers_cross_the_boundary() {
    assert_eq!(guest_handle(0), Ok(0));
    assert_eq!(guest_handle(i32::MAX), Ok(i32::MAX as u32));
    assert_eq!(guest_handle(-1), Err(WebgpuErrno::BadHandle));
    assert_eq!(guest_delay(1), 1);
    assert_eq!(guest_delay(0), 50);
    assert_eq!(guest_delay(i32::MIN), 50);
    assert_eq!(status_of(Ok(())), 0);
    assert_eq!(status_of(Err(WebgpuErrno::TooManyHandles)), -7);
    assert_eq!(status_of(Err(WebgpuErrno::Blocked)), -8);
    let mut memory = GuestMemory::new(vec![0; 4]);
    assert_eq!(deliver(&mut memory, 0, 0x0403_0201), Ok(()));
    assert_eq!(deliver(&mut memory, 1, 7), Err(WebgpuErrno::MissingMemory));
    assert_eq!(memory.into_bytes(), vec![1, 2, 3, 4]);
}
