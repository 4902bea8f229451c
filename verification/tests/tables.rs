use wasi_nn_host::memory::{guest_offset, push_u32, GuestMemory, OutOfBounds};
use wasi_nn_host::state::nn::NnState;
use wasi_nn_host::state::webgpu::{
    WaitOutcome, WaitableKind, WebgpuErrno, WebgpuState, MAX_WAITABLES_PER_SET,
};
use wasi_nn_host::types::{nn_errno_of, ExecutionTarget, GraphEncoding, NnErrno, TensorType};

#[test]
fn errnos_have_their_codes() {
    let all = [
        NnErrno::Success,
        NnErrno::InvalidArgument,
        NnErrno::InvalidEncoding,
        NnErrno::MissingMemory,
        NnErrno::Busy,
        NnErrno::RuntimeError,
        NnErrno::UnsupportedOperation,
        NnErrno::TooLarge,
        NnErrno::NotFound,
    ];
    for (code, errno) in all.iter().enumerate() {
        assert_eq!(errno.to_u32(), code as u32);
    }
    assert_eq!(nn_errno_of(Ok(())), 0);
    assert_eq!(nn_errno_of(Err(NnErrno::NotFound)), 8);
    let all = [
        WebgpuErrno::Success,
        WebgpuErrno::Unsupported,
        WebgpuErrno::CapabilityDenied,
        WebgpuErrno::MissingMemory,
        WebgpuErrno::BadHandle,
        WebgpuErrno::SetOccupied,
        WebgpuErrno::SetEmpty,
        WebgpuErrno::TooManyHandles,
        WebgpuErrno::Blocked,
    ];
    for (code, errno) in all.iter().enumerate() {
        assert_eq!(errno.to_i32(), -(code as i32));
    }
}

#[test]
fn tags_decode_to_what_carries_them() {
    assert_eq!(GraphEncoding::try_from(0), Ok(GraphEncoding::Openvino));
    assert_eq!(GraphEncoding::try_from(1), Ok(GraphEncoding::Onnx));
    assert_eq!(GraphEncoding::try_from(2), Ok(GraphEncoding::Tensorflow));
    assert_eq!(GraphEncoding::try_from(3), Ok(GraphEncoding::Pytorch));
    assert_eq!(GraphEncoding::try_from(4), Ok(GraphEncoding::Tensorflowlite));
    assert_eq!(GraphEncoding::try_from(5), Ok(GraphEncoding::Autodetect));
    assert_eq!(GraphEncoding::try_from(6), Err(NnErrno::InvalidArgument));
    assert_eq!(ExecutionTarget::try_from(0), Ok(ExecutionTarget::Cpu));
    assert_eq!(ExecutionTarget::try_from(1), Ok(ExecutionTarget::Gpu));
    assert_eq!(ExecutionTarget::try_from(2), Ok(ExecutionTarget::Tpu));
    assert_eq!(ExecutionTarget::try_from(3), Err(NnErrno::InvalidArgument));
    for tag in 0..6 {
        assert_eq!(TensorType::try_from(tag).unwrap() as u8, tag);
    }
    assert_eq!(TensorType::try_from(255), Err(NnErrno::InvalidArgument));
}

#[test]
fn memory_is_little_endian_and_bounded() {
    let mut memory = GuestMemory::new(vec![0; 8]);
    assert_eq!(memory.size(), 8);
    assert_eq!(memory.write_u32(3, 0x0a0b_0c0d), Ok(()));
    assert_eq!(memory.read_bytes(0, 8).unwrap(), vec![0, 0, 0, 0x0d, 0x0c, 0x0b, 0x0a, 0]);
    assert_eq!(memory.read_u32(3), Ok(0x0a0b_0c0d));
    assert_eq!(memory.read_u32(5), Err(OutOfBounds));
    assert_eq!(memory.write_u32(5, 1), Err(OutOfBounds));
    assert_eq!(memory.write_bytes(8, &[]), Ok(()));
    assert_eq!(memory.write_bytes(9, &[]), Err(OutOfBounds));
    assert_eq!(memory.read_bytes(u32::MAX, u32::MAX), Err(OutOfBounds));
    assert_eq!(memory.read_u32s(0, 2).unwrap(), vec![0x0d00_0000, 0x000a_0b0c]);
    assert_eq!(memory.read_u32s(1, 2), Err(OutOfBounds));
    assert_eq!(memory.read_u32s(0, u32::MAX), Err(OutOfBounds));
    assert_eq!(guest_offset(-1), u32::MAX);
    assert_eq!(guest_offset(i32::MIN), 0x8000_0000);
    assert_eq!(guest_offset(17), 17);
    let mut bytes = vec![9];
    push_u32(&mut bytes, 258);
    assert_eq!(bytes, vec![9, 2, 1, 0, 0]);
}

#[test]
fn graphs_and_contexts_share_one_counter() {
    let mut nn: NnState<&str, Vec<u8>> = NnState::default();
    assert_eq!(nn.graph(1), None);
    assert_eq!(nn.insert_graph("a"), Ok(1));
    assert_eq!(nn.insert_context(vec![1]), Ok(2));
    assert_eq!(nn.insert_graph("b"), Ok(3));
    assert_eq!((nn.graph_count(), nn.context_count()), (2, 1));
    assert_eq!(nn.graph(1), Some(&"a"));
    assert_eq!(nn.graph(3), Some(&"b"));
    assert_eq!(nn.graph(2), None);
    assert_eq!(nn.context(1), None);
    nn.context_mut(2).unwrap().push(5);
    assert_eq!(nn.context(2), Some(&vec![1, 5]));
    assert!(nn.context_mut(3).is_none());
}

#[test]
fn waitables_live_their_life() {
    let mut webgpu = WebgpuState::default();
    let future = webgpu.insert_pending(WaitableKind::Future).unwrap();
    let subtask = webgpu.insert_pending(WaitableKind::Subtask).unwrap();
    assert_eq!((future, subtask), (1, 2));
    assert_eq!(webgpu.read_future(future), Ok(None));
    assert_eq!(webgpu.read_future(subtask), Err(WebgpuErrno::BadHandle));
    webgpu.resolve_waitable(future, 11);
    assert_eq!(webgpu.read_future(future), Ok(Some(11)));
    assert_eq!(
        webgpu.drop_waitable(future, WaitableKind::Subtask),
        Err(WebgpuErrno::BadHandle)
    );
    assert_eq!(webgpu.drop_waitable(future, WaitableKind::Future), Ok(()));
    assert_eq!(webgpu.read_future(future), Err(WebgpuErrno::BadHandle));
    // Released for good: resolving it does nothing, and its handle is not
    // issued again.
    webgpu.resolve_waitable(future, 12);
    assert_eq!(webgpu.read_future(future), Err(WebgpuErrno::BadHandle));
    assert_eq!(webgpu.insert_pending(WaitableKind::Future), Ok(3));
}

#[test]
fn sets_hold_their_members_in_order() {
    let mut webgpu = WebgpuState::default();
    let set = webgpu.new_waitable_set().unwrap();
    assert_eq!(webgpu.poll_wait(set).unwrap_err(), WebgpuErrno::SetEmpty);
    assert_eq!(webgpu.poll_wait(99).unwrap_err(), WebgpuErrno::BadHandle);
    let mut members = Vec::new();
    for i in 0..MAX_WAITABLES_PER_SET {
        let kind = if i % 2 == 0 { WaitableKind::Future } else { WaitableKind::Subtask };
        let member = webgpu.insert_pending(kind).unwrap();
        assert_eq!(webgpu.join(member, set), Ok(()));
        members.push(member);
    }
    let one_more = webgpu.insert_pending(WaitableKind::Subtask).unwrap();
    assert_eq!(webgpu.join(one_more, set), Err(WebgpuErrno::SetOccupied));
    match webgpu.poll_wait(set).unwrap() {
        WaitOutcome::Pending(waits) => {
            assert_eq!(waits.iter().map(|wait| wait.0).collect::<Vec<u32>>(), members);
        }
        WaitOutcome::Ready(_, _) => panic!("nothing has resolved"),
    }
    webgpu.resolve_waitable(members[5], 55);
    webgpu.resolve_waitable(members[3], 33);
    // The first in the order of joining, not of resolving.
    match webgpu.poll_wait(set).unwrap() {
        WaitOutcome::Ready(handle, payload) => assert_eq!((handle, payload), (members[3], 33)),
        WaitOutcome::Pending(_) => panic!("two have resolved"),
    }
    webgpu.remove_from_set(set, members[3]);
    match webgpu.poll_wait(set).unwrap() {
        WaitOutcome::Ready(handle, payload) => assert_eq!((handle, payload), (members[5], 55)),
        WaitOutcome::Pending(_) => panic!("one has resolved"),
    }
    // There is room again, and the waitable that left can come back.
    assert_eq!(webgpu.join(members[3], set), Ok(()));
    webgpu.remove_from_set(99, members[3]);
    assert_eq!(webgpu.drop_waitable(members[0], WaitableKind::Future), Ok(()));
    assert_eq!(webgpu.poll_wait(set).unwrap_err(), WebgpuErrno::BadHandle);
}

#[test]
fn an_event_is_delivered_through_one_set_only() {
    let mut webgpu = WebgpuState::default();
    let first = webgpu.new_waitable_set().unwrap();
    let second = webgpu.new_waitable_set().unwrap();
    let future = webgpu.insert_pending(WaitableKind::Future).unwrap();
    let other = webgpu.insert_pending(WaitableKind::Subtask).unwrap();
    for (waitable, set) in [(future, first), (future, second), (other, second), (future, second)] {
        assert_eq!(webgpu.join(waitable, set), Ok(()));
    }
    webgpu.resolve_waitable(future, 5);
    assert!(matches!(webgpu.poll_wait(first), Ok(WaitOutcome::Ready(_, 5))));
    webgpu.remove_from_set(first, future);
    assert_eq!(webgpu.poll_wait(first).unwrap_err(), WebgpuErrno::SetEmpty);
    match webgpu.poll_wait(second).unwrap() {
        WaitOutcome::Pending(waits) => {
            assert_eq!(waits.iter().map(|wait| wait.0).collect::<Vec<u32>>(), vec![other]);
        }
        WaitOutcome::Ready(_, _) => panic!("the event was delivered already"),
    }
    assert_eq!(webgpu.read_future(future), Ok(Some(5)));
    // A waitable that was released is not taken out.
    assert_eq!(webgpu.drop_waitable(other, WaitableKind::Subtask), Ok(()));
    webgpu.remove_from_set(second, other);
    assert_eq!(webgpu.poll_wait(second).unwrap_err(), WebgpuErrno::BadHandle);
}

#[test]
fn a_waiter_is_woken_by_the_resolution() {
    let runtime = tokio::runtime::Builder::new_multi_thread().enable_all().build().unwrap();
    let mut webgpu = WebgpuState::default();
    let set = webgpu.new_waitable_set().unwrap();
    let future = webgpu.insert_pending(WaitableKind::Future).unwrap();
    assert_eq!(webgpu.join(future, set), Ok(()));
    let waits = match webgpu.poll_wait(set).unwrap() {
        WaitOutcome::Pending(waits) => waits,
        WaitOutcome::Ready(_, _) => panic!("nothing has resolved"),
    };
    // The resolution comes before the await, and its permit is kept. It wakes
    // once.
    assert!(webgpu.resolve_waitable(future, 1).is_some());
    assert!(webgpu.resolve_waitable(future, 2).is_none());
    assert!(webgpu.resolve_waitable(99, 3).is_none());
    runtime.block_on(async move { waits[0].1.notified().await });
}
