//! What a host function sees of the process that calls it: what the embedder
//! allows, and the tables that the process's threads share.

use vstd::prelude::*;

use crate::backend::{NnBackend, NnGraph};
use crate::state::nn::NnState;
use crate::state::webgpu::WebgpuState;

verus! {

/// What the embedder allows of `wasi_ephemeral_nn`.
#[derive(Debug, Clone, Copy, Default)]
pub struct CapabilityNnV1 {
    /// Whether the host functions may be used at all.
    pub allow: bool,
    /// Whether a graph may be loaded onto the GPU.
    pub allow_gpu: bool,
    /// The most bytes that the blobs of one model may have together.
    pub max_model_bytes: Option<u64>,
}

/// What the embedder allows of `wasi_webgpu_v0`.
#[derive(Debug, Clone, Copy, Default)]
pub struct CapabilityWebgpuSpikeV1 {
    /// Whether the host imports may be used at all.
    pub allow: bool,
}

/// What the embedder allows.
#[derive(Debug, Clone, Copy, Default)]
pub struct Capabilities {
    pub nn: CapabilityNnV1,
    pub webgpu_spike: CapabilityWebgpuSpikeV1,
}

/// The tables of a process, and the engine that its embedder set.
pub struct WasiState<B: NnBackend> {
    pub nn: NnState<B::Graph, <B::Graph as NnGraph>::Context>,
    pub nn_backend: B,
    pub webgpu: WebgpuState,
}

/// The process that a host function is called from.
pub struct WasiEnv<B: NnBackend> {
    pub capabilities: Capabilities,
    pub state: WasiState<B>,
}

impl<B: NnBackend> WasiEnv<B> {
    /// A process with empty tables.
    pub fn new(capabilities: Capabilities, nn_backend: B) -> (env: WasiEnv<B>)
        ensures
            env.capabilities == capabilities,
            env.state.nn_backend == nn_backend,
            env.state.nn@ == crate::state::nn::NnView::<B::Graph, <B::Graph as NnGraph>::Context>::empty(),
            env.state.webgpu@ == crate::state::webgpu::WebgpuView::empty(),
            env.wf(),
    {
        WasiEnv {
            capabilities,
            state: WasiState {
                nn: NnState::default(),
                nn_backend,
                webgpu: WebgpuState::default(),
            },
        }
    }

    /// Both tables are well formed.
    pub open spec fn wf(self) -> bool {
        self.state.nn@.wf() && self.state.webgpu@.wf()
    }

    /// `after` differs from this process in the `wasi_ephemeral_nn` tables at
    /// most.
    pub open spec fn changes_only_nn(self, after: WasiEnv<B>) -> bool {
        &&& after.capabilities == self.capabilities
        &&& after.state.nn_backend == self.state.nn_backend
        &&& after.state.webgpu == self.state.webgpu
    }

    /// `after` differs from this process in the `wasi_webgpu_v0` tables at most.
    pub open spec fn changes_only_webgpu(self, after: WasiEnv<B>) -> bool {
        &&& after.capabilities == self.capabilities
        &&& after.state.nn_backend == self.state.nn_backend
        &&& after.state.nn == self.state.nn
    }
}

/// A new process is allowed what its embedder allows and has its embedder's engine.
/// Its tables are empty, and no handle was issued.
pub proof fn law_a_new_process_has_empty_tables<B: NnBackend>(
    capabilities: Capabilities,
    nn_backend: B,
    env: WasiEnv<B>,
)
    requires
        call_ensures(WasiEnv::<B>::new, (capabilities, nn_backend), env),
    ensures
        env.capabilities == capabilities,
        env.state.nn_backend == nn_backend,
        env.state.nn@.issued == 0,
        forall|h: u32| !#[trigger] env.state.nn@.graphs.contains_key(h),
        forall|h: u32| !#[trigger] env.state.nn@.contexts.contains_key(h),
        env.state.webgpu@.issued == 0,
        forall|h: u32| !#[trigger] env.state.webgpu@.waitables.contains_key(h),
        forall|s: u32| !#[trigger] env.state.webgpu@.sets.contains_key(s),
{
}

} // verus!
