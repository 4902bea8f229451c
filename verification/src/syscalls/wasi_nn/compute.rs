//! `compute`: running an inference.

use vstd::prelude::*;

use crate::backend::{NnBackend, NnExecutionContext, NnGraph};
use crate::env::WasiEnv;
use crate::types::{nn_errno_of, NnErrno};

verus! {

/// `compute()`: runs inference on execution context `context`.
pub fn nn_compute<B: NnBackend>(env: &mut WasiEnv<B>, context: u32) -> (code: u32)
    ensures
        old(env).changes_only_nn(*final(env)),
        if !old(env).capabilities.nn.allow {
            code == NnErrno::UnsupportedOperation.code() && *final(env) == *old(env)
        } else if !old(env).state.nn@.contexts.contains_key(context) {
            code == NnErrno::NotFound.code() && final(env).state.nn@ == old(env).state.nn@
        } else {
            exists|after: <B::Graph as NnGraph>::Context, result: Result<(), NnErrno>|
                {
                    &&& #[trigger] <B::Graph as NnGraph>::Context::compute_outcome(
                        old(env).state.nn@.contexts[context],
                        after,
                        result,
                    )
                    &&& final(env).state.nn@ == old(env).state.nn@.with_context(context, after)
                    &&& code == crate::types::nn_return(result)
                }
        },
        old(env).wf() ==> final(env).wf(),
{
    if !env.capabilities.nn.allow {
        return NnErrno::UnsupportedOperation.to_u32();
    }
    match env.state.nn.context_mut(context) {
        Some(exec_ctx) => {
            let result = exec_ctx.compute();
            nn_errno_of(result)
        },
        None => NnErrno::NotFound.to_u32(),
    }
}

} // verus!
