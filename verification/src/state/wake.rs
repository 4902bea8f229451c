//! Waking whoever waits on a waitable.

use std::sync::Arc;

use tokio::sync::Notify;
use vstd::prelude::*;

verus! {

/// `tokio::sync::Notify`, carried as an opaque value.
#[verifier::external_type_specification]
#[verifier::external_body]
pub struct ExNotify(Notify);

/// The evidence that a `Notify` was woken. Only [`wake`] makes one.
#[derive(Debug)]
pub struct Woken {
    notify: Arc<Notify>,
}

impl View for Woken {
    type V = Arc<Notify>;

    closed spec fn view(&self) -> Arc<Notify> {
        self.notify
    }
}

/// `Notify::notify_one` wakes one waiter, or stores a permit for the next one, so
/// that a waiter that looks first and awaits then is woken too. The effect is
/// inside the `Notify` and shows in no value: what is claimed is that the call
/// was made, on this `Notify`.
#[verifier::external_body]
pub(crate) fn wake(notify: Arc<Notify>) -> (woken: Woken)
    ensures
        woken@ == notify,
{
    notify.notify_one();
    Woken { notify }
}

} // verus!
