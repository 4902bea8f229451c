//! Handle tables of the `wasi_ephemeral_nn` host functions.

use std::collections::hash_map::Entry;
use std::collections::HashMap;

use vstd::prelude::*;

use crate::types::NnErrno;

verus! {

broadcast use vstd::std_specs::hash::group_hash_axioms;

/// What the tables hold: the last handle issued, and the graphs and execution
/// contexts under their handles.
#[verifier::ext_equal]
#[verifier::reject_recursive_types(G)]
#[verifier::reject_recursive_types(C)]
pub struct NnView<G, C> {
    pub issued: u32,
    pub graphs: Map<u32, G>,
    pub contexts: Map<u32, C>,
}

impl<G, C> NnView<G, C> {
    /// Tables in which nothing was ever registered.
    pub open spec fn empty() -> NnView<G, C> {
        NnView { issued: 0, graphs: Map::empty(), contexts: Map::empty() }
    }

    /// Every handle in the tables was issued, and none names both a graph and
    /// a context.
    pub open spec fn wf(self) -> bool {
        &&& forall|h: u32| #[trigger] self.graphs.contains_key(h) ==> 0 < h <= self.issued
        &&& forall|h: u32| #[trigger] self.contexts.contains_key(h) ==> 0 < h <= self.issued
        &&& forall|h: u32| #[trigger] self.graphs.contains_key(h) ==> !self.contexts.contains_key(h)
    }

    /// The next handle, if there is one left.
    pub open spec fn next_handle(self) -> Result<u32, NnErrno> {
        if self.issued < u32::MAX {
            Ok((self.issued + 1) as u32)
        } else {
            Err(NnErrno::TooLarge)
        }
    }

    /// The tables after `graph` was registered.
    pub open spec fn insert_graph(self, graph: G) -> NnView<G, C> {
        match self.next_handle() {
            Ok(handle) => NnView {
                issued: handle,
                graphs: self.graphs.insert(handle, graph),
                contexts: self.contexts,
            },
            Err(_) => self,
        }
    }

    /// The tables after `context` was registered.
    pub open spec fn insert_context(self, context: C) -> NnView<G, C> {
        match self.next_handle() {
            Ok(handle) => NnView {
                issued: handle,
                graphs: self.graphs,
                contexts: self.contexts.insert(handle, context),
            },
            Err(_) => self,
        }
    }

    /// The tables with `context` in the place of the context `handle`.
    pub open spec fn with_context(self, handle: u32, context: C) -> NnView<G, C> {
        NnView { contexts: self.contexts.insert(handle, context), ..self }
    }
}

/// The handle tables.
#[verifier::reject_recursive_types(G)]
#[verifier::reject_recursive_types(C)]
pub struct NnState<G, C> {
    seed: u32,
    graphs: HashMap<u32, G>,
    contexts: HashMap<u32, C>,
}

impl<G, C> View for NnState<G, C> {
    type V = NnView<G, C>;

    closed spec fn view(&self) -> NnView<G, C> {
        NnView { issued: self.seed, graphs: self.graphs@, contexts: self.contexts@ }
    }
}

impl<G, C> Default for NnState<G, C> {
    fn default() -> (state: NnState<G, C>)
        ensures
            state@ == NnView::<G, C>::empty(),
            state@.wf(),
    {
        NnState { seed: 0, graphs: HashMap::new(), contexts: HashMap::new() }
    }
}

impl<G, C> NnState<G, C> {
    /// Issues the next handle: one more than the last, and an error once there
    /// is no such `u32`.
    fn next_handle(&mut self) -> (result: Result<u32, NnErrno>)
        ensures
            result == old(self)@.next_handle(),
            final(self)@ == (NnView {
                issued: match result {
                    Ok(handle) => handle,
                    Err(_) => old(self)@.issued,
                },
                ..old(self)@
            }),
    {
        match self.seed.checked_add(1) {
            Some(id) => {
                self.seed = id;
                Ok(id)
            },
            None => Err(NnErrno::TooLarge),
        }
    }

    /// Registers `graph` and returns its handle.
    pub fn insert_graph(&mut self, graph: G) -> (result: Result<u32, NnErrno>)
        ensures
            result == old(self)@.next_handle(),
            final(self)@ == old(self)@.insert_graph(graph),
            old(self)@.wf() ==> final(self)@.wf(),
    {
        match self.next_handle() {
            Ok(id) => {
                self.graphs.insert(id, graph);
                Ok(id)
            },
            Err(errno) => Err(errno),
        }
    }

    /// The graph that was registered under `handle`.
    pub fn graph(&self, handle: u32) -> (found: Option<&G>)
        ensures
            match found {
                Some(graph) => self@.graphs.contains_key(handle) && *graph == self@.graphs[handle],
                None => !self@.graphs.contains_key(handle),
            },
    {
        self.graphs.get(&handle)
    }

    /// Registers `context` and returns its handle.
    pub fn insert_context(&mut self, context: C) -> (result: Result<u32, NnErrno>)
        ensures
            result == old(self)@.next_handle(),
            final(self)@ == old(self)@.insert_context(context),
            old(self)@.wf() ==> final(self)@.wf(),
    {
        match self.next_handle() {
            Ok(id) => {
                self.contexts.insert(id, context);
                Ok(id)
            },
            Err(errno) => Err(errno),
        }
    }

    /// The context that was registered under `handle`.
    pub fn context(&self, handle: u32) -> (found: Option<&C>)
        ensures
            match found {
                Some(context) => self@.contexts.contains_key(handle) && *context == self@.contexts[handle],
                None => !self@.contexts.contains_key(handle),
            },
    {
        self.contexts.get(&handle)
    }

    /// The context that was registered under `handle`, to be changed in place.
    pub fn context_mut(&mut self, handle: u32) -> (found: Option<&mut C>)
        ensures
            match found {
                Some(context) => {
                    &&& old(self)@.contexts.contains_key(handle)
                    &&& *context == old(self)@.contexts[handle]
                    &&& final(self)@ == old(self)@.with_context(handle, *final(context))
                },
                None => !old(self)@.contexts.contains_key(handle) && final(self)@ == old(self)@,
            },
    {
        match self.contexts.entry(handle) {
            Entry::Occupied(entry) => Some(entry.into_mut()),
            Entry::Vacant(_) => None,
        }
    }

    /// How many graphs are registered.
    pub fn graph_count(&self) -> (count: usize)
        ensures
            count == self@.graphs.len(),
    {
        self.graphs.len()
    }

    /// How many contexts are registered.
    pub fn context_count(&self) -> (count: usize)
        ensures
            count == self@.contexts.len(),
    {
        self.contexts.len()
    }
}

/// A handle that is issued is new: no graph and no context has it.
pub proof fn law_issued_handles_are_fresh<G, C>(view: NnView<G, C>)
    requires
        view.wf(),
        view.next_handle() is Ok,
    ensures
        view.next_handle()->Ok_0 > 0,
        !view.graphs.contains_key(view.next_handle()->Ok_0),
        !view.contexts.contains_key(view.next_handle()->Ok_0),
{
}

/// A registered graph is found under its handle, no entry that was there before
/// is lost or changed, and the tables stay well formed.
pub proof fn law_graph_is_found_after_insert<G, C>(view: NnView<G, C>, graph: G, other: u32)
    requires
        view.wf(),
        view.next_handle() is Ok,
    ensures
        view.insert_graph(graph).wf(),
        view.insert_graph(graph).graphs.contains_key(view.next_handle()->Ok_0),
        view.insert_graph(graph).graphs[view.next_handle()->Ok_0] == graph,
        view.graphs.contains_key(other) ==> view.insert_graph(graph).graphs.contains_key(other)
            && view.insert_graph(graph).graphs[other] == view.graphs[other],
        view.insert_graph(graph).contexts == view.contexts,
{
}

/// A registered context is found under its handle, no entry that was there
/// before is lost or changed, and the tables stay well formed.
pub proof fn law_context_is_found_after_insert<G, C>(view: NnView<G, C>, context: C, other: u32)
    requires
        view.wf(),
        view.next_handle() is Ok,
    ensures
        view.insert_context(context).wf(),
        view.insert_context(context).contexts.contains_key(view.next_handle()->Ok_0),
        view.insert_context(context).contexts[view.next_handle()->Ok_0] == context,
        view.contexts.contains_key(other) ==> view.insert_context(context).contexts.contains_key(other)
            && view.insert_context(context).contexts[other] == view.contexts[other],
        view.insert_context(context).graphs == view.graphs,
{
}

/// Handles only ever grow, across both tables: what is issued after a handle is
/// greater than it.
pub proof fn law_handles_grow<G, C>(view: NnView<G, C>, graph: G, context: C)
    requires
        view.next_handle() is Ok,
    ensures
        view.insert_graph(graph).issued == view.next_handle()->Ok_0,
        view.insert_context(context).issued == view.next_handle()->Ok_0,
        view.next_handle()->Ok_0 > view.issued,
        view.insert_graph(graph).next_handle() is Ok ==> view.insert_graph(graph).next_handle()->Ok_0
            > view.next_handle()->Ok_0,
        view.insert_context(context).next_handle() is Ok ==> view.insert_context(
            context,
        ).next_handle()->Ok_0 > view.next_handle()->Ok_0,
{
}

/// New tables hold nothing, and no handle was issued.
pub proof fn law_new_tables_are_empty<G, C>(state: NnState<G, C>, graphs: usize, contexts: usize)
    requires
        call_ensures(<NnState<G, C> as Default>::default, (), state),
        call_ensures(NnState::<G, C>::graph_count, (&state,), graphs),
        call_ensures(NnState::<G, C>::context_count, (&state,), contexts),
    ensures
        state@.issued == 0,
        forall|h: u32| !#[trigger] state@.graphs.contains_key(h),
        forall|h: u32| !#[trigger] state@.contexts.contains_key(h),
        graphs == 0,
        contexts == 0,
{
}

/// A graph is registered exactly where a handle is left: under the one behind the
/// last, and nothing else changes. Otherwise nothing changes at all.
pub proof fn law_a_graph_is_registered_under_the_next_handle<G, C>(
    state: &mut NnState<G, C>,
    graph: G,
    result: Result<u32, NnErrno>,
)
    requires
        call_ensures(NnState::<G, C>::insert_graph, (state, graph), result),
    ensures
        result is Ok <==> old(state)@.issued < u32::MAX,
        result is Err ==> result->Err_0 == NnErrno::TooLarge && final(state)@ == old(state)@,
        result is Ok ==> {
            &&& result->Ok_0 == old(state)@.issued + 1
            &&& final(state)@.issued == old(state)@.issued + 1
            &&& final(state)@.graphs == old(state)@.graphs.insert(result->Ok_0, graph)
            &&& final(state)@.contexts == old(state)@.contexts
        },
{
}

/// A context is registered exactly where a handle is left: under the one behind
/// the last, and nothing else changes. Otherwise nothing changes at all.
pub proof fn law_a_context_is_registered_under_the_next_handle<G, C>(
    state: &mut NnState<G, C>,
    context: C,
    result: Result<u32, NnErrno>,
)
    requires
        call_ensures(NnState::<G, C>::insert_context, (state, context), result),
    ensures
        result is Ok <==> old(state)@.issued < u32::MAX,
        result is Err ==> result->Err_0 == NnErrno::TooLarge && final(state)@ == old(state)@,
        result is Ok ==> {
            &&& result->Ok_0 == old(state)@.issued + 1
            &&& final(state)@.issued == old(state)@.issued + 1
            &&& final(state)@.contexts == old(state)@.contexts.insert(result->Ok_0, context)
            &&& final(state)@.graphs == old(state)@.graphs
        },
{
}

/// A lookup finds exactly what is registered under the handle.
pub proof fn law_lookups_find_what_is_registered<G, C>(
    state: &NnState<G, C>,
    handle: u32,
    graph: Option<&G>,
    context: Option<&C>,
)
    requires
        call_ensures(NnState::<G, C>::graph, (state, handle), graph),
        call_ensures(NnState::<G, C>::context, (state, handle), context),
    ensures
        graph is Some <==> state@.graphs.contains_key(handle),
        graph is Some ==> *graph->0 == state@.graphs[handle],
        context is Some <==> state@.contexts.contains_key(handle),
        context is Some ==> *context->0 == state@.contexts[handle],
{
}

/// Putting a context in the place of another changes that one entry and nothing
/// else.
pub proof fn law_a_context_is_changed_in_place<G, C>(view: NnView<G, C>, handle: u32, context: C)
    requires
        view.contexts.contains_key(handle),
    ensures
        view.with_context(handle, context).issued == view.issued,
        view.with_context(handle, context).graphs == view.graphs,
        view.with_context(handle, context).contexts.dom() == view.contexts.dom(),
        view.with_context(handle, context).contexts[handle] == context,
        forall|other: u32|
            other != handle && view.contexts.contains_key(other) ==> #[trigger] view.with_context(
                handle,
                context,
            ).contexts[other] == view.contexts[other],
{
    assert(view.with_context(handle, context).contexts.dom() =~= view.contexts.dom());
}

/// The entries of each table are counted, each once.
pub proof fn law_entries_are_counted<G, C>(state: &NnState<G, C>, graphs: usize, contexts: usize)
    requires
        call_ensures(NnState::<G, C>::graph_count, (state,), graphs),
        call_ensures(NnState::<G, C>::context_count, (state,), contexts),
    ensures
        graphs == state@.graphs.dom().len(),
        contexts == state@.contexts.dom().len(),
{
}

} // verus!
