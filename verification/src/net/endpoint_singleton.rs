//! One network endpoint per process.
//!
//! An endpoint is created the first time one is asked for and reused for
//! every later request: it shares connections, discovery and the UDP socket.
//! [`EndpointSlot`] holds that decision; the caller keeps one slot for the
//! process, creates the endpoint when told to and hands it in.

use vstd::prelude::*;

verus! {

/// The process's endpoint, once it has been created.
pub struct EndpointSlot<E> {
    endpoint: Option<E>,
}

impl<E> View for EndpointSlot<E> {
    type V = Option<E>;

    closed spec fn view(&self) -> Option<E> {
        self.endpoint
    }
}

/// What to do when an endpoint is asked for.
#[derive(Clone, Copy, Debug, PartialEq, Eq, Structural)]
pub enum EndpointStep {
    /// Hand out the endpoint that exists.
    Reuse,
    /// Create the endpoint and install it.
    Create,
}

/// What to do when an endpoint is asked for, given the slot.
pub open spec fn endpoint_step<E>(slot: Option<E>) -> EndpointStep {
    if slot is Some {
        EndpointStep::Reuse
    } else {
        EndpointStep::Create
    }
}

/// The slot after `e` is offered to it: the first endpoint installed stays.
pub open spec fn offer_endpoint<E>(slot: Option<E>, e: E) -> Option<E> {
    if slot is Some {
        slot
    } else {
        Some(e)
    }
}

impl<E> EndpointSlot<E> {
    /// An empty slot: no endpoint has been created yet.
    pub fn new() -> (s: Self)
        ensures
            s@ is None,
    {
        EndpointSlot { endpoint: None }
    }

    /// The endpoint, once created.
    pub fn get(&self) -> (r: Option<&E>)
        ensures
            match r {
                Some(e) => self@ == Some(*e),
                None => self@ is None,
            },
    {
        match &self.endpoint {
            Some(e) => Some(e),
            None => None,
        }
    }

    /// What to do when an endpoint is asked for.
    pub fn step(&self) -> (s: EndpointStep)
        ensures
            s == endpoint_step(self@),
    {
        if self.endpoint.is_some() {
            EndpointStep::Reuse
        } else {
            EndpointStep::Create
        }
    }

    /// Installs a newly created endpoint unless one is already there (the
    /// one already there stays); says whether `e` was installed.
    pub fn install(&mut self, e: E) -> (installed: bool)
        ensures
            final(self)@ == offer_endpoint(old(self)@, e),
            installed == (old(self)@ is None),
    {
        if self.endpoint.is_some() {
            false
        } else {
            self.endpoint = Some(e);
            true
        }
    }
}

/// Whether the endpoint has been created.
pub fn is_initialized<E>(slot: &EndpointSlot<E>) -> (b: bool)
    ensures
        b == (slot@ is Some),
{
    slot.endpoint.is_some()
}

/// Once created, the endpoint stays and every later request reuses it:
/// offering more endpoints never replaces it.
pub proof fn lemma_endpoint_is_kept<E>(slot: Option<E>, offers: Seq<E>)
    requires
        slot is Some,
    ensures
        offers.fold_left(slot, |s: Option<E>, e: E| offer_endpoint(s, e)) == slot,
        endpoint_step(slot) == EndpointStep::Reuse,
    decreases offers.len(),
{
    if offers.len() > 0 {
        lemma_endpoint_is_kept(slot, offers.drop_last());
    }
}

/// The first endpoint offered to an empty slot is the one kept.
pub proof fn lemma_first_endpoint_wins<E>(e: E, later: Seq<E>)
    ensures
        later.fold_left(offer_endpoint(None::<E>, e), |s: Option<E>, x: E| offer_endpoint(s, x)) == Some(e),
{
    lemma_endpoint_is_kept(Some(e), later);
}

} // verus!
