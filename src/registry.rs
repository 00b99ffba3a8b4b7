//! The supervisor's table of live sessions and the drawing of session ids.
use vstd::prelude::*;

use rand::rngs::{OsRng, StdRng};
use rand::{RngCore, SeedableRng};
use std::collections::HashMap;

use crate::error;
use crate::session::SessionId;

verus! {

broadcast use vstd::std_specs::hash::group_hash_axioms;

#[verifier::external_type_specification]
#[verifier::external_body]
pub struct ExStdRng(StdRng);

/// Relies on rand's SeedableRng::from_rng for StdRng, seeded from OsRng:
/// a generator, or `None` where the operating system's entropy source fails.
#[verifier::external_body]
fn rng_from_os() -> (r: Option<StdRng>) {
    match StdRng::from_rng(OsRng) {
        Ok(rng) => Some(rng),
        Err(_) => None,
    }
}

/// Relies on rand's RngCore::next_u32 for StdRng: some 32-bit value.
#[verifier::external_body]
fn draw_u32(rng: &mut StdRng) -> (r: u32) {
    rng.next_u32()
}

/// How many draws a fresh session id may take before giving up.
pub const MAX_ID_DRAWS: u32 = 1024;

/// Live sessions by id, each with the handle its owner keeps for it.
pub struct SessionRegistry<H> {
    sessions: HashMap<u32, H>,
    id_rng: StdRng,
}

impl<H> SessionRegistry<H> {
    /// The live sessions.
    pub closed spec fn live(&self) -> Map<u32, H> {
        self.sessions@
    }

    /// An empty table with a generator seeded from the operating system;
    /// `Io` when the entropy source fails.
    pub fn new() -> (r: Result<Self, error::Error>)
        ensures
            r matches Ok(t) ==> t.live().is_empty(),
            r matches Err(e) ==> e == error::Error::Io,
    {
        match rng_from_os() {
            Some(id_rng) => Ok(SessionRegistry { sessions: HashMap::new(), id_rng }),
            None => Err(error::Error::Io),
        }
    }

    pub fn len(&self) -> (r: usize)
        ensures
            r == self.live().len(),
    {
        self.sessions.len()
    }

    pub fn contains(&self, id: SessionId) -> (r: bool)
        ensures
            r == self.live().contains_key(id.0),
    {
        self.sessions.contains_key(&id.0)
    }

    /// Decides on a drawn id: it is taken unless a live session holds it.
    pub fn accept_candidate(&self, candidate: u32) -> (r: Option<SessionId>)
        ensures
            r == (if self.live().contains_key(candidate) {
                None
            } else {
                Some(SessionId(candidate))
            }),
    {
        if self.sessions.contains_key(&candidate) {
            None
        } else {
            Some(SessionId(candidate))
        }
    }

    /// Draws random ids until one is free; `None` only if every one of
    /// `MAX_ID_DRAWS` draws hit a live session.
    pub fn next_session_id(&mut self) -> (r: Option<SessionId>)
        ensures
            final(self).live() == old(self).live(),
            r matches Some(id) ==> !old(self).live().contains_key(id.0),
            old(self).live().is_empty() ==> r is Some,
    {
        let mut tries: u32 = 0;
        while tries < MAX_ID_DRAWS
            invariant
                self.live() == old(self).live(),
                old(self).live().is_empty() ==> tries == 0,
            decreases MAX_ID_DRAWS - tries,
        {
            let candidate = draw_u32(&mut self.id_rng);
            match self.accept_candidate(candidate) {
                Some(id) => return Some(id),
                None => {},
            }
            tries = tries + 1;
        }
        None
    }

    /// Records a spawned session under a fresh id.
    pub fn insert(&mut self, id: SessionId, handle: H)
        requires
            !old(self).live().contains_key(id.0),
        ensures
            final(self).live() == old(self).live().insert(id.0, handle),
            final(self).live().dom() == old(self).live().dom().insert(id.0),
    {
        self.sessions.insert(id.0, handle);
    }

    /// A session reported its end: it leaves the table, and its handle, if
    /// it was still there, is handed back to be stopped and joined.
    pub fn remove(&mut self, id: SessionId) -> (r: Option<H>)
        ensures
            !final(self).live().contains_key(id.0),
            final(self).live() == old(self).live().remove(id.0),
            final(self).live().dom() == old(self).live().dom().remove(id.0),
            old(self).live().contains_key(id.0) ==> r == Some(old(self).live()[id.0]),
            !old(self).live().contains_key(id.0) ==> r is None,
    {
        self.sessions.remove(&id.0)
    }

    /// Empties the table on shutdown and hands back every live session.
    pub fn take_all(&mut self) -> (r: HashMap<u32, H>)
        ensures
            r@ == old(self).live(),
            final(self).live().is_empty(),
    {
        let mut all: HashMap<u32, H> = HashMap::new();
        core::mem::swap(&mut all, &mut self.sessions);
        all
    }
}

/// What the supervisor did to the table: a session spawned under an id, or
/// the `Disconnect` of an id handled.
pub enum TableOp {
    Spawn(u32),
    Disconnect(u32),
}

/// The ids live after the operations, as `insert` and `remove` change them.
pub open spec fn live_after(ops: Seq<TableOp>) -> Set<u32>
    decreases ops.len(),
{
    if ops.len() == 0 {
        Set::empty()
    } else {
        match ops.last() {
            TableOp::Spawn(id) => live_after(ops.drop_last()).insert(id),
            TableOp::Disconnect(id) => live_after(ops.drop_last()).remove(id),
        }
    }
}

/// The last operation that concerns `id`, if any.
pub open spec fn last_op_on(ops: Seq<TableOp>, id: u32) -> Option<TableOp>
    decreases ops.len(),
{
    if ops.len() == 0 {
        None
    } else {
        match ops.last() {
            TableOp::Spawn(x) if x == id => Some(ops.last()),
            TableOp::Disconnect(x) if x == id => Some(ops.last()),
            _ => last_op_on(ops.drop_last(), id),
        }
    }
}

/// The session table holds an id exactly when the last thing done with it
/// was spawning a session: once its `Disconnect` is handled, it is gone.
pub proof fn lemma_live_iff_not_disconnected(ops: Seq<TableOp>, id: u32)
    ensures
        live_after(ops).contains(id) <==> (last_op_on(ops, id) matches Some(TableOp::Spawn(_))),
    decreases ops.len(),
{
    if ops.len() > 0 {
        lemma_live_iff_not_disconnected(ops.drop_last(), id);
    }
}

} // verus!
