//! The nonces that a proof of presence answers: each good once, for a short time.
use crate::expiring::{make_room, room_keeps_the_bound, with_room, Expiring};
use crate::leases::capped_sum;
use crate::outside::{fresh_uuid, is_uuid_text};
use crate::rpc::{against_invariant, invariant_error, rpc_done, RpcError, RpcErrorView};
use crate::table::Table;
use vstd::prelude::*;

verus! {

/// How long a nonce can be answered.
pub const CHALLENGE_TTL_MS: u64 = 60_000;

/// How many nonces are open at most.
pub const MAX_CHALLENGES: usize = 1024;

impl Expiring for u64 {
    open spec fn expiry(v: u64) -> u64 {
        v
    }

    fn expires_at(&self) -> (n: u64) {
        *self
    }
}

/// The open nonces, each with its end.
pub struct Challenges {
    pub open: Table<u64>,
}

impl View for Challenges {
    type V = Map<Seq<char>, u64>;

    open spec fn view(&self) -> Map<Seq<char>, u64> {
        self.open@
    }
}

/// The open nonces after one more was issued.
pub open spec fn issuing(open: Map<Seq<char>, u64>, now: u64, nonce: Seq<char>) -> Map<
    Seq<char>,
    u64,
> {
    with_room::<u64>(open, now, MAX_CHALLENGES as nat).insert(
        nonce,
        capped_sum(now, CHALLENGE_TTL_MS),
    )
}

/// Spending a nonce: it is gone whatever comes of it.
pub open spec fn presence_spending(open: Map<Seq<char>, u64>, nonce: Seq<char>, now: u64) -> (
    Map<Seq<char>, u64>,
    Result<(), RpcErrorView>,
) {
    if !open.contains_key(nonce) {
        (open, Err(against_invariant("I1: unknown or already used presence nonce"@)))
    } else if now >= open[nonce] {
        (open.remove(nonce), Err(against_invariant("I1: presence challenge expired"@)))
    } else {
        (open.remove(nonce), Ok(()))
    }
}

impl Challenges {
    /// The table is in order.
    pub open spec fn wf(&self) -> bool {
        self.open.wf()
    }

    /// No nonce is open.
    pub fn new() -> (r: Challenges)
        ensures
            r.wf(),
            r@ == Map::<Seq<char>, u64>::empty(),
    {
        Challenges { open: Table::new() }
    }

    /// Issue this nonce, and say until when it can be answered.
    pub fn issue_as(&mut self, now: u64, nonce: &str) -> (exp: u64)
        requires
            old(self).wf(),
        ensures
            final(self).wf(),
            final(self)@ == issuing(old(self)@, now, nonce@),
            exp == capped_sum(now, CHALLENGE_TTL_MS),
    {
        make_room(&mut self.open, now, MAX_CHALLENGES);
        let exp: u64 = if now > u64::MAX - CHALLENGE_TTL_MS {
            u64::MAX
        } else {
            now + CHALLENGE_TTL_MS
        };
        self.open.insert(nonce, exp);
        exp
    }

    /// Issue a nonce that nobody has had, and say until when it can be answered.
    pub fn issue(&mut self, now: u64) -> (r: (String, u64))
        requires
            old(self).wf(),
        ensures
            final(self).wf(),
            final(self)@ == issuing(old(self)@, now, r.0@),
            is_uuid_text(r.0@),
            r.1 == capped_sum(now, CHALLENGE_TTL_MS),
    {
        let nonce = fresh_uuid();
        let exp: u64 = self.issue_as(now, nonce.as_str());
        (nonce, exp)
    }

    /// Spend a nonce.
    pub fn spend(&mut self, nonce: &str, now: u64) -> (r: Result<(), RpcError>)
        requires
            old(self).wf(),
        ensures
            final(self).wf(),
            (final(self)@, rpc_done(r)) == presence_spending(old(self)@, nonce@, now),
    {
        match self.open.remove(nonce) {
            None => {
                assert(self@ =~= old(self)@);
                Err(invariant_error("I1: unknown or already used presence nonce"))
            },
            Some(exp) => if now >= exp {
                Err(invariant_error("I1: presence challenge expired"))
            } else {
                Ok(())
            },
        }
    }
}

/// A nonce is good once: whatever became of spending it, spending it again is refused.
pub proof fn nonce_is_spent_once(open: Map<Seq<char>, u64>, nonce: Seq<char>, now: u64, later: u64)
    ensures
        !presence_spending(open, nonce, now).0.contains_key(nonce),
        presence_spending(presence_spending(open, nonce, now).0, nonce, later).1 is Err,
{
}

/// A nonce that was issued can be spent until it runs out, and not after.
pub proof fn issued_nonce_is_good_until_it_runs_out(
    open: Map<Seq<char>, u64>,
    nonce: Seq<char>,
    now: u64,
    later: u64,
)
    ensures
        presence_spending(issuing(open, now, nonce), nonce, later).1 is Ok <==> later < capped_sum(
            now,
            CHALLENGE_TTL_MS,
        ),
{
}

/// Only a nonce that was issued can be spent.
pub proof fn unissued_nonce_is_refused(open: Map<Seq<char>, u64>, nonce: Seq<char>, now: u64)
    requires
        !open.contains_key(nonce),
    ensures
        presence_spending(open, nonce, now).1 is Err,
        presence_spending(open, nonce, now).0 == open,
{
}

/// No more nonces than the limit are open, however many are issued.
pub proof fn open_nonces_stay_bounded(open: Map<Seq<char>, u64>, now: u64, nonce: Seq<char>)
    requires
        open.dom().finite(),
        open.dom().len() <= MAX_CHALLENGES,
    ensures
        issuing(open, now, nonce).dom().finite(),
        issuing(open, now, nonce).dom().len() <= MAX_CHALLENGES,
{
    room_keeps_the_bound::<u64>(
        open,
        now,
        MAX_CHALLENGES as nat,
        nonce,
        capped_sum(now, CHALLENGE_TTL_MS),
    );
}

} // verus!
