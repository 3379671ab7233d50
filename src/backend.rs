//! What a transport does with the status of a response.
//!
//! Both transports hand back the body of a response whose status is 200, 403
//! or 404: the site answers a private or missing page with such a body. Any
//! other status is an error. The anonymizing transport answers a 429 by building a fresh
//! circuit and sending the same request again, a bounded number of times;
//! the direct transport does not rotate.
use vstd::prelude::*;

verus! {

/// Which transport carries requests to the site.
#[allow(non_camel_case_types)]
#[derive(Clone, Copy, Debug, PartialEq, Eq, Structural, PartialOrd, Ord, Hash)]
pub enum RedditBackendSelector {
    DIRECT,
    TOR,
}

/// The status that asks the client to slow down.
pub const TOO_MANY_REQUESTS: u16 = 429;

/// How many fresh circuits the anonymizing transport builds for one request.
pub const MAX_ROTATIONS: u32 = 3;

/// A status whose body is handed back to the resolver.
pub open spec fn is_payload_status(status: u16) -> bool {
    status == 200 || status == 403 || status == 404
}

/// What to do after a response.
#[derive(Clone, Copy, Debug, PartialEq, Eq, Structural)]
pub enum FetchStep {
    /// Hand the body back.
    Accept,
    /// Build a fresh circuit and send the request again.
    Rotate,
    /// Give up with an error that carries the body.
    Fail,
}

/// The step for `status` after `rotations` of at most `max`, and the number
/// of rotations after it.
pub open spec fn step_spec(rotations: nat, max: nat, status: u16) -> (nat, FetchStep) {
    if is_payload_status(status) {
        (rotations, FetchStep::Accept)
    } else if status == TOO_MANY_REQUESTS && rotations < max {
        (rotations + 1, FetchStep::Rotate)
    } else {
        (rotations, FetchStep::Fail)
    }
}

/// The steps of one request whose responses carry `statuses`, up to the first
/// step that is not a rotation.
pub open spec fn run_spec(rotations: nat, max: nat, statuses: Seq<u16>) -> Seq<FetchStep>
    decreases statuses.len(),
{
    if statuses.len() == 0 {
        Seq::empty()
    } else {
        let (next, step) = step_spec(rotations, max, statuses[0]);
        if step == FetchStep::Rotate {
            seq![FetchStep::Rotate] + run_spec(next, max, statuses.skip(1))
        } else {
            seq![step]
        }
    }
}

/// The rotations that one request has made, and its bound.
#[derive(Clone, Copy, Debug)]
pub struct RotationPolicy {
    rotations: u32,
    max_rotations: u32,
}

impl View for RotationPolicy {
    /// Rotations made, and the most allowed.
    type V = (nat, nat);

    closed spec fn view(&self) -> (nat, nat) {
        (self.rotations as nat, self.max_rotations as nat)
    }
}

impl RotationPolicy {
    #[verifier::type_invariant]
    spec fn within_bound(self) -> bool {
        self.rotations <= self.max_rotations
    }

    /// A request that may rotate `max_rotations` times.
    pub fn new(max_rotations: u32) -> (r: RotationPolicy)
        ensures
            r@ == (0nat, max_rotations as nat),
    {
        RotationPolicy { rotations: 0, max_rotations }
    }

    /// A request on the given transport: only the anonymizing one rotates.
    pub fn for_backend(backend: RedditBackendSelector) -> (r: RotationPolicy)
        ensures
            r@ == (0nat, if backend == RedditBackendSelector::TOR {
                MAX_ROTATIONS as nat
            } else {
                0nat
            }),
    {
        match backend {
            RedditBackendSelector::DIRECT => RotationPolicy::new(0),
            RedditBackendSelector::TOR => RotationPolicy::new(MAX_ROTATIONS),
        }
    }

    /// The rotations made so far.
    pub fn rotations(&self) -> (r: u32)
        ensures
            r == self@.0,
            self@.0 <= self@.1,
    {
        proof {
            use_type_invariant(self);
        }
        self.rotations
    }

    /// Decides what follows a response with `status`.
    pub fn on_status(&mut self, status: u16) -> (r: FetchStep)
        ensures
            (final(self)@.0, r) == step_spec(old(self)@.0, old(self)@.1, status),
            final(self)@.1 == old(self)@.1,
    {
        proof {
            use_type_invariant(&*self);
        }
        if status == 200 || status == 403 || status == 404 {
            FetchStep::Accept
        } else if status == TOO_MANY_REQUESTS && self.rotations < self.max_rotations {
            self.rotations = self.rotations + 1;
            FetchStep::Rotate
        } else {
            FetchStep::Fail
        }
    }
}

/// One request makes at most one rotation more than it has left, and then
/// stops: it sends at most `max - rotations + 1` requests in all.
pub proof fn lemma_run_bounded(rotations: nat, max: nat, statuses: Seq<u16>)
    requires
        rotations <= max,
    ensures
        run_spec(rotations, max, statuses).len() <= max - rotations + 1,
    decreases statuses.len(),
{
    if statuses.len() > 0 {
        let (next, step) = step_spec(rotations, max, statuses[0]);
        if step == FetchStep::Rotate {
            lemma_run_bounded(next, max, statuses.skip(1));
        }
    }
}

/// A request answered once with 429 and then with a body makes exactly one
/// rotation and then hands the body back, whenever one rotation is allowed.
pub proof fn lemma_single_block_recovers(max: nat, ok: u16)
    requires
        max >= 1,
        is_payload_status(ok),
    ensures
        run_spec(0, max, seq![TOO_MANY_REQUESTS, ok]) == seq![FetchStep::Rotate, FetchStep::Accept],
{
    let s = seq![TOO_MANY_REQUESTS, ok];
    assert(s.skip(1) =~= seq![ok]);
    assert(s.skip(1).skip(1) =~= Seq::<u16>::empty());
    assert(step_spec(0, max, TOO_MANY_REQUESTS) == (1nat, FetchStep::Rotate));
    assert(run_spec(1, max, s.skip(1)) == seq![FetchStep::Accept]);
    assert(run_spec(0, max, s) =~= seq![FetchStep::Rotate, FetchStep::Accept]);
}

} // verus!
