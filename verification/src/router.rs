//! The delegation router and this node's identity.
//!
//! A request is answered locally when the requested top-level operator is in
//! the local capability manifest; otherwise the node asks its peers. The
//! router owns the decisions of that protocol: which peers are candidates
//! (everyone in the roster but this node, in uniformly shuffled order so
//! repeated requests spread their load), when a probed peer's manifest
//! justifies forwarding, and that the forwarded payload and the relayed
//! answer pass through unmodified. The network calls themselves — fetching
//! the roster, probing a manifest, forwarding — happen outside, between
//! steps of this state.

use vstd::prelude::*;
use vstd::multiset::Multiset;
use vstd::seq_lib::group_to_multiset_ensures;
use rand::seq::SliceRandom;
use crate::algebra::{spec_op_of_name, Op};
use crate::eval::EvalError;
use crate::manifest::{SequenceInfo, manifest_advertises, tree_supported, evaluate_supported};
use crate::range::Range;
use crate::rational::Rat;
use crate::syntax::{
    InterpError, SequenceRequest, SequenceSyntax, denoted_expr, expr_matches, has_local_error,
    interpret_parts, lemma_denoted_expr, local_error, node_error, syntax_valid, syntax_wf,
};

verus! {

/// The port this node serves on.
pub const NODE_PORT: u16 = 12346;

/// One entry of the directory roster: a peer's name and endpoint.
#[derive(Debug)]
pub struct Project {
    pub name: String,
    pub ip: String,
    pub port: u16,
}

/// This node's own directory record.
pub fn get_project() -> (r: Project)
    ensures
        r.name@ == "Lucija & Lev"@,
        r.ip@ == "127.0.0.1"@,
        r.port == NODE_PORT,
{
    Project {
        name: String::from_str("Lucija & Lev"),
        ip: String::from_str("127.0.0.1"),
        port: NODE_PORT,
    }
}

/// `p` and `q` name the same endpoint: equal address and port.
pub open spec fn same_endpoint(p: Project, q: Project) -> bool {
    p.ip@ == q.ip@ && p.port == q.port
}

fn is_same_endpoint(p: &Project, q: &Project) -> (r: bool)
    ensures
        r == same_endpoint(*p, *q),
{
    p.ip == q.ip && p.port == q.port
}

/// Relies on rand's `SliceRandom::shuffle`: a Fisher-Yates shuffle over
/// in-place swaps, so afterwards the vector holds exactly the elements it
/// held before, permuted. (It aborts only if the operating system's random
/// source cannot be initialised.)
#[verifier::external_body]
fn shuffle_candidates(v: &mut Vec<Project>)
    ensures
        final(v)@.len() == old(v)@.len(),
        final(v)@.to_multiset() == old(v)@.to_multiset(),
{
    v.shuffle(&mut rand::thread_rng());
}

/// The candidates for delegating one request: every roster entry but this
/// node itself, kept with its multiplicity, in shuffled order.
pub fn plan_delegation(roster: Vec<Project>, me: &Project) -> (r: Vec<Project>)
    ensures
        r@.len() <= roster@.len(),
        forall|i: int| 0 <= i < r@.len() ==> !same_endpoint(#[trigger] r@[i], *me),
        forall|p: Project|
            !same_endpoint(p, *me) ==> r@.to_multiset().count(p) == roster@.to_multiset().count(
                p,
            ),
        forall|p: Project| same_endpoint(p, *me) ==> r@.to_multiset().count(p) == 0,
{
    broadcast use group_to_multiset_ensures;
    broadcast use vstd::multiset::group_multiset_axioms;

    let mut rest = roster;
    let mut kept: Vec<Project> = Vec::new();
    let ghost roster0 = rest@;
    proof {
        assert(kept@ =~= Seq::<Project>::empty());
        assert(kept@.to_multiset() =~= Multiset::<Project>::empty());
    }
    while rest.len() > 0
        invariant
            kept@.len() + rest@.len() <= roster0.len(),
            forall|i: int| 0 <= i < kept@.len() ==> !same_endpoint(#[trigger] kept@[i], *me),
            forall|p: Project|
                !same_endpoint(p, *me) ==> kept@.to_multiset().count(p) + rest@.to_multiset().count(
                    p,
                ) == roster0.to_multiset().count(p),
            forall|p: Project| same_endpoint(p, *me) ==> kept@.to_multiset().count(p) == 0,
        decreases rest@.len(),
    {
        let ghost rest_before = rest@;
        let ghost kept_before = kept@;
        let p = rest.remove(0);
        proof {
            rest_before.to_multiset_ensures();
            kept_before.to_multiset_ensures();
            assert(rest@ == rest_before.remove(0));
            assert(rest@.to_multiset() =~= rest_before.to_multiset().remove(rest_before[0]));
        }
        if !is_same_endpoint(&p, me) {
            kept.push(p);
        }
    }
    shuffle_candidates(&mut kept);
    proof {
        assert forall|i: int| 0 <= i < kept@.len() implies !same_endpoint(
            #[trigger] kept@[i],
            *me,
        ) by {
            assert(kept@.to_multiset().count(kept@[i]) > 0);
        }
    }
    kept
}

/// One delegation attempt in progress: the operator that needs answering,
/// the original request body, and the peers still to try, in the order they
/// will be probed.
#[derive(Debug)]
pub struct Delegation {
    pub operator: String,
    pub body: String,
    pub candidates: Vec<Project>,
    pub next: usize,
}

impl Delegation {
    /// The probing position never runs past the candidate list.
    pub open spec fn wf(self) -> bool {
        self.next <= self.candidates@.len()
    }

    /// Starts a delegation attempt: records the operator and the original
    /// body, and lines up every peer but this node in shuffled order.
    pub fn start(operator: String, body: String, roster: Vec<Project>, me: &Project) -> (d:
        Delegation)
        ensures
            d.wf(),
            d.next == 0,
            d.operator@ == operator@,
            d.body@ == body@,
            d.candidates@.len() <= roster@.len(),
            forall|i: int|
                0 <= i < d.candidates@.len() ==> !same_endpoint(#[trigger] d.candidates@[i], *me),
            forall|p: Project|
                !same_endpoint(p, *me) ==> d.candidates@.to_multiset().count(p)
                    == roster@.to_multiset().count(p),
            forall|p: Project|
                same_endpoint(p, *me) ==> d.candidates@.to_multiset().count(p) == 0,
    {
        let candidates = plan_delegation(roster, me);
        Delegation { operator, body, candidates, next: 0 }
    }

    /// Whether a candidate is left to probe.
    pub fn has_next(&self) -> (r: bool)
        ensures
            r == (self.next < self.candidates@.len()),
    {
        self.next < self.candidates.len()
    }

    /// The peer to probe now.
    pub fn current(&self) -> (r: &Project)
        requires
            self.next < self.candidates@.len(),
        ensures
            *r == self.candidates@[self.next as int],
    {
        &self.candidates[self.next]
    }

    /// Moves past the current peer — it was probed, and either answered or
    /// is skipped as unreachable; a failed peer is never retried. Nothing
    /// else changes: in particular the operator and the body stay as they
    /// were.
    pub fn advance(&mut self)
        requires
            old(self).next < old(self).candidates@.len(),
        ensures
            final(self).next == old(self).next + 1,
            final(self).operator == old(self).operator,
            final(self).body == old(self).body,
            final(self).candidates == old(self).candidates,
            final(self).wf(),
    {
        let len = self.candidates.len();
        self.next = self.next + 1;
    }

    /// Whether the probed peer's manifest justifies forwarding: it
    /// advertises the operator this request needs.
    pub fn peer_answers(&self, peer_manifest: &Vec<SequenceInfo>) -> (r: bool)
        ensures
            r == manifest_advertises(peer_manifest@, self.operator@),
    {
        crate::manifest::advertises(peer_manifest, &self.operator)
    }

    /// The payload to forward: the original request body, byte for byte.
    pub fn payload(&self) -> (r: &String)
        ensures
            r@ == self.body@,
    {
        &self.body
    }

    /// The answer once every candidate is exhausted: nobody can answer is a
    /// valid outcome, reported as the empty result array, not as an error.
    pub fn no_peer_response(&self) -> (r: String)
        requires
            self.next >= self.candidates@.len(),
        ensures
            r@ == "[]"@,
    {
        String::from_str("[]")
    }
}

/// What one request comes to, once the transport has handed over the
/// operator name and the decoded body.
#[derive(Debug)]
pub enum RequestOutcome {
    /// Every operator was evaluated locally: the values, in index order.
    Respond { values: Vec<Rat> },
    /// The body failed validation: an unknown operator, a wrong arity, or a
    /// non-positive cycle length.
    Malformed { error: InterpError },
    /// The range's step was zero.
    InvalidRange,
    /// The top-level operator is local, but a nested one is not; the
    /// request fails locally rather than delegating per sub-node.
    UnsupportedLocally,
    /// An intermediate value left the machine's range.
    Overflow,
    /// A valid operator that this node does not implement: forward the
    /// request, unmodified, to a peer that advertises it.
    Delegate,
}

/// The description a request denotes: the operator from the request path
/// over the body's parameters and children.
pub open spec fn request_node(operator: String, req: SequenceRequest) -> SequenceSyntax {
    SequenceSyntax { name: operator, parameters: req.parameters, sequences: req.sequences }
}

/// Decides one request: answer locally, reject it, or delegate it.
///
/// A name outside the closed algebra is rejected as unknown before anything
/// else: delegation is only for valid operators absent from the local
/// manifest. Among those, the top-level operator alone decides between
/// local evaluation and delegation; a valid tree whose nested operators are
/// not all local fails locally instead of delegating further.
pub fn handle_request(
    manifest: &Vec<SequenceInfo>,
    operator: &String,
    request: &SequenceRequest,
) -> (out: RequestOutcome)
    requires
        syntax_wf(request_node(*operator, *request)),
    ensures
        ({
            let node = request_node(*operator, *request);
            let e = denoted_expr(node);
            let known = spec_op_of_name(operator@) is Some;
            &&& (!known ==> (out matches RequestOutcome::Malformed {
                error: InterpError::UnknownOperator { name },
            } && name@ == operator@))
            &&& (out is Delegate <==> known && !manifest_advertises(manifest@, operator@))
            &&& (out is InvalidRange <==> known && manifest_advertises(manifest@, operator@)
                && request.range.step == 0)
            &&& (out matches RequestOutcome::Malformed { error } ==> !syntax_valid(node)
                && node_error(node, error) && (has_local_error(node) ==> local_error(
                node,
                error,
            )))
            &&& (known && manifest_advertises(manifest@, operator@) && request.range.step >= 1
                ==> {
                &&& (!syntax_valid(node) ==> out is Malformed)
                &&& (syntax_valid(node) ==> {
                    &&& expr_matches(e, node)
                    &&& (out is Respond <==> tree_supported(manifest@, e)
                        && crate::eval::eval_fits(e, request.range))
                    &&& (out matches RequestOutcome::Respond { values } ==>
                        crate::eval::results_match(values@, e, request.range))
                    &&& (out is UnsupportedLocally <==> !tree_supported(manifest@, e))
                    &&& (out is Overflow <==> tree_supported(manifest@, e)
                        && !crate::eval::eval_fits(e, request.range))
                })
            })
        }),
{
    if Op::from_name(operator).is_none() {
        return RequestOutcome::Malformed {
            error: InterpError::UnknownOperator { name: operator.clone() },
        };
    }
    if !crate::manifest::advertises(manifest, operator) {
        return RequestOutcome::Delegate;
    }
    if request.range.step == 0 {
        return RequestOutcome::InvalidRange;
    }
    let ghost node = request_node(*operator, *request);
    let e = match interpret_parts(operator, &request.parameters, &request.sequences, Ghost(node)) {
        Ok(e) => e,
        Err(error) => {
            return RequestOutcome::Malformed { error };
        },
    };
    proof {
        lemma_denoted_expr(e, node);
    }
    match evaluate_supported(manifest, &e, &request.range) {
        Ok(values) => RequestOutcome::Respond { values },
        Err(EvalError::UnsupportedOperator) => RequestOutcome::UnsupportedLocally,
        Err(EvalError::Overflow) => RequestOutcome::Overflow,
    }
}

} // verus!
