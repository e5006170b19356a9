//! Links between hashes, with the action that created each.

use crate::entries::LinkTypes;
use crate::hash::bytes_lt;
use crate::hash::lemma_lex_transitive;
use crate::hash::lemma_lex_trichotomy;
use crate::hash::lex_lt;
use crate::store::ActionInfo;
use vstd::prelude::*;

verus! {

/// A directed, typed link from `base` to `target`, as the link index
/// reports it. Links are never altered or removed: the set of links from
/// a base only grows.
#[derive(Debug, PartialEq, Eq)]
pub struct Edge {
    pub base: Vec<u8>,
    pub target: Vec<u8>,
    pub link_type: LinkTypes,
    /// The action that put the link there.
    pub action: ActionInfo,
    /// Whether that action has the shape of a link creation. An edge whose
    /// action has another shape is foreign or malformed.
    pub is_create_link: bool,
}

/// `a` is more recent than `b`: it has the later timestamp or, at equal
/// timestamps, the action hash that comes later in byte order. Edges that
/// agree in both are told apart by their targets, so that no two
/// different links are of equal recency.
pub open spec fn outranks(a: Edge, b: Edge) -> bool {
    ||| a.action.timestamp > b.action.timestamp
    ||| (a.action.timestamp == b.action.timestamp && lex_lt(
        b.action.action_hash@,
        a.action.action_hash@,
    ))
    ||| (a.action.timestamp == b.action.timestamp && a.action.action_hash@
        == b.action.action_hash@ && lex_lt(b.target@, a.target@))
}

/// `a` and `b` are of the same age, made by the same action, and lead to
/// the same target.
pub open spec fn same_rank(a: Edge, b: Edge) -> bool {
    &&& a.action.timestamp == b.action.timestamp
    &&& a.action.action_hash@ == b.action.action_hash@
    &&& a.target@ == b.target@
}

/// Decides which of two edges is the more recent.
pub fn edge_outranks(a: &Edge, b: &Edge) -> (newer: bool)
    ensures
        newer == outranks(*a, *b),
{
    if a.action.timestamp > b.action.timestamp {
        true
    } else if a.action.timestamp < b.action.timestamp {
        false
    } else if bytes_lt(&b.action.action_hash, &a.action.action_hash) {
        true
    } else if bytes_lt(&a.action.action_hash, &b.action.action_hash) {
        false
    } else {
        proof {
            lemma_lex_trichotomy(a.action.action_hash@, b.action.action_hash@, 0);
        }
        bytes_lt(&b.target, &a.target)
    }
}

/// Of two edges one is more recent than the other, unless they are of the
/// same rank; never both.
pub proof fn lemma_rank_total(a: Edge, b: Edge)
    ensures
        outranks(a, b) || outranks(b, a) || same_rank(a, b),
        !(outranks(a, b) && outranks(b, a)),
        same_rank(a, b) ==> !outranks(a, b) && !outranks(b, a),
{
    lemma_lex_trichotomy(a.action.action_hash@, b.action.action_hash@, 0);
    lemma_lex_trichotomy(b.action.action_hash@, a.action.action_hash@, 0);
    lemma_lex_trichotomy(a.target@, b.target@, 0);
    lemma_lex_trichotomy(b.target@, a.target@, 0);
}

/// Being more recent is transitive.
pub proof fn lemma_rank_transitive(a: Edge, b: Edge, c: Edge)
    requires
        outranks(a, b),
        outranks(b, c),
    ensures
        outranks(a, c),
{
    let (ha, hb, hc) = (a.action.action_hash@, b.action.action_hash@, c.action.action_hash@);
    if lex_lt(hc, hb) && lex_lt(hb, ha) {
        lemma_lex_transitive(hc, hb, ha, 0);
    }
    if lex_lt(c.target@, b.target@) && lex_lt(b.target@, a.target@) {
        lemma_lex_transitive(c.target@, b.target@, a.target@, 0);
    }
    lemma_lex_trichotomy(ha, hb, 0);
    lemma_lex_trichotomy(hb, hc, 0);
}

/// Edges of the same rank stand in the same relation to every other edge.
pub proof fn lemma_rank_congruent(a: Edge, b: Edge, c: Edge)
    requires
        same_rank(a, b),
    ensures
        outranks(a, c) == outranks(b, c),
        outranks(c, a) == outranks(c, b),
{
}

} // verus!
