//! What holds of the current state of a mementer whatever links and
//! records a replica knows: replicas that know the same links agree, ties
//! are broken by the action hash, newer revisions take over and older
//! ones change nothing, and a revision that the store lacks gives way to
//! the next.

use crate::edge::lemma_rank_congruent;
use crate::edge::lemma_rank_total;
use crate::edge::lemma_rank_transitive;
use crate::edge::outranks;
use crate::edge::same_rank;
use crate::edge::Edge;
use crate::entries::MementerView;
use crate::hash::lex_lt;
use crate::resolve::candidate;
use crate::resolve::is_revision_of;
use crate::resolve::listed;
use crate::resolve::pending;
use crate::resolve::settled;
use crate::resolve::lemma_winner_is;
use crate::resolve::spec_resolve;
use crate::resolve::spec_revision;
use crate::resolve::spec_winner;
use crate::resolve::wins;
use crate::store::Details;
use vstd::prelude::*;

verus! {

/// Where some edge is a candidate, some edge wins.
pub proof fn lemma_winner_exists(id: Seq<u8>, edges: Seq<Edge>, store: Map<Seq<u8>, Details>)
    requires
        exists|i: int| candidate(id, edges, store, i),
    ensures
        exists|i: int| wins(id, edges, store, i),
    decreases edges.len(),
{
    let n = edges.len() - 1;
    let front = edges.drop_last();
    assert forall|j: int| 0 <= j < n implies candidate(id, front, store, j) == candidate(
        id,
        edges,
        store,
        j,
    ) by {
        assert(front[j] == edges[j]);
    }
    if exists|i: int| candidate(id, front, store, i) {
        lemma_winner_exists(id, front, store);
        let w = choose|i: int| wins(id, front, store, i);
        assert(front[w] == edges[w]);
        if candidate(id, edges, store, n) && outranks(edges[n], edges[w]) {
            assert forall|j: int| #[trigger] candidate(id, edges, store, j) implies !outranks(
                edges[j],
                edges[n],
            ) && (same_rank(edges[j], edges[n]) ==> n <= j) by {
                lemma_rank_total(edges[n], edges[n]);
                if j < n {
                    assert(candidate(id, front, store, j));
                    assert(front[j] == edges[j]);
                    if outranks(edges[j], edges[n]) {
                        lemma_rank_transitive(edges[j], edges[n], edges[w]);
                    }
                    if same_rank(edges[j], edges[n]) {
                        lemma_rank_congruent(edges[j], edges[n], edges[w]);
                    }
                }
            }
            assert(wins(id, edges, store, n));
        } else {
            assert forall|j: int| #[trigger] candidate(id, edges, store, j) implies !outranks(
                edges[j],
                edges[w],
            ) && (same_rank(edges[j], edges[w]) ==> w <= j) by {
                if j < n {
                    assert(candidate(id, front, store, j));
                    assert(front[j] == edges[j]);
                }
            }
            assert(wins(id, edges, store, w));
        }
    } else {
        let i = choose|i: int| candidate(id, edges, store, i);
        assert(i == n);
        lemma_rank_total(edges[n], edges[n]);
        assert(wins(id, edges, store, n));
    }
}

/// Every candidate of `a` occurs among the candidates of `b`, with the
/// same rank.
pub open spec fn covered_by(id: Seq<u8>, a: Seq<Edge>, b: Seq<Edge>, store: Map<Seq<u8>, Details>) -> bool {
    forall|i: int| #[trigger]
        candidate(id, a, store, i) ==> exists|j: int| #[trigger]
            candidate(id, b, store, j) && same_rank(a[i], b[j])
}

/// The current state depends on the candidates alone, not on where they
/// stand nor on what else is known.
pub proof fn lemma_resolve_determined(
    id: Seq<u8>,
    a: Seq<Edge>,
    b: Seq<Edge>,
    store: Map<Seq<u8>, Details>,
)
    requires
        covered_by(id, a, b, store),
        covered_by(id, b, a, store),
    ensures
        spec_resolve(id, a, store) == spec_resolve(id, b, store),
{
    if exists|i: int| candidate(id, a, store, i) {
        let i = choose|i: int| candidate(id, a, store, i);
        assert(exists|j: int| #[trigger] candidate(id, b, store, j) && same_rank(a[i], b[j]));
        lemma_winner_exists(id, a, store);
        lemma_winner_exists(id, b, store);
        let wa = choose|k: int| wins(id, a, store, k);
        let wb = choose|k: int| wins(id, b, store, k);
        lemma_winner_is(id, a, store, wa);
        lemma_winner_is(id, b, store, wb);
        // the winner of each side occurs on the other side
        let wa_in_b = choose|k: int| #[trigger] candidate(id, b, store, k) && same_rank(a[wa], b[k]);
        let wb_in_a = choose|k: int| #[trigger] candidate(id, a, store, k) && same_rank(b[wb], a[k]);
        lemma_rank_congruent(a[wa], b[wa_in_b], b[wb]);
        lemma_rank_congruent(b[wb], a[wb_in_a], a[wa]);
        lemma_rank_total(a[wa], b[wb]);
        assert(same_rank(a[wa], b[wb]));
    } else {
        if exists|j: int| candidate(id, b, store, j) {
            let j = choose|j: int| candidate(id, b, store, j);
            let k = choose|k: int| #[trigger] candidate(id, a, store, k) && same_rank(b[j], a[k]);
            assert(false);
        }
        assert(spec_winner(id, a, store) is None);
        assert(spec_winner(id, b, store) is None);
    }
}

/// Convergence. Two replicas that know the same links, in whatever order
/// the links reached them, resolve a mementer to the same state.
pub proof fn theorem_convergence(
    id: Seq<u8>,
    a: Seq<Edge>,
    b: Seq<Edge>,
    store: Map<Seq<u8>, Details>,
)
    requires
        a.to_multiset() == b.to_multiset(),
    ensures
        spec_resolve(id, a, store) == spec_resolve(id, b, store),
{
    broadcast use vstd::seq_lib::group_to_multiset_ensures;

    assert forall|i: int| #[trigger] candidate(id, a, store, i) implies exists|j: int| #[trigger]
        candidate(id, b, store, j) && same_rank(a[i], b[j]) by {
        lemma_occurs(a, b, i);
        let j = choose|j: int| 0 <= j < b.len() && b[j] == a[i];
        assert(candidate(id, b, store, j));
    }
    assert forall|i: int| #[trigger] candidate(id, b, store, i) implies exists|j: int| #[trigger]
        candidate(id, a, store, j) && same_rank(b[i], a[j]) by {
        lemma_occurs(b, a, i);
        let j = choose|j: int| 0 <= j < a.len() && a[j] == b[i];
        assert(candidate(id, a, store, j));
    }
    lemma_resolve_determined(id, a, b, store);
}

/// An element of a sequence occurs in every rearrangement of it.
pub proof fn lemma_occurs(a: Seq<Edge>, b: Seq<Edge>, i: int)
    requires
        a.to_multiset() == b.to_multiset(),
        0 <= i < a.len(),
    ensures
        exists|j: int| 0 <= j < b.len() && b[j] == a[i],
{
    broadcast use vstd::seq_lib::group_to_multiset_ensures;

    assert(a.contains(a[i]));
    assert(a.to_multiset().count(a[i]) > 0);
    assert(b.to_multiset().count(a[i]) > 0);
    assert(b.contains(a[i]));
}

/// Links of other mementers do not interfere: what one more link from
/// another base adds to the index changes nothing for `id`.
pub proof fn theorem_other_bases_do_not_interfere(
    id: Seq<u8>,
    edges: Seq<Edge>,
    store: Map<Seq<u8>, Details>,
    other: Edge,
)
    requires
        other.base@ != id,
    ensures
        spec_resolve(id, edges.push(other), store) == spec_resolve(id, edges, store),
{
    let more = edges.push(other);
    assert forall|i: int| #[trigger] candidate(id, more, store, i) implies exists|j: int| #[trigger]
        candidate(id, edges, store, j) && same_rank(more[i], edges[j]) by {
        assert(more[i] == edges[i]);
        assert(candidate(id, edges, store, i));
    }
    assert forall|i: int| #[trigger] candidate(id, edges, store, i) implies exists|j: int| #[trigger]
        candidate(id, more, store, j) && same_rank(edges[i], more[j]) by {
        assert(more[i] == edges[i]);
        assert(candidate(id, more, store, i));
    }
    lemma_resolve_determined(id, more, edges, store);
}

/// Tie-break. Of two candidates with the same timestamp, the one whose
/// action hash comes first in byte order never wins; where the two are
/// the only candidates, the other one wins.
pub proof fn theorem_tie_break(
    id: Seq<u8>,
    edges: Seq<Edge>,
    store: Map<Seq<u8>, Details>,
    lesser: int,
    greater: int,
)
    requires
        candidate(id, edges, store, lesser),
        candidate(id, edges, store, greater),
        edges[lesser].action.timestamp == edges[greater].action.timestamp,
        lex_lt(edges[lesser].action.action_hash@, edges[greater].action.action_hash@),
    ensures
        spec_winner(id, edges, store) != Some(lesser),
        (forall|k: int| candidate(id, edges, store, k) ==> k == lesser || k == greater)
            ==> spec_winner(id, edges, store) == Some(greater),
{
    lemma_rank_total(edges[lesser], edges[greater]);
    lemma_rank_total(edges[greater], edges[greater]);
    lemma_winner_exists(id, edges, store);
    let w = choose|k: int| wins(id, edges, store, k);
    lemma_winner_is(id, edges, store, w);
    assert(candidate(id, edges, store, greater));
}

/// A newer revision takes over. After a settings link with a timestamp
/// later than that of every candidate is added, and the store supplies
/// its target, the mementer resolves to the new settings.
pub proof fn theorem_newer_revision_wins(
    id: Seq<u8>,
    edges: Seq<Edge>,
    store: Map<Seq<u8>, Details>,
    added: Edge,
)
    requires
        is_revision_of(added, id),
        spec_revision(store, added.target@) is Some,
        forall|k: int| #[trigger]
            candidate(id, edges, store, k) ==> edges[k].action.timestamp < added.action.timestamp,
    ensures
        spec_winner(id, edges.push(added), store) == Some(edges.len() as int),
        spec_resolve(id, edges.push(added), store) == Some(
            MementerView { entry_hash: id, settings: spec_revision(store, added.target@).unwrap() },
        ),
{
    let more = edges.push(added);
    let n = edges.len() as int;
    assert(more[n] == added);
    assert(candidate(id, more, store, n));
    assert forall|j: int| #[trigger] candidate(id, more, store, j) implies !outranks(
        more[j],
        more[n],
    ) && (same_rank(more[j], more[n]) ==> n <= j) by {
        lemma_rank_total(added, added);
        if j < n {
            assert(more[j] == edges[j]);
            assert(candidate(id, edges, store, j));
        }
    }
    lemma_winner_is(id, more, store, n);
}

/// An older revision changes nothing. After a link with a timestamp
/// earlier than that of the current winner is added, the mementer
/// resolves as before.
pub proof fn theorem_older_revision_is_ignored(
    id: Seq<u8>,
    edges: Seq<Edge>,
    store: Map<Seq<u8>, Details>,
    added: Edge,
    winner: int,
)
    requires
        spec_winner(id, edges, store) == Some(winner),
        added.action.timestamp < edges[winner].action.timestamp,
    ensures
        spec_winner(id, edges.push(added), store) == Some(winner),
        spec_resolve(id, edges.push(added), store) == spec_resolve(id, edges, store),
{
    let more = edges.push(added);
    let n = edges.len() as int;
    assert(wins(id, edges, store, winner));
    assert(more[winner] == edges[winner]);
    assert(candidate(id, more, store, winner));
    assert forall|j: int| #[trigger] candidate(id, more, store, j) implies !outranks(
        more[j],
        more[winner],
    ) && (same_rank(more[j], more[winner]) ==> winner <= j) by {
        if j < n {
            assert(more[j] == edges[j]);
            assert(candidate(id, edges, store, j));
        } else {
            assert(more[j] == added);
        }
    }
    lemma_winner_is(id, more, store, winner);
}

/// A missing target gives way. Where the store that held the winner's
/// target loses it, the mementer resolves to the runner-up: the most
/// recent of the candidates that lead elsewhere.
pub proof fn theorem_missing_target_falls_back(
    id: Seq<u8>,
    edges: Seq<Edge>,
    store: Map<Seq<u8>, Details>,
    winner: int,
    runner_up: int,
)
    requires
        wins(id, edges, store, winner),
        candidate(id, edges, store, runner_up),
        edges[runner_up].target@ != edges[winner].target@,
        forall|k: int| #[trigger]
            candidate(id, edges, store, k) && edges[k].target@ != edges[winner].target@
                ==> !outranks(edges[k], edges[runner_up]) && (same_rank(
                edges[k],
                edges[runner_up],
            ) ==> runner_up <= k),
    ensures
        spec_winner(id, edges, store.remove(edges[winner].target@)) == Some(runner_up),
        spec_resolve(id, edges, store.remove(edges[winner].target@)) == Some(
            MementerView {
                entry_hash: id,
                settings: spec_revision(store, edges[runner_up].target@).unwrap(),
            },
        ),
{
    let less = store.remove(edges[winner].target@);
    assert forall|k: int| candidate(id, edges, less, k) == (candidate(id, edges, store, k)
        && edges[k].target@ != edges[winner].target@) by {}
    assert(candidate(id, edges, less, runner_up));
    assert forall|j: int| #[trigger] candidate(id, edges, less, j) implies !outranks(
        edges[j],
        edges[runner_up],
    ) && (same_rank(edges[j], edges[runner_up]) ==> runner_up <= j) by {
        assert(candidate(id, edges, store, j));
    }
    lemma_winner_is(id, edges, less, runner_up);
}

/// History is monotonic. One more link either changes nothing or is
/// itself the new winner: no link known before wins by the arrival of
/// another.
pub proof fn theorem_added_link_wins_or_changes_nothing(
    id: Seq<u8>,
    edges: Seq<Edge>,
    store: Map<Seq<u8>, Details>,
    added: Edge,
)
    ensures
        spec_winner(id, edges.push(added), store) == spec_winner(id, edges, store) || spec_winner(
            id,
            edges.push(added),
            store,
        ) == Some(edges.len() as int),
{
    let more = edges.push(added);
    let n = edges.len() as int;
    assert forall|j: int| 0 <= j < n implies candidate(id, more, store, j) == candidate(
        id,
        edges,
        store,
        j,
    ) by {
        assert(more[j] == edges[j]);
    }
    if exists|i: int| candidate(id, more, store, i) {
        lemma_winner_exists(id, more, store);
        let w = choose|k: int| wins(id, more, store, k);
        lemma_winner_is(id, more, store, w);
        if w != n {
            assert(more[w] == edges[w]);
            assert forall|j: int| #[trigger] candidate(id, edges, store, j) implies !outranks(
                edges[j],
                edges[w],
            ) && (same_rank(edges[j], edges[w]) ==> w <= j) by {
                assert(more[j] == edges[j]);
                assert(candidate(id, more, store, j));
            }
            lemma_winner_is(id, edges, store, w);
        }
    } else {
        assert forall|j: int| !candidate(id, edges, store, j) by {
            if candidate(id, edges, store, j) {
                assert(candidate(id, more, store, j));
            }
        }
    }
}

/// A settled snapshot suffices. Once no target that is still to be
/// looked up could change the winner, the snapshot resolves the mementer
/// as does every fuller store that agrees with it and holds nothing
/// under the hashes found missing.
pub proof fn theorem_settled_snapshot_suffices(
    id: Seq<u8>,
    edges: Seq<Edge>,
    store: Map<Seq<u8>, Details>,
    missing: Seq<Vec<u8>>,
    full: Map<Seq<u8>, Details>,
)
    requires
        settled(id, edges, store, missing),
        forall|hash: Seq<u8>| #[trigger]
            store.contains_key(hash) ==> full.contains_key(hash) && full[hash] == store[hash],
        forall|hash: Seq<u8>| listed(missing, hash) ==> !full.contains_key(hash),
    ensures
        spec_resolve(id, edges, full) == spec_resolve(id, edges, store),
{
    assert forall|j: int| #[trigger] candidate(id, edges, full, j) implies candidate(
        id,
        edges,
        store,
        j,
    ) || pending(id, edges, store, missing, j) by {
        if store.contains_key(edges[j].target@) {
            assert(full[edges[j].target@] == store[edges[j].target@]);
        }
    }
    if exists|i: int| candidate(id, edges, store, i) {
        lemma_winner_exists(id, edges, store);
        let w = choose|k: int| wins(id, edges, store, k);
        lemma_winner_is(id, edges, store, w);
        assert(store.contains_key(edges[w].target@));
        assert(candidate(id, edges, full, w));
        assert forall|j: int| #[trigger] candidate(id, edges, full, j) implies !outranks(
            edges[j],
            edges[w],
        ) && (same_rank(edges[j], edges[w]) ==> w <= j) by {
            if !candidate(id, edges, store, j) {
                assert(pending(id, edges, store, missing, j));
            }
        }
        lemma_winner_is(id, edges, full, w);
    } else {
        assert forall|j: int| !candidate(id, edges, full, j) by {
            if candidate(id, edges, full, j) {
                assert(pending(id, edges, store, missing, j));
            }
        }
    }
}

} // verus!
