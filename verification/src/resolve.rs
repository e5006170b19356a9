//! The current settings of a mementer: a last-write-wins register read
//! from the links that the local replica knows.
//!
//! Among the settings links of a mementer whose target the store can
//! supply, the most recent wins. Recency is the pair of timestamp and
//! action hash, so every replica that knows the same links picks the same
//! winner, in whatever order the links arrived.

use crate::edge::edge_outranks;
use crate::edge::lemma_rank_congruent;
use crate::edge::lemma_rank_total;
use crate::edge::lemma_rank_transitive;
use crate::edge::outranks;
use crate::edge::same_rank;
use crate::edge::Edge;
use crate::entries::EntryTypes;
use crate::entries::LinkTypes;
use crate::entries::Mementer;
use crate::entries::MementerSettings;
use crate::entries::MementerView;
use crate::error::not_found;
use crate::error::spec_not_found_text;
use crate::error::MementerError;
use crate::hash::copy_bytes;
use crate::hash::is_action_hash;
use crate::hash::is_entry_hash;
use crate::hash::same_bytes;
use crate::hash::spec_is_action_hash;
use crate::hash::spec_is_entry_hash;
use crate::store::Details;
use crate::store::ObjectStore;
use vstd::prelude::*;

verus! {

/// The settings that a stored item holds: those of a record whose entry
/// decodes as settings. Anything else holds none.
pub open spec fn spec_settings_of(details: Details) -> Option<MementerSettings> {
    match details {
        Details::Record(record) => match record.entry {
            Some(EntryTypes::MementerSettings(settings)) => Some(settings),
            _ => None,
        },
        Details::Entry(_) => None,
    }
}

/// The settings that the store can supply for a target hash.
pub open spec fn spec_revision(store: Map<Seq<u8>, Details>, target: Seq<u8>) -> Option<
    MementerSettings,
> {
    if store.contains_key(target) {
        spec_settings_of(store[target])
    } else {
        None
    }
}

/// Whether an edge is a settings link of the mementer `id` in the
/// expected shape: made by a link creation, from the mementer's entry
/// hash to an action hash.
pub open spec fn is_revision_of(edge: Edge, id: Seq<u8>) -> bool {
    &&& edge.link_type == LinkTypes::MementerSettings
    &&& edge.is_create_link
    &&& edge.base@ == id
    &&& spec_is_entry_hash(edge.base@)
    &&& spec_is_action_hash(edge.target@)
}

/// Whether edge `i` can give the mementer `id` its settings: it is a
/// settings link of `id` and the store supplies settings for its target.
pub open spec fn candidate(id: Seq<u8>, edges: Seq<Edge>, store: Map<Seq<u8>, Details>, i: int) -> bool {
    &&& 0 <= i < edges.len()
    &&& is_revision_of(edges[i], id)
    &&& spec_revision(store, edges[i].target@) is Some
}

/// Whether edge `i` is the winner: a candidate that no candidate
/// outranks, and the first of its rank.
pub open spec fn wins(id: Seq<u8>, edges: Seq<Edge>, store: Map<Seq<u8>, Details>, i: int) -> bool {
    &&& candidate(id, edges, store, i)
    &&& forall|j: int| #[trigger]
        candidate(id, edges, store, j) ==> !outranks(edges[j], edges[i]) && (same_rank(
            edges[j],
            edges[i],
        ) ==> i <= j)
}

/// The position of the winner, if there is a candidate at all.
pub open spec fn spec_winner(id: Seq<u8>, edges: Seq<Edge>, store: Map<Seq<u8>, Details>) -> Option<
    int,
> {
    if exists|i: int| wins(id, edges, store, i) {
        Some(choose|i: int| wins(id, edges, store, i))
    } else {
        None
    }
}

/// The current state of the mementer `id`: its identity with the settings
/// behind the winning edge, or nothing where no edge resolves.
pub open spec fn spec_resolve(id: Seq<u8>, edges: Seq<Edge>, store: Map<Seq<u8>, Details>) -> Option<
    MementerView,
> {
    match spec_winner(id, edges, store) {
        Some(i) => Some(
            MementerView {
                entry_hash: id,
                settings: spec_revision(store, edges[i].target@).unwrap(),
            },
        ),
        None => None,
    }
}

/// There is at most one winner.
pub proof fn lemma_winner_unique(
    id: Seq<u8>,
    edges: Seq<Edge>,
    store: Map<Seq<u8>, Details>,
    i: int,
    j: int,
)
    requires
        wins(id, edges, store, i),
        wins(id, edges, store, j),
    ensures
        i == j,
{
    lemma_rank_total(edges[i], edges[j]);
}

/// A winner is the winner.
pub proof fn lemma_winner_is(id: Seq<u8>, edges: Seq<Edge>, store: Map<Seq<u8>, Details>, i: int)
    requires
        wins(id, edges, store, i),
    ensures
        spec_winner(id, edges, store) == Some(i),
{
    let k = choose|k: int| wins(id, edges, store, k);
    lemma_winner_unique(id, edges, store, i, k);
}

/// With no candidate there is no winner.
pub proof fn lemma_no_winner(id: Seq<u8>, edges: Seq<Edge>, store: Map<Seq<u8>, Details>)
    requires
        forall|j: int| !candidate(id, edges, store, j),
    ensures
        spec_winner(id, edges, store) is None,
{
}

/// The settings that a stored item holds, if it holds any.
pub fn settings_of(details: &Details) -> (found: Option<&MementerSettings>)
    ensures
        found == match spec_settings_of(*details) {
            Some(settings) => Some(&settings),
            None => None,
        },
{
    match details {
        Details::Record(record) => match &record.entry {
            Some(EntryTypes::MementerSettings(settings)) => Some(settings),
            _ => None,
        },
        Details::Entry(_) => None,
    }
}

/// Builds the mementer that a stored item describes: the given identity
/// with the item's settings. An item that holds no settings gives none.
pub fn mementer_from_details(details: &Details, mementer_entry_hash: &Vec<u8>) -> (out: Option<
    Mementer,
>)
    ensures
        match spec_settings_of(*details) {
            Some(settings) => out matches Some(mementer) && mementer@ == (MementerView {
                entry_hash: mementer_entry_hash@,
                settings,
            }),
            None => out is None,
        },
{
    match settings_of(details) {
        Some(settings) => Some(
            Mementer { entry_hash: copy_bytes(mementer_entry_hash), settings: settings.clone() },
        ),
        None => None,
    }
}

/// Decides whether an edge can give the mementer `id` its settings.
pub fn is_candidate(id: &Vec<u8>, edges: &Vec<Edge>, store: &ObjectStore, i: usize) -> (yes: bool)
    ensures
        yes == candidate(id@, edges@, store@, i as int),
{
    if i >= edges.len() {
        return false;
    }
    let edge = &edges[i];
    if !(edge.link_type == LinkTypes::MementerSettings) || !edge.is_create_link {
        return false;
    }
    if !same_bytes(&edge.base, id) || !is_entry_hash(&edge.base) || !is_action_hash(&edge.target) {
        return false;
    }
    match store.get(&edge.target) {
        Some(details) => settings_of(details).is_some(),
        None => false,
    }
}

/// Whether edge `i` is the most recent of the edges marked in `among`,
/// and the first of its rank.
pub open spec fn most_recent_among(edges: Seq<Edge>, among: Seq<bool>, i: int) -> bool {
    &&& 0 <= i < edges.len()
    &&& among[i]
    &&& forall|j: int|
        0 <= j < edges.len() && #[trigger] among[j] ==> !outranks(edges[j], edges[i]) && (
        same_rank(edges[j], edges[i]) ==> i <= j)
}

/// Finds the most recent of the marked edges.
fn most_recent(edges: &Vec<Edge>, among: &Vec<bool>) -> (best: Option<usize>)
    requires
        among.len() == edges.len(),
    ensures
        match best {
            Some(i) => most_recent_among(edges@, among@, i as int),
            None => forall|j: int| 0 <= j < edges.len() ==> !among@[j],
        },
{
    let mut best: Option<usize> = None;
    let mut i: usize = 0;
    while i < edges.len()
        invariant
            i <= edges.len(),
            among.len() == edges.len(),
            match best {
                Some(b) => {
                    &&& b < i
                    &&& among@[b as int]
                    &&& forall|j: int|
                        0 <= j < i && #[trigger] among@[j] ==> !outranks(
                            edges@[j],
                            edges@[b as int],
                        ) && (same_rank(edges@[j], edges@[b as int]) ==> b <= j)
                },
                None => forall|j: int| 0 <= j < i ==> !among@[j],
            },
        decreases edges.len() - i,
    {
        if among[i] {
            let replace = match best {
                Some(b) => edge_outranks(&edges[i], &edges[b]),
                None => true,
            };
            if replace {
                proof {
                    lemma_rank_total(edges@[i as int], edges@[i as int]);
                    if let Some(b) = best {
                        assert forall|j: int| 0 <= j < i && #[trigger] among@[j] implies !outranks(
                            edges@[j],
                            edges@[i as int],
                        ) && !same_rank(edges@[j], edges@[i as int]) by {
                            if outranks(edges@[j], edges@[i as int]) {
                                lemma_rank_transitive(edges@[j], edges@[i as int], edges@[b as int]);
                            }
                            if same_rank(edges@[j], edges@[i as int]) {
                                lemma_rank_congruent(edges@[j], edges@[i as int], edges@[b as int]);
                            }
                        }
                    }
                }
                best = Some(i);
            }
        }
        i = i + 1;
    }
    best
}

/// Finds the winning edge of the mementer `id`.
pub fn latest_revision(id: &Vec<u8>, edges: &Vec<Edge>, store: &ObjectStore) -> (winner: Option<
    usize,
>)
    ensures
        match winner {
            Some(i) => spec_winner(id@, edges@, store@) == Some(i as int),
            None => spec_winner(id@, edges@, store@) is None,
        },
        winner is None <==> forall|j: int| !candidate(id@, edges@, store@, j),
{
    let mut among: Vec<bool> = Vec::new();
    let mut i: usize = 0;
    while i < edges.len()
        invariant
            i <= edges.len(),
            among.len() == i,
            forall|j: int| 0 <= j < i ==> among@[j] == candidate(id@, edges@, store@, j),
        decreases edges.len() - i,
    {
        among.push(is_candidate(id, edges, store, i));
        i = i + 1;
    }
    let best = most_recent(edges, &among);
    proof {
        match best {
            Some(b) => {
                assert forall|j: int| #[trigger]
                    candidate(id@, edges@, store@, j) implies !outranks(
                    edges@[j],
                    edges@[b as int],
                ) && (same_rank(edges@[j], edges@[b as int]) ==> b <= j) by {
                    assert(among@[j]);
                }
                lemma_winner_is(id@, edges@, store@, b as int);
            },
            None => {
                assert forall|j: int| !candidate(id@, edges@, store@, j) by {
                    if 0 <= j < edges.len() {
                        assert(!among@[j]);
                    }
                }
                lemma_no_winner(id@, edges@, store@);
            },
        }
    }
    best
}

/// Whether `hash` is one of `list`.
pub open spec fn listed(list: Seq<Vec<u8>>, hash: Seq<u8>) -> bool {
    exists|k: int| 0 <= k < list.len() && #[trigger] list[k]@ == hash
}

/// Decides whether `hash` is one of `list`.
pub fn is_listed(list: &Vec<Vec<u8>>, hash: &Vec<u8>) -> (yes: bool)
    ensures
        yes == listed(list@, hash@),
{
    let mut k: usize = 0;
    while k < list.len()
        invariant
            k <= list.len(),
            forall|n: int| 0 <= n < k ==> list@[n]@ != hash@,
        decreases list.len() - k,
    {
        if same_bytes(&list[k], hash) {
            return true;
        }
        k = k + 1;
    }
    false
}

/// Whether the target of edge `i` is still to be looked up: the edge is a
/// settings link of `id`, and its target is neither in the snapshot nor
/// among the hashes that the store is known to lack.
pub open spec fn pending(
    id: Seq<u8>,
    edges: Seq<Edge>,
    store: Map<Seq<u8>, Details>,
    missing: Seq<Vec<u8>>,
    i: int,
) -> bool {
    &&& 0 <= i < edges.len()
    &&& is_revision_of(edges[i], id)
    &&& !store.contains_key(edges[i].target@)
    &&& !listed(missing, edges[i].target@)
}

/// Whether the snapshot decides the state of `id`: no target that is
/// still to be looked up belongs to an edge more recent than the winner.
pub open spec fn settled(
    id: Seq<u8>,
    edges: Seq<Edge>,
    store: Map<Seq<u8>, Details>,
    missing: Seq<Vec<u8>>,
) -> bool {
    forall|j: int| #[trigger]
        pending(id, edges, store, missing, j) ==> (spec_winner(id, edges, store) matches Some(w)
            && !outranks(edges[j], edges[w]))
}

/// Chooses the next target to fetch for the mementer `id`: that of the
/// most recent settings link not yet looked up, as long as it is more
/// recent than the winner of the snapshot. Once nothing is returned, the
/// snapshot resolves `id` as a complete one would. A caller fetches the
/// target, puts what it found into the snapshot or the hash into
/// `missing`, and asks again.
pub fn next_lookup(
    id: &Vec<u8>,
    edges: &Vec<Edge>,
    store: &ObjectStore,
    missing: &Vec<Vec<u8>>,
) -> (next: Option<usize>)
    ensures
        match next {
            Some(i) => {
                &&& pending(id@, edges@, store@, missing@, i as int)
                &&& forall|j: int| #[trigger]
                    pending(id@, edges@, store@, missing@, j) ==> !outranks(
                        edges@[j],
                        edges@[i as int],
                    ) && (same_rank(edges@[j], edges@[i as int]) ==> i <= j)
                &&& spec_winner(id@, edges@, store@) matches Some(w) ==> outranks(
                    edges@[i as int],
                    edges@[w],
                )
            },
            None => settled(id@, edges@, store@, missing@),
        },
{
    let mut among: Vec<bool> = Vec::new();
    let mut i: usize = 0;
    while i < edges.len()
        invariant
            i <= edges.len(),
            among.len() == i,
            forall|j: int| 0 <= j < i ==> among@[j] == pending(id@, edges@, store@, missing@, j),
        decreases edges.len() - i,
    {
        let edge = &edges[i];
        let open = edge.link_type == LinkTypes::MementerSettings && edge.is_create_link
            && same_bytes(&edge.base, id) && is_entry_hash(&edge.base) && is_action_hash(
            &edge.target,
        ) && store.get(&edge.target).is_none() && !is_listed(missing, &edge.target);
        among.push(open);
        i = i + 1;
    }
    let first = most_recent(edges, &among);
    let winner = latest_revision(id, edges, store);
    match first {
        Some(f) => {
            let worth = match winner {
                Some(w) => edge_outranks(&edges[f], &edges[w]),
                None => true,
            };
            if worth {
                proof {
                    assert forall|j: int| #[trigger]
                        pending(id@, edges@, store@, missing@, j) implies !outranks(
                        edges@[j],
                        edges@[f as int],
                    ) && (same_rank(edges@[j], edges@[f as int]) ==> f <= j) by {
                        assert(among@[j]);
                    }
                }
                Some(f)
            } else {
                proof {
                    let w = winner.unwrap() as int;
                    assert forall|j: int| #[trigger]
                        pending(id@, edges@, store@, missing@, j) implies !outranks(
                        edges@[j],
                        edges@[w],
                    ) by {
                        assert(among@[j]);
                        lemma_rank_total(edges@[f as int], edges@[w]);
                        if outranks(edges@[j], edges@[w]) {
                            if same_rank(edges@[f as int], edges@[w]) {
                                lemma_rank_congruent(edges@[f as int], edges@[w], edges@[j]);
                            } else {
                                lemma_rank_transitive(edges@[j], edges@[w], edges@[f as int]);
                            }
                        }
                    }
                }
                None
            }
        },
        None => {
            proof {
                assert forall|j: int| !pending(id@, edges@, store@, missing@, j) by {
                    if 0 <= j < edges.len() {
                        assert(!among@[j]);
                    }
                }
            }
            None
        },
    }
}

/// Resolves the current state of the mementer `id` from the links known
/// and the records that the store could supply. The most recent settings
/// link whose target resolves decides. Links whose target the store
/// lacks, or holds in another shape, are passed over, and so are links of
/// a foreign shape.
pub fn resolve_current(id: &Vec<u8>, edges: &Vec<Edge>, store: &ObjectStore) -> (out: Option<
    Mementer,
>)
    ensures
        match spec_resolve(id@, edges@, store@) {
            Some(view) => out matches Some(mementer) && mementer@ == view,
            None => out is None,
        },
        out is None <==> forall|j: int| !candidate(id@, edges@, store@, j),
{
    match latest_revision(id, edges, store) {
        Some(i) => {
            assert(wins(id@, edges@, store@, i as int));
            match store.get(&edges[i].target) {
                Some(details) => mementer_from_details(details, id),
                None => None,
            }
        },
        None => None,
    }
}

/// Looks a mementer up by its identity. Fails with the text
/// `Mementer not found` where no settings link of it resolves.
pub fn get_mementer(mementer_entry_hash: &Vec<u8>, edges: &Vec<Edge>, store: &ObjectStore) -> (out:
    Result<Mementer, MementerError>)
    ensures
        match spec_resolve(mementer_entry_hash@, edges@, store@) {
            Some(view) => out matches Ok(mementer) && mementer@ == view,
            None => out matches Err(MementerError::Wasm(text)) && text@ == spec_not_found_text(),
        },
{
    match resolve_current(mementer_entry_hash, edges, store) {
        Some(mementer) => Ok(mementer),
        None => Err(not_found()),
    }
}

/// The byte strings that a list of hashes holds.
pub open spec fn byte_views(hashes: Seq<Vec<u8>>) -> Seq<Seq<u8>> {
    hashes.map_values(|hash: Vec<u8>| hash@)
}

/// The mementers of a list, apart from where their bytes are kept.
pub open spec fn mementer_views(mementers: Seq<Mementer>) -> Seq<MementerView> {
    mementers.map_values(|mementer: Mementer| mementer@)
}

/// The current states of several mementers: each identity resolved by
/// itself, in the order given, those that do not resolve left out.
pub open spec fn spec_resolve_all(
    ids: Seq<Seq<u8>>,
    edges: Seq<Edge>,
    store: Map<Seq<u8>, Details>,
) -> Seq<MementerView>
    decreases ids.len(),
{
    if ids.len() == 0 {
        Seq::empty()
    } else {
        let front = spec_resolve_all(ids.drop_last(), edges, store);
        match spec_resolve(ids.last(), edges, store) {
            Some(view) => front.push(view),
            None => front,
        }
    }
}

/// Resolves several mementers against one snapshot. The result is what
/// resolving each of them alone gives: no mementer's links bear on
/// another's state.
pub fn get_latest_mementer_settings(
    inputs: &Vec<Vec<u8>>,
    edges: &Vec<Edge>,
    store: &ObjectStore,
) -> (out: Vec<Mementer>)
    ensures
        mementer_views(out@) == spec_resolve_all(byte_views(inputs@), edges@, store@),
{
    let ghost ids = byte_views(inputs@);
    let mut mementers: Vec<Mementer> = Vec::new();
    let mut i: usize = 0;
    assert(ids.subrange(0, 0) =~= Seq::<Seq<u8>>::empty());
    assert(mementer_views(mementers@) =~= Seq::<MementerView>::empty());
    while i < inputs.len()
        invariant
            i <= inputs.len(),
            ids == byte_views(inputs@),
            mementer_views(mementers@) == spec_resolve_all(
                ids.subrange(0, i as int),
                edges@,
                store@,
            ),
        decreases inputs.len() - i,
    {
        let ghost before = mementers@;
        proof {
            let upto = ids.subrange(0, i + 1);
            assert(upto.drop_last() =~= ids.subrange(0, i as int));
            assert(upto.last() == inputs@[i as int]@);
        }
        match resolve_current(&inputs[i], edges, store) {
            Some(mementer) => {
                mementers.push(mementer);
                assert(mementer_views(mementers@) =~= mementer_views(before).push(mementer@));
            },
            None => {},
        }
        i = i + 1;
    }
    assert(ids.subrange(0, ids.len() as int) =~= ids);
    mementers
}

/// Whether an edge lists its target as a mementer under the discovery
/// anchor.
pub open spec fn is_member_link(edge: Edge, anchor: Seq<u8>) -> bool {
    &&& edge.link_type == LinkTypes::MementerEntry
    &&& edge.is_create_link
    &&& edge.base@ == anchor
}

/// The identities that the anchor lists, in the order of their links.
pub open spec fn spec_members(anchor: Seq<u8>, edges: Seq<Edge>) -> Seq<Seq<u8>>
    decreases edges.len(),
{
    if edges.len() == 0 {
        Seq::empty()
    } else {
        let front = spec_members(anchor, edges.drop_last());
        if is_member_link(edges.last(), anchor) {
            front.push(edges.last().target@)
        } else {
            front
        }
    }
}

/// Lists the mementers under the discovery anchor, without resolving
/// any of them.
pub fn mementer_ids(anchor: &Vec<u8>, edges: &Vec<Edge>) -> (ids: Vec<Vec<u8>>)
    ensures
        byte_views(ids@) == spec_members(anchor@, edges@),
{
    let mut ids: Vec<Vec<u8>> = Vec::new();
    let mut i: usize = 0;
    assert(edges@.subrange(0, 0) =~= Seq::<Edge>::empty());
    assert(byte_views(ids@) =~= Seq::<Seq<u8>>::empty());
    while i < edges.len()
        invariant
            i <= edges.len(),
            byte_views(ids@) == spec_members(anchor@, edges@.subrange(0, i as int)),
        decreases edges.len() - i,
    {
        let ghost before = ids@;
        proof {
            let upto = edges@.subrange(0, i + 1);
            assert(upto.drop_last() =~= edges@.subrange(0, i as int));
            assert(upto.last() == edges@[i as int]);
        }
        let edge = &edges[i];
        if edge.link_type == LinkTypes::MementerEntry && edge.is_create_link && same_bytes(
            &edge.base,
            anchor,
        ) {
            let id = copy_bytes(&edge.target);
            ids.push(id);
            assert(byte_views(ids@) =~= byte_views(before).push(edge.target@));
        }
        i = i + 1;
    }
    assert(edges@.subrange(0, edges@.len() as int) =~= edges@);
    ids
}

/// Lists the mementers under the discovery anchor, each with its current
/// settings. A listed mementer that does not resolve is left out.
pub fn get_mementers(anchor: &Vec<u8>, edges: &Vec<Edge>, store: &ObjectStore) -> (out: Vec<
    Mementer,
>)
    ensures
        mementer_views(out@) == spec_resolve_all(
            spec_members(anchor@, edges@),
            edges@,
            store@,
        ),
{
    let ids = mementer_ids(anchor, edges);
    get_latest_mementer_settings(&ids, edges, store)
}

} // verus!
