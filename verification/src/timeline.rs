//! The timeline of a mementer: the beads attached to it.
//!
//! A bead link whose target the store lacks, or holds in another shape,
//! is passed over in silence. Partial replication and foreign data never
//! fail a listing. The order of a listing is that of the links, which
//! says nothing of time: sort by each bead's own `time_stamp`.

use crate::edge::Edge;
use crate::entries::Bead;
use crate::entries::EntryTypes;
use crate::entries::LinkTypes;
use crate::hash::copy_bytes;
use crate::hash::is_dht_hash;
use crate::hash::same_bytes;
use crate::hash::spec_is_dht_hash;
use crate::store::Details;
use crate::store::ObjectStore;
use vstd::prelude::*;

verus! {

/// A bead with where and by whom it was first stored.
#[derive(Debug, PartialEq, Eq)]
pub struct CreateBeadOutput {
    pub action_hash: Vec<u8>,
    pub entry_hash: Vec<u8>,
    pub agent_key: Vec<u8>,
    pub bead: Bead,
    pub timestamp: i64,
}

/// What a `CreateBeadOutput` is, apart from where its bytes are kept.
pub ghost struct CreateBeadOutputView {
    pub action_hash: Seq<u8>,
    pub entry_hash: Seq<u8>,
    pub agent_key: Seq<u8>,
    pub bead: Bead,
    pub timestamp: i64,
}

impl View for CreateBeadOutput {
    type V = CreateBeadOutputView;

    open spec fn view(&self) -> CreateBeadOutputView {
        CreateBeadOutputView {
            action_hash: self.action_hash@,
            entry_hash: self.entry_hash@,
            agent_key: self.agent_key@,
            bead: self.bead,
            timestamp: self.timestamp,
        }
    }
}

/// A bead of a timeline, with the hash of its entry.
#[derive(Debug, PartialEq, Eq)]
pub struct BeadOutput {
    pub entry_hash: Vec<u8>,
    pub bead: Bead,
}

/// What a `BeadOutput` is, apart from where its bytes are kept.
pub ghost struct BeadOutputView {
    pub entry_hash: Seq<u8>,
    pub bead: Bead,
}

impl View for BeadOutput {
    type V = BeadOutputView;

    open spec fn view(&self) -> BeadOutputView {
        BeadOutputView { entry_hash: self.entry_hash@, bead: self.bead }
    }
}

/// The bead that a stored item holds, with the first of the actions that
/// created it: that of an entry which decodes as a bead and has a
/// creating action on record. Anything else holds none.
pub open spec fn spec_bead_of(details: Details) -> Option<CreateBeadOutputView> {
    match details {
        Details::Entry(found) => match found.entry {
            Some(EntryTypes::Bead(bead)) => if found.actions@.len() > 0 {
                Some(
                    CreateBeadOutputView {
                        action_hash: found.actions@[0].action_hash@,
                        entry_hash: found.entry_hash@,
                        agent_key: found.actions@[0].author@,
                        bead,
                        timestamp: found.actions@[0].timestamp,
                    },
                )
            } else {
                None
            },
            _ => None,
        },
        Details::Record(_) => None,
    }
}

/// Reads a bead out of what the store holds under an entry hash.
pub fn bead_from_details(details: &Details) -> (out: Option<CreateBeadOutput>)
    ensures
        match spec_bead_of(*details) {
            Some(view) => out matches Some(bead) && bead@ == view,
            None => out is None,
        },
{
    match details {
        Details::Entry(found) => match &found.entry {
            Some(EntryTypes::Bead(bead)) => {
                if found.actions.len() == 0 {
                    return None;
                }
                let action = &found.actions[0];
                Some(
                    CreateBeadOutput {
                        action_hash: copy_bytes(&action.action_hash),
                        entry_hash: copy_bytes(&found.entry_hash),
                        agent_key: copy_bytes(&action.author),
                        bead: bead.clone(),
                        timestamp: action.timestamp,
                    },
                )
            },
            _ => None,
        },
        Details::Record(_) => None,
    }
}

/// The bead that the store can supply for a target hash.
pub open spec fn spec_attachment(store: Map<Seq<u8>, Details>, target: Seq<u8>) -> Option<
    CreateBeadOutputView,
> {
    if store.contains_key(target) {
        spec_bead_of(store[target])
    } else {
        None
    }
}

/// Whether an edge attaches something to the mementer `id`: a bead link
/// from `id` whose target is the hash of something that can be stored.
pub open spec fn is_bead_link(edge: Edge, id: Seq<u8>) -> bool {
    &&& edge.link_type == LinkTypes::Bead
    &&& edge.is_create_link
    &&& edge.base@ == id
    &&& spec_is_dht_hash(edge.target@)
}

/// Whether edge `i` contributes a bead to the timeline of `id`.
pub open spec fn attaches(id: Seq<u8>, edges: Seq<Edge>, store: Map<Seq<u8>, Details>, i: int) -> bool {
    &&& 0 <= i < edges.len()
    &&& is_bead_link(edges[i], id)
    &&& spec_attachment(store, edges[i].target@) is Some
}

/// The bead that edge `i` contributes.
pub open spec fn spec_bead_at(edges: Seq<Edge>, store: Map<Seq<u8>, Details>, i: int) -> BeadOutputView {
    let found = spec_attachment(store, edges[i].target@).unwrap();
    BeadOutputView { entry_hash: found.entry_hash, bead: found.bead }
}

/// The timeline of `id`: the beads of the edges that contribute one, in
/// the order of the edges.
pub open spec fn spec_beads(id: Seq<u8>, edges: Seq<Edge>, store: Map<Seq<u8>, Details>) -> Seq<
    BeadOutputView,
>
    decreases edges.len(),
{
    if edges.len() == 0 {
        Seq::empty()
    } else {
        let front = spec_beads(id, edges.drop_last(), store);
        if attaches(id, edges, store, edges.len() - 1) {
            front.push(spec_bead_at(edges, store, edges.len() - 1))
        } else {
            front
        }
    }
}

/// The beads of a list, apart from where their bytes are kept.
pub open spec fn bead_views(beads: Seq<BeadOutput>) -> Seq<BeadOutputView> {
    beads.map_values(|bead: BeadOutput| bead@)
}

/// Collects the timeline of the mementer `base` from the links known and
/// the entries that the store could supply.
pub fn get_beads_inner(base: &Vec<u8>, edges: &Vec<Edge>, store: &ObjectStore) -> (out: Vec<
    BeadOutput,
>)
    ensures
        bead_views(out@) == spec_beads(base@, edges@, store@),
{
    let mut beads: Vec<BeadOutput> = Vec::new();
    let mut i: usize = 0;
    assert(edges@.subrange(0, 0) =~= Seq::<Edge>::empty());
    assert(bead_views(beads@) =~= Seq::<BeadOutputView>::empty());
    while i < edges.len()
        invariant
            i <= edges.len(),
            bead_views(beads@) == spec_beads(base@, edges@.subrange(0, i as int), store@),
        decreases edges.len() - i,
    {
        let ghost before = beads@;
        proof {
            let upto = edges@.subrange(0, i + 1);
            assert(upto.drop_last() =~= edges@.subrange(0, i as int));
            assert(upto[i as int] == edges@[i as int]);
            assert(attaches(base@, upto, store@, i as int) == attaches(
                base@,
                edges@,
                store@,
                i as int,
            ));
            assert(spec_bead_at(upto, store@, i as int) == spec_bead_at(edges@, store@, i as int));
        }
        let edge = &edges[i];
        if edge.link_type == LinkTypes::Bead && edge.is_create_link && same_bytes(&edge.base, base)
            && is_dht_hash(&edge.target) {
            match store.get(&edge.target) {
                Some(details) => match bead_from_details(details) {
                    Some(found) => {
                        let bead = BeadOutput { entry_hash: found.entry_hash, bead: found.bead };
                        beads.push(bead);
                        assert(bead_views(beads@) =~= bead_views(before).push(bead@));
                    },
                    None => {},
                },
                None => {},
            }
        }
        i = i + 1;
    }
    assert(edges@.subrange(0, edges@.len() as int) =~= edges@);
    beads
}

/// Lists the timeline of a mementer. The listing never fails: a link
/// that leads to nothing readable is left out.
pub fn get_beads(entry_hash: &Vec<u8>, edges: &Vec<Edge>, store: &ObjectStore) -> (out: Vec<
    BeadOutput,
>)
    ensures
        bead_views(out@) == spec_beads(entry_hash@, edges@, store@),
{
    get_beads_inner(entry_hash, edges, store)
}

/// Every link that contributes a bead is in the timeline.
pub proof fn theorem_timeline_complete(
    id: Seq<u8>,
    edges: Seq<Edge>,
    store: Map<Seq<u8>, Details>,
    i: int,
)
    requires
        attaches(id, edges, store, i),
    ensures
        spec_beads(id, edges, store).contains(spec_bead_at(edges, store, i)),
    decreases edges.len(),
{
    let last = edges.len() - 1;
    let front = edges.drop_last();
    if i == last {
        let beads = spec_beads(id, edges, store);
        assert(beads[beads.len() - 1] == spec_bead_at(edges, store, i));
    } else {
        assert(front[i] == edges[i]);
        assert(attaches(id, front, store, i));
        theorem_timeline_complete(id, front, store, i);
        let k = choose|k: int|
            0 <= k < spec_beads(id, front, store).len() && spec_beads(id, front, store)[k]
                == spec_bead_at(front, store, i);
        assert(spec_beads(id, edges, store)[k] == spec_bead_at(edges, store, i));
    }
}

/// Nothing is in the timeline but what a contributing link supplies: no
/// bead of an absent or unreadable target, and none of another mementer.
pub proof fn theorem_timeline_sound(
    id: Seq<u8>,
    edges: Seq<Edge>,
    store: Map<Seq<u8>, Details>,
    k: int,
)
    requires
        0 <= k < spec_beads(id, edges, store).len(),
    ensures
        exists|i: int| #[trigger]
            attaches(id, edges, store, i) && spec_beads(id, edges, store)[k] == spec_bead_at(
                edges,
                store,
                i,
            ),
    decreases edges.len(),
{
    let last = edges.len() - 1;
    let front = edges.drop_last();
    if attaches(id, edges, store, last) && k == spec_beads(id, front, store).len() {
        assert(spec_beads(id, edges, store)[k] == spec_bead_at(edges, store, last));
    } else {
        theorem_timeline_sound(id, front, store, k);
        let i = choose|i: int| #[trigger]
            attaches(id, front, store, i) && spec_beads(id, front, store)[k] == spec_bead_at(
                front,
                store,
                i,
            );
        assert(front[i] == edges[i]);
        assert(attaches(id, edges, store, i));
        assert(spec_bead_at(front, store, i) == spec_bead_at(edges, store, i));
    }
}

} // verus!
