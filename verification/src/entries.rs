//! The records that the application stores and the links between them.

use crate::hash::copy_bytes;
use vstd::prelude::*;

verus! {

/// The identity record of a mementer. Its `id` is the hash of the action
/// that stored the first settings, which makes the identity stable and
/// derived from content.
#[derive(Debug, PartialEq, Eq)]
pub struct MementerEntry {
    pub id: Vec<u8>,
}

impl View for MementerEntry {
    type V = Seq<u8>;

    open spec fn view(&self) -> Seq<u8> {
        self.id@
    }
}

impl Clone for MementerEntry {
    fn clone(&self) -> (out: Self)
        ensures
            out@ == self@,
    {
        MementerEntry { id: copy_bytes(&self.id) }
    }
}

/// One revision of a mementer's state.
#[derive(Debug, PartialEq, Eq)]
pub struct MementerSettings {
    pub title: String,
    pub start_date: String,
    pub end_date: String,
    pub large_slices: usize,
    pub medium_slices: usize,
    pub small_slices: usize,
}

impl Clone for MementerSettings {
    fn clone(&self) -> (out: Self)
        ensures
            out == *self,
    {
        MementerSettings {
            title: self.title.clone(),
            start_date: self.start_date.clone(),
            end_date: self.end_date.clone(),
            large_slices: self.large_slices,
            medium_slices: self.medium_slices,
            small_slices: self.small_slices,
        }
    }
}

/// A mementer as readers see it: its identity and its current settings.
#[derive(Debug, PartialEq, Eq)]
pub struct Mementer {
    pub entry_hash: Vec<u8>,
    pub settings: MementerSettings,
}

/// What a `Mementer` is, apart from where its bytes are kept.
pub ghost struct MementerView {
    pub entry_hash: Seq<u8>,
    pub settings: MementerSettings,
}

impl View for Mementer {
    type V = MementerView;

    open spec fn view(&self) -> MementerView {
        MementerView { entry_hash: self.entry_hash@, settings: self.settings }
    }
}

impl Clone for Mementer {
    fn clone(&self) -> (out: Self)
        ensures
            out@ == self@,
    {
        Mementer { entry_hash: copy_bytes(&self.entry_hash), settings: self.settings.clone() }
    }
}

/// A timeline item attached to a mementer. `time_stamp` is the moment the
/// item speaks of, and the only thing to sort a timeline by.
#[derive(Debug, PartialEq, Eq)]
pub struct Bead {
    pub text: String,
    pub time_stamp: String,
    pub created_at: String,
}

impl Clone for Bead {
    fn clone(&self) -> (out: Self)
        ensures
            out == *self,
    {
        Bead {
            text: self.text.clone(),
            time_stamp: self.time_stamp.clone(),
            created_at: self.created_at.clone(),
        }
    }
}

/// The kinds of record that this application stores.
#[derive(Debug, PartialEq, Eq)]
pub enum EntryTypes {
    MementerEntry(MementerEntry),
    MementerSettings(MementerSettings),
    Bead(Bead),
}

/// What an `EntryTypes` value is, apart from where its bytes are kept.
pub ghost enum EntryTypesView {
    MementerEntry(Seq<u8>),
    MementerSettings(MementerSettings),
    Bead(Bead),
}

impl View for EntryTypes {
    type V = EntryTypesView;

    open spec fn view(&self) -> EntryTypesView {
        match *self {
            EntryTypes::MementerEntry(e) => EntryTypesView::MementerEntry(e@),
            EntryTypes::MementerSettings(s) => EntryTypesView::MementerSettings(s),
            EntryTypes::Bead(b) => EntryTypesView::Bead(b),
        }
    }
}

impl Clone for EntryTypes {
    fn clone(&self) -> (out: Self)
        ensures
            out@ == self@,
    {
        match self {
            EntryTypes::MementerEntry(e) => EntryTypes::MementerEntry(e.clone()),
            EntryTypes::MementerSettings(s) => EntryTypes::MementerSettings(s.clone()),
            EntryTypes::Bead(b) => EntryTypes::Bead(b.clone()),
        }
    }
}

/// The kinds of link. A `MementerEntry` link leads from the discovery
/// anchor to a mementer, a `MementerSettings` link from a mementer to one
/// revision of its settings, a `Bead` link from a mementer to one item of
/// its timeline.
#[derive(Clone, Copy, Debug, PartialEq, Eq, Structural)]
pub enum LinkTypes {
    MementerEntry,
    MementerSettings,
    Bead,
}

} // verus!
