//! The write operations, as plans that the caller carries out.
//!
//! Nothing here touches the store. Each operation is a function from the
//! hashes that the host has answered so far to the next call to make, or
//! to the result once every call is made. The caller makes the call, adds
//! the hash that came back, and asks again. A caller that stops half way
//! leaves behind what the calls so far have written: the store is
//! append-only and nothing is rolled back.
//!
//! No operation reads or compares earlier revisions. Concurrent writers
//! are reconciled when the mementer is read.

use crate::entries::Bead;
use crate::entries::EntryTypes;
use crate::entries::EntryTypesView;
use crate::entries::LinkTypes;
use crate::entries::Mementer;
use crate::entries::MementerEntry;
use crate::entries::MementerSettings;
use crate::hash::copy_bytes;
use crate::resolve::byte_views;
use vstd::prelude::*;

verus! {

/// A call for the host to make. Each call is answered with one hash.
#[derive(Debug, PartialEq, Eq)]
pub enum HostCall {
    /// Store an entry. Answered with the hash of the action that stored it.
    CreateEntry(EntryTypes),
    /// Hash an entry without storing it. Answered with the entry's hash.
    HashEntry(EntryTypes),
    /// Make sure that the anchor of this path exists. Answered with the
    /// anchor's hash.
    EnsurePath(String),
    /// Link `base` to `target`. Answered with the hash of the action that
    /// created the link.
    CreateLink { base: Vec<u8>, target: Vec<u8>, link_type: LinkTypes },
}

/// What a `HostCall` is, apart from where its bytes are kept.
pub ghost enum HostCallView {
    CreateEntry(EntryTypesView),
    HashEntry(EntryTypesView),
    EnsurePath(Seq<char>),
    CreateLink { base: Seq<u8>, target: Seq<u8>, link_type: LinkTypes },
}

impl View for HostCall {
    type V = HostCallView;

    open spec fn view(&self) -> HostCallView {
        match *self {
            HostCall::CreateEntry(entry) => HostCallView::CreateEntry(entry@),
            HostCall::HashEntry(entry) => HostCallView::HashEntry(entry@),
            HostCall::EnsurePath(path) => HostCallView::EnsurePath(path@),
            HostCall::CreateLink { base, target, link_type } => HostCallView::CreateLink {
                base: base@,
                target: target@,
                link_type,
            },
        }
    }
}

/// Where an operation stands: a call is due, or the operation is done.
#[derive(Debug, PartialEq, Eq)]
pub enum Step<T> {
    Call(HostCall),
    Done(T),
}

/// What a `Step` is, apart from where its bytes are kept.
pub ghost enum StepView<V> {
    Call(HostCallView),
    Done(V),
}

impl<T: View> View for Step<T> {
    type V = StepView<T::V>;

    open spec fn view(&self) -> StepView<T::V> {
        match *self {
            Step::Call(call) => StepView::Call(call@),
            Step::Done(out) => StepView::Done(out@),
        }
    }
}

/// The hashes of a new mementer: of the action that stored its identity,
/// of the action that stored its first settings, and of its identity entry.
#[derive(Debug, PartialEq, Eq)]
pub struct CreateMementerOutput {
    pub action_hash: Vec<u8>,
    pub settings_action_hash: Vec<u8>,
    pub entry_hash: Vec<u8>,
}

/// What a `CreateMementerOutput` is, apart from where its bytes are kept.
pub ghost struct CreateMementerOutputView {
    pub action_hash: Seq<u8>,
    pub settings_action_hash: Seq<u8>,
    pub entry_hash: Seq<u8>,
}

impl View for CreateMementerOutput {
    type V = CreateMementerOutputView;

    open spec fn view(&self) -> CreateMementerOutputView {
        CreateMementerOutputView {
            action_hash: self.action_hash@,
            settings_action_hash: self.settings_action_hash@,
            entry_hash: self.entry_hash@,
        }
    }
}

/// The hashes of a new entry: of the action that stored it, and its own.
#[derive(Debug, PartialEq, Eq)]
pub struct CreateOutput {
    pub action_hash: Vec<u8>,
    pub entry_hash: Vec<u8>,
}

/// What a `CreateOutput` is, apart from where its bytes are kept.
pub ghost struct CreateOutputView {
    pub action_hash: Seq<u8>,
    pub entry_hash: Seq<u8>,
}

impl View for CreateOutput {
    type V = CreateOutputView;

    open spec fn view(&self) -> CreateOutputView {
        CreateOutputView { action_hash: self.action_hash@, entry_hash: self.entry_hash@ }
    }
}

/// A bead to attach, and the mementer to attach it to.
#[derive(Debug, PartialEq, Eq)]
pub struct CreateBeadInput {
    pub entry_hash: Vec<u8>,
    pub bead: Bead,
}

/// The path of the anchor under which every mementer is listed.
pub open spec fn spec_anchor_path() -> Seq<char> {
    "mementers"@
}

pub fn anchor_path() -> (path: String)
    ensures
        path@ == spec_anchor_path(),
{
    "mementers".to_owned()
}

/// The plan of `create_mementer`: store the settings, store the identity
/// that names them, hash the identity, make sure of the anchor, link the
/// anchor to the identity, link the identity to the settings.
pub open spec fn spec_create_mementer(input: MementerSettings, replies: Seq<Seq<u8>>) -> StepView<
    CreateMementerOutputView,
> {
    if replies.len() == 0 {
        StepView::Call(HostCallView::CreateEntry(EntryTypesView::MementerSettings(input)))
    } else if replies.len() == 1 {
        StepView::Call(HostCallView::CreateEntry(EntryTypesView::MementerEntry(replies[0])))
    } else if replies.len() == 2 {
        StepView::Call(HostCallView::HashEntry(EntryTypesView::MementerEntry(replies[0])))
    } else if replies.len() == 3 {
        StepView::Call(HostCallView::EnsurePath(spec_anchor_path()))
    } else if replies.len() == 4 {
        StepView::Call(
            HostCallView::CreateLink {
                base: replies[3],
                target: replies[2],
                link_type: LinkTypes::MementerEntry,
            },
        )
    } else if replies.len() == 5 {
        StepView::Call(
            HostCallView::CreateLink {
                base: replies[2],
                target: replies[0],
                link_type: LinkTypes::MementerSettings,
            },
        )
    } else {
        StepView::Done(
            CreateMementerOutputView {
                action_hash: replies[1],
                settings_action_hash: replies[0],
                entry_hash: replies[2],
            },
        )
    }
}

/// Creates a mementer with its first settings. `replies` holds the
/// answers to the calls made so far, in order.
pub fn create_mementer(input: &MementerSettings, replies: &Vec<Vec<u8>>) -> (step: Step<
    CreateMementerOutput,
>)
    ensures
        step@ == spec_create_mementer(*input, byte_views(replies@)),
{
    let made = replies.len();
    if made == 0 {
        Step::Call(HostCall::CreateEntry(EntryTypes::MementerSettings(input.clone())))
    } else if made == 1 {
        let mementer = MementerEntry { id: copy_bytes(&replies[0]) };
        Step::Call(HostCall::CreateEntry(EntryTypes::MementerEntry(mementer)))
    } else if made == 2 {
        let mementer = MementerEntry { id: copy_bytes(&replies[0]) };
        Step::Call(HostCall::HashEntry(EntryTypes::MementerEntry(mementer)))
    } else if made == 3 {
        Step::Call(HostCall::EnsurePath(anchor_path()))
    } else if made == 4 {
        Step::Call(
            HostCall::CreateLink {
                base: copy_bytes(&replies[3]),
                target: copy_bytes(&replies[2]),
                link_type: LinkTypes::MementerEntry,
            },
        )
    } else if made == 5 {
        Step::Call(
            HostCall::CreateLink {
                base: copy_bytes(&replies[2]),
                target: copy_bytes(&replies[0]),
                link_type: LinkTypes::MementerSettings,
            },
        )
    } else {
        Step::Done(
            CreateMementerOutput {
                action_hash: copy_bytes(&replies[1]),
                settings_action_hash: copy_bytes(&replies[0]),
                entry_hash: copy_bytes(&replies[2]),
            },
        )
    }
}

/// The plan of `update_mementer`: store the new settings, link the
/// mementer to them. The result is the hash of the action that stored
/// the settings.
pub open spec fn spec_update_mementer(
    entry_hash: Seq<u8>,
    settings: MementerSettings,
    replies: Seq<Seq<u8>>,
) -> StepView<Seq<u8>> {
    if replies.len() == 0 {
        StepView::Call(HostCallView::CreateEntry(EntryTypesView::MementerSettings(settings)))
    } else if replies.len() == 1 {
        StepView::Call(
            HostCallView::CreateLink {
                base: entry_hash,
                target: replies[0],
                link_type: LinkTypes::MementerSettings,
            },
        )
    } else {
        StepView::Done(replies[0])
    }
}

/// Records a revision of a mementer's settings.
pub fn update_mementer(input: &Mementer, replies: &Vec<Vec<u8>>) -> (step: Step<Vec<u8>>)
    ensures
        step@ == spec_update_mementer(input.entry_hash@, input.settings, byte_views(replies@)),
{
    let made = replies.len();
    if made == 0 {
        Step::Call(HostCall::CreateEntry(EntryTypes::MementerSettings(input.settings.clone())))
    } else if made == 1 {
        Step::Call(
            HostCall::CreateLink {
                base: copy_bytes(&input.entry_hash),
                target: copy_bytes(&replies[0]),
                link_type: LinkTypes::MementerSettings,
            },
        )
    } else {
        Step::Done(copy_bytes(&replies[0]))
    }
}

/// The plan of `create_bead`: store the bead, hash it, link the mementer
/// to it.
pub open spec fn spec_create_bead(entry_hash: Seq<u8>, bead: Bead, replies: Seq<Seq<u8>>) -> StepView<
    CreateOutputView,
> {
    if replies.len() == 0 {
        StepView::Call(HostCallView::CreateEntry(EntryTypesView::Bead(bead)))
    } else if replies.len() == 1 {
        StepView::Call(HostCallView::HashEntry(EntryTypesView::Bead(bead)))
    } else if replies.len() == 2 {
        StepView::Call(
            HostCallView::CreateLink {
                base: entry_hash,
                target: replies[1],
                link_type: LinkTypes::Bead,
            },
        )
    } else {
        StepView::Done(CreateOutputView { action_hash: replies[0], entry_hash: replies[1] })
    }
}

/// Attaches a bead to a mementer's timeline.
pub fn create_bead(input: &CreateBeadInput, replies: &Vec<Vec<u8>>) -> (step: Step<CreateOutput>)
    ensures
        step@ == spec_create_bead(input.entry_hash@, input.bead, byte_views(replies@)),
{
    let made = replies.len();
    if made == 0 {
        Step::Call(HostCall::CreateEntry(EntryTypes::Bead(input.bead.clone())))
    } else if made == 1 {
        Step::Call(HostCall::HashEntry(EntryTypes::Bead(input.bead.clone())))
    } else if made == 2 {
        Step::Call(
            HostCall::CreateLink {
                base: copy_bytes(&input.entry_hash),
                target: copy_bytes(&replies[1]),
                link_type: LinkTypes::Bead,
            },
        )
    } else {
        Step::Done(
            CreateOutput {
                action_hash: copy_bytes(&replies[0]),
                entry_hash: copy_bytes(&replies[1]),
            },
        )
    }
}

} // verus!
