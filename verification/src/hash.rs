//! Raw content hashes: what kind of thing a hash addresses, and the byte
//! order that breaks ties between actions of equal age.

use hdk::prelude::holo_hash::AnyLinkableHash;
use hdk::prelude::holo_hash::AnyLinkableHashPrimitive;
use vstd::prelude::*;

verus! {

/// Number of bytes of a full hash: three of prefix, thirty-two of digest,
/// four of location.
pub const HASH_LEN: usize = 39;

/// What a linkable hash addresses.
#[derive(Clone, Copy, Debug, PartialEq, Eq, Structural)]
pub enum HashKind {
    Entry,
    Action,
    External,
}

/// The kind that the three prefix bytes of a full hash announce, if the
/// bytes are a full hash of something linkable.
pub open spec fn spec_hash_kind(raw: Seq<u8>) -> Option<HashKind> {
    if raw.len() != 39 || raw[0] != 0x84 || raw[2] != 0x24 {
        None
    } else if raw[1] == 0x21 {
        Some(HashKind::Entry)
    } else if raw[1] == 0x29 {
        Some(HashKind::Action)
    } else if raw[1] == 0x2f {
        Some(HashKind::External)
    } else {
        None
    }
}

/// Calls `AnyLinkableHash::from_raw_39` and `AnyLinkableHash::into_primitive`
/// of `holo_hash`. Trusted: the first accepts exactly the entry, action and
/// external prefixes, and the second reports which of the three it found.
#[verifier::external_body]
fn linkable_primitive(raw: &Vec<u8>) -> (kind: Option<HashKind>)
    requires
        raw@.len() == 39,
    ensures
        kind == spec_hash_kind(raw@),
{
    match AnyLinkableHash::from_raw_39(raw.clone()) {
        Ok(hash) => match hash.into_primitive() {
            AnyLinkableHashPrimitive::Entry(_) => Some(HashKind::Entry),
            AnyLinkableHashPrimitive::Action(_) => Some(HashKind::Action),
            AnyLinkableHashPrimitive::External(_) => Some(HashKind::External),
        },
        Err(_) => None,
    }
}

/// Classifies raw bytes as a linkable hash. Bytes of any other length, or
/// with a prefix that names nothing linkable, have no kind.
pub fn hash_kind(raw: &Vec<u8>) -> (kind: Option<HashKind>)
    ensures
        kind == spec_hash_kind(raw@),
{
    if raw.len() != HASH_LEN {
        None
    } else {
        linkable_primitive(raw)
    }
}

/// Whether the bytes are the hash of an action.
pub open spec fn spec_is_action_hash(raw: Seq<u8>) -> bool {
    spec_hash_kind(raw) == Some(HashKind::Action)
}

/// Whether the bytes are the hash of an entry.
pub open spec fn spec_is_entry_hash(raw: Seq<u8>) -> bool {
    spec_hash_kind(raw) == Some(HashKind::Entry)
}

/// Whether the bytes address something the store can hold: an entry or an
/// action, not an external reference.
pub open spec fn spec_is_dht_hash(raw: Seq<u8>) -> bool {
    spec_is_action_hash(raw) || spec_is_entry_hash(raw)
}

pub fn is_action_hash(raw: &Vec<u8>) -> (b: bool)
    ensures
        b == spec_is_action_hash(raw@),
{
    match hash_kind(raw) {
        Some(HashKind::Action) => true,
        _ => false,
    }
}

pub fn is_entry_hash(raw: &Vec<u8>) -> (b: bool)
    ensures
        b == spec_is_entry_hash(raw@),
{
    match hash_kind(raw) {
        Some(HashKind::Entry) => true,
        _ => false,
    }
}

pub fn is_dht_hash(raw: &Vec<u8>) -> (b: bool)
    ensures
        b == spec_is_dht_hash(raw@),
{
    match hash_kind(raw) {
        Some(HashKind::Action) => true,
        Some(HashKind::Entry) => true,
        _ => false,
    }
}

/// A copy of the bytes.
pub fn copy_bytes(raw: &Vec<u8>) -> (out: Vec<u8>)
    ensures
        out@ == raw@,
{
    let mut out: Vec<u8> = Vec::new();
    let mut i: usize = 0;
    while i < raw.len()
        invariant
            i <= raw.len(),
            out@ == raw@.subrange(0, i as int),
        decreases raw.len() - i,
    {
        out.push(raw[i]);
        i = i + 1;
    }
    assert(raw@.subrange(0, raw@.len() as int) == raw@);
    out
}

/// Whether two byte strings hold the same bytes.
pub fn same_bytes(a: &Vec<u8>, b: &Vec<u8>) -> (eq: bool)
    ensures
        eq == (a@ == b@),
{
    if a.len() != b.len() {
        return false;
    }
    let mut i: usize = 0;
    while i < a.len()
        invariant
            i <= a.len(),
            a.len() == b.len(),
            forall|k: int| 0 <= k < i ==> a@[k] == b@[k],
        decreases a.len() - i,
    {
        if a[i] != b[i] {
            return false;
        }
        i = i + 1;
    }
    assert(a@ =~= b@);
    true
}

/// Lexicographic order on byte strings from position `from` on, given
/// that the two agree before it: `a` comes strictly before `b`.
pub open spec fn lex_lt_from(a: Seq<u8>, b: Seq<u8>, from: int) -> bool
    decreases a.len() - from,
{
    if from < 0 || from >= b.len() {
        false
    } else if from >= a.len() {
        true
    } else if a[from] != b[from] {
        a[from] < b[from]
    } else {
        lex_lt_from(a, b, from + 1)
    }
}

/// Lexicographic order on byte strings: `a` comes strictly before `b`.
/// A proper prefix comes before what it is a prefix of.
pub open spec fn lex_lt(a: Seq<u8>, b: Seq<u8>) -> bool {
    lex_lt_from(a, b, 0)
}

/// Decides the lexicographic order.
pub fn bytes_lt(a: &Vec<u8>, b: &Vec<u8>) -> (lt: bool)
    ensures
        lt == lex_lt(a@, b@),
{
    let mut i: usize = 0;
    while i < a.len() && i < b.len()
        invariant
            i <= a.len(),
            i <= b.len(),
            lex_lt(a@, b@) == lex_lt_from(a@, b@, i as int),
        decreases a.len() - i,
    {
        if a[i] != b[i] {
            return a[i] < b[i];
        }
        i = i + 1;
    }
    i < b.len()
}

/// No byte string comes before itself.
pub proof fn lemma_lex_irreflexive(a: Seq<u8>, from: int)
    ensures
        !lex_lt_from(a, a, from),
    decreases a.len() - from,
{
    if 0 <= from < a.len() {
        lemma_lex_irreflexive(a, from + 1);
    }
}

/// Two byte strings that agree before `from` are equal, or one comes
/// before the other, and never both.
pub proof fn lemma_lex_trichotomy(a: Seq<u8>, b: Seq<u8>, from: int)
    requires
        0 <= from,
        from <= a.len(),
        from <= b.len(),
        forall|k: int| 0 <= k < from ==> a[k] == b[k],
    ensures
        lex_lt_from(a, b, from) || lex_lt_from(b, a, from) || a == b,
        !(lex_lt_from(a, b, from) && lex_lt_from(b, a, from)),
        a == b ==> !lex_lt_from(a, b, from),
    decreases a.len() - from,
{
    if from >= a.len() || from >= b.len() {
        if from >= a.len() && from >= b.len() {
            assert(a =~= b);
        }
    } else if a[from] == b[from] {
        lemma_lex_trichotomy(a, b, from + 1);
    }
    if a == b {
        lemma_lex_irreflexive(a, from);
    }
}

/// The order is transitive.
pub proof fn lemma_lex_transitive(a: Seq<u8>, b: Seq<u8>, c: Seq<u8>, from: int)
    requires
        0 <= from,
        lex_lt_from(a, b, from),
        lex_lt_from(b, c, from),
    ensures
        lex_lt_from(a, c, from),
    decreases b.len() - from,
{
    if from < a.len() && from < b.len() && from < c.len() {
        if a[from] == b[from] && b[from] == c[from] {
            lemma_lex_transitive(a, b, c, from + 1);
        }
    }
}

} // verus!
