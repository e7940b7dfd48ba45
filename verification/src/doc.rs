//! The structured document that a request arrives as.
//!
//! A [`DocValue`] is the crate's own model of an untyped structured value
//! (the shape of a JSON document): the parser reads mappings, sequences and
//! text out of it, and everything else rides through opaquely.  Callers that
//! receive documents in an interchange format convert them into this type at
//! the boundary.

use vstd::prelude::*;

verus! {

/// An untyped structured value.
///
/// Mappings keep their fields in document order; a lookup takes the first
/// entry with the wanted name.  `Opaque` carries the canonical text of a
/// value the engine never inspects (for example a non-integer number).
#[derive(Debug, PartialEq)]
pub enum DocValue {
    Null,
    Boolean(bool),
    Integer(i64),
    Text(String),
    Items(Vec<DocValue>),
    Entries(Vec<(String, DocValue)>),
    Opaque(String),
}

/// The fields of a mapping, or the empty sequence for any other shape.
pub open spec fn entries_of(v: DocValue) -> Seq<(String, DocValue)> {
    match v {
        DocValue::Entries(es) => es@,
        _ => Seq::empty(),
    }
}

/// The first entry of a mapping named `key`, if any.
pub open spec fn lookup_entries(entries: Seq<(String, DocValue)>, key: Seq<char>) -> Option<
    DocValue,
>
    decreases entries.len(),
{
    if entries.len() == 0 {
        None
    } else if entries[0].0@ == key {
        Some(entries[0].1)
    } else {
        lookup_entries(entries.drop_first(), key)
    }
}

/// If no entry is named `key`, the lookup comes back empty.
proof fn lemma_lookup_absent(entries: Seq<(String, DocValue)>, key: Seq<char>)
    requires
        forall|j: int| 0 <= j < entries.len() ==> entries[j].0@ != key,
    ensures
        lookup_entries(entries, key) is None,
    decreases entries.len(),
{
    if entries.len() > 0 {
        lemma_lookup_absent(entries.drop_first(), key);
    }
}

/// The lookup returns the entry at the first index whose name is `key`.
proof fn lemma_lookup_first(entries: Seq<(String, DocValue)>, key: Seq<char>, i: int)
    requires
        0 <= i < entries.len(),
        entries[i].0@ == key,
        forall|j: int| 0 <= j < i ==> entries[j].0@ != key,
    ensures
        lookup_entries(entries, key) == Some(entries[i].1),
    decreases i,
{
    if i > 0 {
        lemma_lookup_first(entries.drop_first(), key, i - 1);
    }
}

/// Removing an entry with a different name leaves a lookup unchanged.
pub proof fn lemma_lookup_remove(entries: Seq<(String, DocValue)>, i: int, key: Seq<char>)
    requires
        0 <= i < entries.len(),
        entries[i].0@ != key,
    ensures
        lookup_entries(entries.remove(i), key) == lookup_entries(entries, key),
    decreases entries.len(),
{
    if i == 0 {
        assert(entries.remove(0) =~= entries.drop_first());
    } else {
        lemma_lookup_remove(entries.drop_first(), i - 1, key);
        assert(entries.remove(i).drop_first() =~= entries.drop_first().remove(i - 1));
        assert(entries.remove(i)[0] == entries[0]);
    }
}

/// Finds the first entry named `key`, returning its index.
pub fn find_entry(entries: &Vec<(String, DocValue)>, key: &str) -> (r: Option<usize>)
    ensures
        match r {
            Some(i) => {
                &&& i < entries@.len()
                &&& entries@[i as int].0@ == key@
                &&& forall|j: int| 0 <= j < i ==> entries@[j].0@ != key@
                &&& lookup_entries(entries@, key@) == Some(entries@[i as int].1)
            },
            None => lookup_entries(entries@, key@) is None && (forall|j: int|
                0 <= j < entries@.len() ==> (#[trigger] entries@[j]).0@ != key@),
        },
{
    let k: String = key.to_owned();
    let mut i: usize = 0;
    while i < entries.len()
        invariant
            i <= entries@.len(),
            k@ == key@,
            forall|j: int| 0 <= j < i ==> entries@[j].0@ != key@,
        decreases entries@.len() - i,
    {
        if entries[i].0.eq(&k) {
            proof {
                lemma_lookup_first(entries@, key@, i as int);
            }
            return Some(i);
        }
        i += 1;
    }
    proof {
        lemma_lookup_absent(entries@, key@);
    }
    None
}

/// Removes the first entry named `key` and hands its value out, leaving
/// every lookup under a different name untouched.
pub fn take_field(entries: &mut Vec<(String, DocValue)>, key: &str) -> (r: Option<DocValue>)
    ensures
        r == lookup_entries(old(entries)@, key@),
        forall|k2: Seq<char>|
            k2 != key@ ==> lookup_entries(final(entries)@, k2) == lookup_entries(
                old(entries)@,
                k2,
            ),
{
    match find_entry(entries, key) {
        None => None,
        Some(i) => {
            let ghost before = entries@;
            let pair = entries.remove(i);
            proof {
                assert forall|k2: Seq<char>| k2 != key@ implies lookup_entries(entries@, k2)
                    == lookup_entries(before, k2) by {
                    lemma_lookup_remove(before, i as int, k2);
                }
            }
            Some(pair.1)
        },
    }
}

} // verus!
