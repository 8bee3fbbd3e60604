//! Small helpers on byte strings.

use vstd::prelude::*;
use vstd::utf8::{encode_utf8, valid_utf8};

verus! {

/// The byte strings that a list of vectors holds.
pub open spec fn key_list(list: Seq<Vec<u8>>) -> Seq<Seq<u8>> {
    Seq::new(list.len(), |i: int| list[i]@)
}

/// The character strings that a list of names holds.
pub open spec fn name_list(list: Seq<String>) -> Seq<Seq<char>> {
    Seq::new(list.len(), |i: int| list[i]@)
}

/// Calls `String::from_utf8` on `bytes`, which gives the text that the
/// bytes are the UTF-8 form of, and no text for bytes that are not valid
/// UTF-8.
#[verifier::external_body]
pub(crate) fn text_from_utf8(bytes: Vec<u8>) -> (text: Option<String>)
    ensures
        match text {
            Some(t) => encode_utf8(t@) == bytes@,
            None => !valid_utf8(bytes@),
        },
{
    String::from_utf8(bytes).ok()
}

/// Compares two byte strings.
pub fn bytes_eq(a: &[u8], b: &[u8]) -> (same: bool)
    ensures
        same <==> a@ == b@,
{
    if a.len() != b.len() {
        return false;
    }
    let mut i: usize = 0;
    while i < a.len()
        invariant
            i <= a.len(),
            a.len() == b.len(),
            forall|j: int| 0 <= j < i ==> a@[j] == b@[j],
        decreases a.len() - i,
    {
        if a[i] != b[i] {
            return false;
        }
        i += 1;
    }
    assert(a@ =~= b@);
    true
}

/// Copies a byte string.
pub fn copy_bytes(a: &[u8]) -> (copy: Vec<u8>)
    ensures
        copy@ == a@,
{
    let mut copy: Vec<u8> = Vec::new();
    let mut i: usize = 0;
    while i < a.len()
        invariant
            i <= a.len(),
            copy@ == a@.take(i as int),
        decreases a.len() - i,
    {
        copy.push(a[i]);
        assert(a@.take(i as int).push(a@[i as int]) =~= a@.take(i + 1));
        i += 1;
    }
    assert(a@.take(a.len() as int) =~= a@);
    copy
}

/// Whether `list` holds `key`.
pub fn list_contains(list: &Vec<Vec<u8>>, key: &[u8]) -> (found: bool)
    ensures
        found <==> key_list(list@).contains(key@),
{
    let mut i: usize = 0;
    while i < list.len()
        invariant
            i <= list.len(),
            forall|j: int| 0 <= j < i ==> key_list(list@)[j] != key@,
        decreases list.len() - i,
    {
        if bytes_eq(list[i].as_slice(), key) {
            assert(key_list(list@)[i as int] == key@);
            return true;
        }
        i += 1;
    }
    false
}

/// Whether `needle` occurs in `hay` as a run of bytes.
pub open spec fn occurs_in(needle: Seq<u8>, hay: Seq<u8>) -> bool {
    exists|k: int|
        0 <= k && k + needle.len() <= hay.len() && #[trigger] hay.subrange(
            k,
            k + needle.len(),
        ) == needle
}

/// Whether `needle` occurs in `hay`.
pub fn contains_bytes(h: &[u8], n: &[u8]) -> (found: bool)
    ensures
        found <==> occurs_in(n@, h@),
{
    if n.len() > h.len() {
        return false;
    }
    let last = h.len() - n.len();
    let mut k: usize = 0;
    while k <= last
        invariant
            k <= last + 1,
            last == h.len() - n.len(),
            n.len() <= h.len(),
            forall|j: int| 0 <= j < k ==> #[trigger] h@.subrange(j, j + n.len()) != n@,
        decreases last + 1 - k,
    {
        let mut i: usize = 0;
        while i < n.len() && h[k + i] == n[i]
            invariant
                i <= n.len(),
                k + n.len() <= h.len(),
                forall|j: int| 0 <= j < i ==> h@[k + j] == n@[j],
            decreases n.len() - i,
        {
            i += 1;
        }
        if i == n.len() {
            assert(h@.subrange(k as int, k + n.len()) =~= n@);
            return true;
        }
        assert(h@.subrange(k as int, k + n.len())[i as int] != n@[i as int]);
        k += 1;
    }
    false
}

} // verus!
