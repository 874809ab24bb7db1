//! Searching received bytes for a line terminator and for the tag of
//! the upgrade command.
//!
//! The searches themselves are those of `memchr`; this module states
//! what they return and builds the two questions the negotiation asks
//! of its accumulated bytes on top of them.

use vstd::prelude::*;
use vstd::slice::slice_subrange;

verus! {

/// The byte that ends a line.
pub const LINE_FEED: u8 = 10;

/// `needle` stands in `haystack` at index `at`.
pub open spec fn occurs_at(haystack: Seq<u8>, needle: Seq<u8>, at: int) -> bool {
    &&& 0 <= at
    &&& at + needle.len() <= haystack.len()
    &&& haystack.subrange(at, at + needle.len()) == needle
}

/// `needle` stands somewhere in `haystack`.
pub open spec fn occurs(haystack: Seq<u8>, needle: Seq<u8>) -> bool {
    exists|at: int| occurs_at(haystack, needle, at)
}

/// `at` is the index of the first `byte` in `haystack`.
pub open spec fn first_byte_at(haystack: Seq<u8>, byte: u8, at: int) -> bool {
    &&& 0 <= at < haystack.len()
    &&& haystack[at] == byte
    &&& forall|i: int| 0 <= i < at ==> haystack[i] != byte
}

/// `at` is the index at which `needle` first stands in `haystack`.
pub open spec fn first_occurrence_at(haystack: Seq<u8>, needle: Seq<u8>, at: int) -> bool {
    &&& occurs_at(haystack, needle, at)
    &&& forall|i: int| 0 <= i < at ==> !occurs_at(haystack, needle, i)
}

/// `memchr::memchr` returns the index of the first occurrence of
/// `needle` in `haystack`, and `None` exactly when there is none.
pub assume_specification[ memchr::memchr ](needle: u8, haystack: &[u8]) -> (res: Option<usize>)
    ensures
        match res {
            Some(at) => first_byte_at(haystack@, needle, at as int),
            None => !haystack@.contains(needle),
        },
;

/// `memchr::memmem::find` returns the index of the first occurrence of
/// the byte string `needle` in `haystack`, and `None` exactly when
/// there is none.
pub assume_specification[ memchr::memmem::find ](haystack: &[u8], needle: &[u8]) -> (res: Option<
    usize,
>)
    ensures
        match res {
            Some(at) => first_occurrence_at(haystack@, needle@, at as int),
            None => !occurs(haystack@, needle@),
        },
;

/// The bytes hold a whole line: a line feed has arrived.
pub open spec fn holds_line(bytes: Seq<u8>) -> bool {
    bytes.contains(LINE_FEED)
}

/// The bytes hold a whole line that starts with `tag`: the tag stands
/// somewhere in them and a line feed follows it.
pub open spec fn holds_tagged_line(bytes: Seq<u8>, tag: Seq<u8>) -> bool {
    exists|at: int, end: int|
        occurs_at(bytes, tag, at) && at <= end < bytes.len() && bytes[end] == LINE_FEED
}

/// A line that has arrived stays when more bytes follow.
pub proof fn lemma_line_persists(bytes: Seq<u8>, more: Seq<u8>)
    requires
        holds_line(bytes),
    ensures
        holds_line(bytes + more),
{
    let at = choose|i: int| 0 <= i < bytes.len() && bytes[i] == LINE_FEED;
    assert((bytes + more)[at] == LINE_FEED);
}

/// A tagged line that has arrived stays when more bytes follow.
pub proof fn lemma_tagged_line_persists(bytes: Seq<u8>, more: Seq<u8>, tag: Seq<u8>)
    requires
        holds_tagged_line(bytes, tag),
    ensures
        holds_tagged_line(bytes + more, tag),
{
    let (at, end) = choose|at: int, end: int|
        occurs_at(bytes, tag, at) && at <= end < bytes.len() && bytes[end] == LINE_FEED;
    assert((bytes + more).subrange(at, at + tag.len()) =~= bytes.subrange(at, at + tag.len()));
    assert(occurs_at(bytes + more, tag, at) && (bytes + more)[end] == LINE_FEED);
}

/// There is no tagged line where the tag does not stand.
pub proof fn lemma_tagged_line_has_tag(bytes: Seq<u8>, tag: Seq<u8>)
    requires
        holds_tagged_line(bytes, tag),
    ensures
        occurs(bytes, tag),
{
}

/// Tells whether a line feed has arrived.
pub fn has_line(bytes: &[u8]) -> (res: bool)
    ensures
        res == holds_line(bytes@),
{
    memchr::memchr(LINE_FEED, bytes).is_some()
}

/// Tells whether `tag` has arrived together with the line feed that
/// ends its line. The tag is looked for anywhere in the bytes, not
/// only at the start of a line.
pub fn has_tagged_line(bytes: &[u8], tag: &[u8]) -> (res: bool)
    ensures
        res == holds_tagged_line(bytes@, tag@),
{
    match memchr::memmem::find(bytes, tag) {
        None => false,
        Some(at) => {
            let rest = slice_subrange(bytes, at, bytes.len());
            let found = memchr::memchr(LINE_FEED, rest);
            proof {
                if found is None {
                    assert forall|first: int, end: int|
                        occurs_at(bytes@, tag@, first) && first <= end < bytes@.len()
                        implies bytes@[end] != LINE_FEED by {
                        assert(rest@[end - at] == bytes@[end]);
                    }
                }
            }
            found.is_some()
        },
    }
}

} // verus!
