//! Connection strings: three `;`-separated segments, each a key, an equals
//! sign and a value.

use crate::text::{has_prefix, lemma_split_append, lemma_split_plain, split, text_after, texts};
use vstd::prelude::*;

verus! {

/// The value that `segment` gives for the key written in `prefix`: what
/// follows the prefix, if the segment begins with it.
pub open spec fn value_after(segment: Seq<char>, prefix: Seq<char>) -> Option<Seq<char>> {
    if prefix.is_prefix_of(segment) {
        Some(segment.skip(prefix.len() as int))
    } else {
        None
    }
}

/// The value that three segments give for a key: that of the last segment
/// that begins with the key's prefix.
pub open spec fn field_of(segments: Seq<Seq<char>>, prefix: Seq<char>) -> Option<Seq<char>>
    recommends
        segments.len() == 3,
{
    if value_after(segments[2], prefix) is Some {
        value_after(segments[2], prefix)
    } else if value_after(segments[1], prefix) is Some {
        value_after(segments[1], prefix)
    } else {
        value_after(segments[0], prefix)
    }
}

/// Reads the value that `segment` gives for the key written in `prefix`.
pub(crate) fn segment_value(segment: &str, prefix: &str) -> (r: Option<String>)
    ensures
        match r {
            Some(v) => value_after(segment@, prefix@) == Some(v@),
            None => value_after(segment@, prefix@) is None,
        },
{
    if has_prefix(segment, prefix) {
        Some(text_after(segment, prefix.unicode_len()))
    } else {
        None
    }
}

/// Reads the value that three segments give for the key written in
/// `prefix`.
pub(crate) fn find_field(segments: &Vec<String>, prefix: &str) -> (r: Option<String>)
    requires
        segments@.len() == 3,
    ensures
        match r {
            Some(v) => field_of(texts(segments@), prefix@) == Some(v@),
            None => field_of(texts(segments@), prefix@) is None,
        },
{
    let last = segment_value(segments[2].as_str(), prefix);
    if last.is_some() {
        return last;
    }
    let middle = segment_value(segments[1].as_str(), prefix);
    if middle.is_some() {
        return middle;
    }
    segment_value(segments[0].as_str(), prefix)
}

/// Three segments written as one connection string.
pub open spec fn connection_text(x: Seq<char>, y: Seq<char>, z: Seq<char>) -> Seq<char> {
    x + seq![';'] + y + seq![';'] + z
}

/// Whether `(x, y, z)` is `(a, b, c)` in some order.
pub open spec fn is_arrangement(
    a: Seq<char>,
    b: Seq<char>,
    c: Seq<char>,
    x: Seq<char>,
    y: Seq<char>,
    z: Seq<char>,
) -> bool {
    ||| (x == a && y == b && z == c)
    ||| (x == a && y == c && z == b)
    ||| (x == b && y == a && z == c)
    ||| (x == b && y == c && z == a)
    ||| (x == c && y == a && z == b)
    ||| (x == c && y == b && z == a)
}

/// Three texts without a semicolon, joined by semicolons, split into
/// themselves.
pub proof fn lemma_three_segments(x: Seq<char>, y: Seq<char>, z: Seq<char>)
    requires
        !x.contains(';'),
        !y.contains(';'),
        !z.contains(';'),
    ensures
        split(connection_text(x, y, z), ';') == seq![x, y, z],
{
    lemma_split_plain(x, ';');
    lemma_split_append(x, y, ';');
    lemma_split_append(x + seq![';'] + y, z, ';');
    assert(seq![x].push(y).push(z) =~= seq![x, y, z]);
}

/// A segment begins with at most one of the three key prefixes.
pub proof fn lemma_one_key_per_segment(segment: Seq<char>)
    ensures
        "Endpoint="@.is_prefix_of(segment) ==> !"SharedAccessKeyName="@.is_prefix_of(segment)
            && !"SharedAccessKey="@.is_prefix_of(segment),
        "SharedAccessKeyName="@.is_prefix_of(segment) ==> !"SharedAccessKey="@.is_prefix_of(
            segment,
        ),
{
    reveal_strlit("Endpoint=");
    reveal_strlit("SharedAccessKeyName=");
    reveal_strlit("SharedAccessKey=");
    let e = "Endpoint="@;
    let n = "SharedAccessKeyName="@;
    let k = "SharedAccessKey="@;
    if e.is_prefix_of(segment) {
        assert(segment.subrange(0, e.len() as int)[0] == e[0]);
        if n.is_prefix_of(segment) {
            assert(segment.subrange(0, n.len() as int)[0] == n[0]);
        }
        if k.is_prefix_of(segment) {
            assert(segment.subrange(0, k.len() as int)[0] == k[0]);
        }
    }
    if n.is_prefix_of(segment) && k.is_prefix_of(segment) {
        assert(segment.subrange(0, n.len() as int)[15] == n[15]);
        assert(segment.subrange(0, k.len() as int)[15] == k[15]);
    }
}

} // verus!
