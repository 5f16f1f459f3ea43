//! Requests and header lines as plain values, and the rules by which header
//! lines are accepted, looked up and set.

use vstd::prelude::*;
use vstd::utf8::encode_utf8;

verus! {

/// One header line: a name and a value.
#[derive(Debug, Clone, PartialEq, Eq)]
pub struct Header {
    pub name: String,
    pub value: String,
}

/// A header line as a pair of texts: name, then value.
pub type HeaderView = (Seq<char>, Seq<char>);

impl View for Header {
    type V = HeaderView;

    open spec fn view(&self) -> HeaderView {
        (self.name@, self.value@)
    }
}

/// The views of a list of headers, in order.
pub open spec fn header_views(v: Seq<Header>) -> Seq<HeaderView> {
    Seq::new(v.len(), |i: int| v[i]@)
}

/// The request methods the hub is addressed with.
#[derive(Debug, Clone, Copy, PartialEq, Eq, Structural)]
pub enum HttpMethod {
    Get,
    Post,
    Put,
    Patch,
}

/// A request for the transport to send.
#[derive(Debug, Clone, PartialEq, Eq)]
pub struct HttpRequest {
    pub method: HttpMethod,
    pub uri: String,
    pub headers: Vec<Header>,
    pub body: String,
}

/// A request as plain texts.
pub struct HttpRequestView {
    pub method: HttpMethod,
    pub uri: Seq<char>,
    pub headers: Seq<HeaderView>,
    pub body: Seq<char>,
}

impl View for HttpRequest {
    type V = HttpRequestView;

    open spec fn view(&self) -> HttpRequestView {
        HttpRequestView {
            method: self.method,
            uri: self.uri@,
            headers: header_views(self.headers@),
            body: self.body@,
        }
    }
}

/// Bytes that a header value may hold: everything from the space upwards but
/// the delete character, and the tab.
pub open spec fn value_byte_allowed(b: u8) -> bool {
    (b >= 32 && b != 127) || b == 9
}

/// Whether a text can be sent as a header value.
pub open spec fn header_value_allowed(value: Seq<char>) -> bool {
    forall|i: int|
        0 <= i < encode_utf8(value).len() ==> value_byte_allowed(#[trigger] encode_utf8(value)[i])
}

/// Bytes that a header name may hold: ASCII letters and digits, and the
/// marks ``!"#$%&'*+-.^_`|~``.
pub open spec fn name_byte_allowed(b: u8) -> bool {
    ||| 0x30 <= b <= 0x39
    ||| 0x41 <= b <= 0x5a
    ||| 0x61 <= b <= 0x7a
    ||| 0x21 <= b <= 0x27
    ||| b == 0x2a
    ||| b == 0x2b
    ||| b == 0x2d
    ||| b == 0x2e
    ||| b == 0x5e
    ||| b == 0x5f
    ||| b == 0x60
    ||| b == 0x7c
    ||| b == 0x7e
}

/// Whether a text can be sent as a header name: it is not empty, takes less
/// than 64 KiB, and holds only bytes that a name may hold.
pub open spec fn header_name_allowed(name: Seq<char>) -> bool {
    &&& 1 <= encode_utf8(name).len() <= 0xffff
    &&& forall|i: int|
        0 <= i < encode_utf8(name).len() ==> name_byte_allowed(#[trigger] encode_utf8(name)[i])
}

/// Whether every header of a list can be sent.
pub open spec fn headers_allowed(headers: Seq<HeaderView>) -> bool {
    forall|i: int|
        0 <= i < headers.len() ==> header_name_allowed((#[trigger] headers[i]).0)
            && header_value_allowed(headers[i].1)
}

/// `HeaderName::from_str` of hyper. Trusted: the name is accepted exactly
/// when its UTF-8 form has between 1 and 65535 bytes, each of them a letter,
/// a digit or one of the marks that a name may hold.
#[verifier::external_body]
pub(crate) fn is_header_name(name: &str) -> (r: bool)
    ensures
        r == header_name_allowed(name@),
{
    <hyper::header::HeaderName as std::str::FromStr>::from_str(name).is_ok()
}

/// `HeaderValue::from_str` of hyper. Trusted: the value is accepted exactly
/// when each byte of its UTF-8 form is a tab, or at least a space and not
/// the delete character.
#[verifier::external_body]
pub(crate) fn is_header_value(value: &str) -> (r: bool)
    ensures
        r == header_value_allowed(value@),
{
    hyper::header::HeaderValue::from_str(value).is_ok()
}

/// The value of the first header named `name`, or the empty text where
/// there is none.
pub open spec fn header_value(headers: Seq<HeaderView>, name: Seq<char>) -> Seq<char>
    decreases headers.len(),
{
    if headers.len() == 0 {
        Seq::<char>::empty()
    } else if headers[0].0 == name {
        headers[0].1
    } else {
        header_value(headers.skip(1), name)
    }
}

/// The first header named `name` decides the value.
pub proof fn lemma_header_value_first(headers: Seq<HeaderView>, name: Seq<char>, i: int)
    requires
        0 <= i < headers.len(),
        headers[i].0 == name,
        forall|j: int| 0 <= j < i ==> headers[j].0 != name,
    ensures
        header_value(headers, name) == headers[i].1,
    decreases i,
{
    if i > 0 {
        let rest = headers.skip(1);
        assert(rest[i - 1] == headers[i]);
        assert forall|j: int| 0 <= j < i - 1 implies rest[j].0 != name by {
            assert(rest[j] == headers[j + 1]);
        }
        lemma_header_value_first(rest, name, i - 1);
    }
}

/// Where no header is named `name`, the value is the empty text.
pub proof fn lemma_header_value_absent(headers: Seq<HeaderView>, name: Seq<char>)
    requires
        forall|j: int| 0 <= j < headers.len() ==> headers[j].0 != name,
    ensures
        header_value(headers, name) == Seq::<char>::empty(),
    decreases headers.len(),
{
    if headers.len() > 0 {
        let rest = headers.skip(1);
        assert forall|j: int| 0 <= j < rest.len() implies rest[j].0 != name by {
            assert(rest[j] == headers[j + 1]);
        }
        lemma_header_value_absent(rest, name);
    }
}

/// Looks a response header up by its exact name.
pub fn find_header(headers: &Vec<Header>, name: &str) -> (r: String)
    ensures
        r@ == header_value(header_views(headers@), name@),
{
    let wanted = name.to_owned();
    let mut i: usize = 0;
    while i < headers.len()
        invariant
            i <= headers.len(),
            wanted@ == name@,
            forall|j: int| 0 <= j < i ==> header_views(headers@)[j].0 != name@,
        decreases headers.len() - i,
    {
        if headers[i].name == wanted {
            proof {
                lemma_header_value_first(header_views(headers@), name@, i as int);
            }
            return headers[i].value.clone();
        }
        i = i + 1;
    }
    proof {
        lemma_header_value_absent(header_views(headers@), name@);
    }
    String::new()
}

/// Tells whether every header of a list can be sent.
pub fn all_headers_allowed(headers: &Vec<Header>) -> (r: bool)
    ensures
        r == headers_allowed(header_views(headers@)),
{
    let mut i: usize = 0;
    while i < headers.len()
        invariant
            i <= headers.len(),
            headers_allowed(header_views(headers@).take(i as int)),
        decreases headers.len() - i,
    {
        let h = &headers[i];
        if !is_header_name(h.name.as_str()) || !is_header_value(h.value.as_str()) {
            proof {
                assert(header_views(headers@)[i as int] == h@);
            }
            return false;
        }
        proof {
            let all = header_views(headers@);
            assert(all.take(i as int + 1) =~= all.take(i as int).push(h@));
        }
        i = i + 1;
    }
    proof {
        assert(header_views(headers@).take(headers.len() as int) =~= header_views(headers@));
    }
    true
}

/// A copy of a list of headers.
pub fn copy_headers(headers: &Vec<Header>) -> (copy: Vec<Header>)
    ensures
        header_views(copy@) == header_views(headers@),
{
    let mut copy: Vec<Header> = Vec::new();
    let mut i: usize = 0;
    proof {
        assert(header_views(copy@) =~= header_views(headers@).take(0));
    }
    while i < headers.len()
        invariant
            i <= headers.len(),
            header_views(copy@) == header_views(headers@).take(i as int),
        decreases headers.len() - i,
    {
        let h = &headers[i];
        let ghost before = copy@;
        copy.push(Header { name: h.name.clone(), value: h.value.clone() });
        proof {
            let all = header_views(headers@);
            assert(all.take(i as int + 1) =~= all.take(i as int).push(h@));
            assert(header_views(copy@) =~= header_views(before).push(h@));
        }
        i = i + 1;
    }
    proof {
        assert(header_views(headers@).take(headers.len() as int) =~= header_views(headers@));
    }
    copy
}

/// Appends the header `name` with `value`.
pub fn push_header(headers: &mut Vec<Header>, name: &str, value: String)
    ensures
        header_views(final(headers)@) == header_views(old(headers)@).push((name@, value@)),
{
    let h = Header { name: name.to_owned(), value };
    headers.push(h);
    proof {
        assert(header_views(final(headers)@) =~= header_views(old(headers)@).push(h@));
    }
}

/// Whether no two headers of a list carry the same name.
pub open spec fn distinct_names(headers: Seq<HeaderView>) -> bool {
    forall|i: int, j: int| 0 <= i < j < headers.len() ==> headers[i].0 != headers[j].0
}

/// A list of headers after `name` was set to `value`: the first header of
/// that name carries the value, and where there was none, one is appended.
pub open spec fn with_header(headers: Seq<HeaderView>, name: Seq<char>, value: Seq<char>) -> Seq<
    HeaderView,
>
    decreases headers.len(),
{
    if headers.len() == 0 {
        seq![(name, value)]
    } else if headers[0].0 == name {
        headers.update(0, (name, value))
    } else {
        seq![headers[0]] + with_header(headers.skip(1), name, value)
    }
}

/// Setting a header replaces the value of the first header of that name.
pub proof fn lemma_with_header_replaces(
    headers: Seq<HeaderView>,
    name: Seq<char>,
    value: Seq<char>,
    i: int,
)
    requires
        0 <= i < headers.len(),
        headers[i].0 == name,
        forall|j: int| 0 <= j < i ==> headers[j].0 != name,
    ensures
        with_header(headers, name, value) == headers.update(i, (name, value)),
    decreases i,
{
    if i > 0 {
        let rest = headers.skip(1);
        assert(rest[i - 1] == headers[i]);
        assert forall|j: int| 0 <= j < i - 1 implies rest[j].0 != name by {
            assert(rest[j] == headers[j + 1]);
        }
        lemma_with_header_replaces(rest, name, value, i - 1);
        assert(seq![headers[0]] + rest.update(i - 1, (name, value)) =~= headers.update(
            i,
            (name, value),
        ));
    }
}

/// Setting a header that no header of the list names appends it.
pub proof fn lemma_with_header_appends(headers: Seq<HeaderView>, name: Seq<char>, value: Seq<char>)
    requires
        forall|j: int| 0 <= j < headers.len() ==> headers[j].0 != name,
    ensures
        with_header(headers, name, value) == headers.push((name, value)),
    decreases headers.len(),
{
    if headers.len() > 0 {
        let rest = headers.skip(1);
        assert forall|j: int| 0 <= j < rest.len() implies rest[j].0 != name by {
            assert(rest[j] == headers[j + 1]);
        }
        lemma_with_header_appends(rest, name, value);
        assert(seq![headers[0]] + rest.push((name, value)) =~= headers.push((name, value)));
    } else {
        assert(seq![(name, value)] =~= headers.push((name, value)));
    }
}

/// A header that was set is found with its value, every other name is found
/// as before, and names that were distinct stay so.
pub proof fn lemma_with_header_is_an_update(
    headers: Seq<HeaderView>,
    name: Seq<char>,
    value: Seq<char>,
    other: Seq<char>,
)
    ensures
        header_value(with_header(headers, name, value), name) == value,
        other != name ==> header_value(with_header(headers, name, value), other) == header_value(
            headers,
            other,
        ),
        distinct_names(headers) ==> distinct_names(with_header(headers, name, value)),
        with_header(headers, name, value).len() >= headers.len(),
        forall|k: int|
            0 <= k < with_header(headers, name, value).len() ==> (#[trigger] with_header(
                headers,
                name,
                value,
            )[k]).0 == name || (exists|j: int|
                0 <= j < headers.len() && headers[j].0 == with_header(headers, name, value)[k].0),
    decreases headers.len(),
{
    let after = with_header(headers, name, value);
    if headers.len() == 0 {
        assert(after[0] == (name, value));
        assert(after.skip(1) =~= Seq::<HeaderView>::empty());
        assert(header_value(after.skip(1), other) == Seq::<char>::empty());
    } else if headers[0].0 == name {
        assert(after[0] == (name, value));
        assert(after.skip(1) =~= headers.skip(1));
        assert forall|k: int| 0 <= k < after.len() implies (#[trigger] after[k]).0 == name || (
        exists|j: int| 0 <= j < headers.len() && headers[j].0 == after[k].0) by {
            if k > 0 {
                assert(headers[k].0 == after[k].0);
            }
        }
    } else {
        let rest = headers.skip(1);
        let rest_after = with_header(rest, name, value);
        lemma_with_header_is_an_update(rest, name, value, other);
        assert(after.skip(1) =~= rest_after);
        assert(after[0] == headers[0]);
        assert forall|k: int| 0 <= k < after.len() implies (#[trigger] after[k]).0 == name || (
        exists|j: int| 0 <= j < headers.len() && headers[j].0 == after[k].0) by {
            if k == 0 {
                assert(headers[0].0 == after[0].0);
            } else {
                assert(after[k] == rest_after[k - 1]);
                if rest_after[k - 1].0 != name {
                    let j = choose|j: int|
                        0 <= j < rest.len() && rest[j].0 == rest_after[k - 1].0;
                    assert(headers[j + 1].0 == after[k].0);
                }
            }
        }
        if distinct_names(headers) {
            assert forall|i: int, j: int| 0 <= i < j < rest.len() implies rest[i].0
                != rest[j].0 by {
                assert(rest[i] == headers[i + 1]);
                assert(rest[j] == headers[j + 1]);
            }
            assert forall|i: int, j: int| 0 <= i < j < after.len() implies after[i].0
                != after[j].0 by {
                assert(after[j] == rest_after[j - 1]);
                if i == 0 {
                    if rest_after[j - 1].0 != name {
                        let m = choose|m: int|
                            0 <= m < rest.len() && rest[m].0 == rest_after[j - 1].0;
                        assert(rest[m] == headers[m + 1]);
                    }
                } else {
                    assert(after[i] == rest_after[i - 1]);
                }
            }
        }
    }
}

} // verus!
