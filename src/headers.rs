//! Rewriting of the upstream response head: hop-by-hop and length headers are
//! dropped, and a wildcard CORS header is set.
use vstd::prelude::*;
use vstd::slice::slice_to_vec;

verus! {

/// One header line: its name and its raw value.
#[derive(Debug)]
pub struct Header {
    pub name: Vec<u8>,
    pub value: Vec<u8>,
}

/// Status and headers of the response sent back to the caller.
#[derive(Debug)]
pub struct ResponseHead {
    pub status: u16,
    pub headers: Vec<Header>,
}

/// A header as a pair of byte sequences.
pub open spec fn header_view(h: Header) -> (Seq<u8>, Seq<u8>) {
    (h.name@, h.value@)
}

/// A list of headers as pairs of byte sequences.
pub open spec fn headers_view(hs: Seq<Header>) -> Seq<(Seq<u8>, Seq<u8>)> {
    hs.map_values(|h: Header| header_view(h))
}

/// ASCII lower-casing of one byte.
pub open spec fn ascii_lower(b: u8) -> u8 {
    if 65 <= b <= 90 {
        (b + 32) as u8
    } else {
        b
    }
}

/// Equality of two names, ignoring ASCII case.
pub open spec fn same_name(a: Seq<u8>, b: Seq<u8>) -> bool {
    &&& a.len() == b.len()
    &&& forall|i: int| 0 <= i < a.len() ==> ascii_lower(#[trigger] a[i]) == ascii_lower(b[i])
}

/// `connection`, in lower case.
pub open spec fn connection_name() -> Seq<u8> {
    seq!['c' as u8, 'o' as u8, 'n' as u8, 'n' as u8, 'e' as u8, 'c' as u8, 't' as u8, 'i' as u8, 'o' as u8, 'n' as u8]
}

/// `content-length`, in lower case.
pub open spec fn content_length_name() -> Seq<u8> {
    seq!['c' as u8, 'o' as u8, 'n' as u8, 't' as u8, 'e' as u8, 'n' as u8, 't' as u8, '-' as u8, 'l' as u8, 'e' as u8, 'n' as u8, 'g' as u8, 't' as u8, 'h' as u8]
}

/// `access-control-allow-origin`, in lower case.
pub open spec fn allow_origin_name() -> Seq<u8> {
    seq![
        'a' as u8, 'c' as u8, 'c' as u8, 'e' as u8, 's' as u8, 's' as u8, '-' as u8, 'c' as u8, 'o' as u8, 'n' as u8, 't' as u8, 'r' as u8, 'o' as u8, 'l' as u8, '-' as u8,
        'a' as u8, 'l' as u8, 'l' as u8, 'o' as u8, 'w' as u8, '-' as u8, 'o' as u8, 'r' as u8, 'i' as u8, 'g' as u8, 'i' as u8, 'n' as u8,
    ]
}

/// Upstream headers that are never forwarded.
pub open spec fn is_dropped_name(n: Seq<u8>) -> bool {
    same_name(n, connection_name()) || same_name(n, content_length_name()) || same_name(
        n,
        allow_origin_name(),
    )
}

/// A header that is forwarded as it came.
pub open spec fn is_kept(h: (Seq<u8>, Seq<u8>)) -> bool {
    !is_dropped_name(h.0)
}

/// The header that lets any origin read the response.
pub open spec fn cors_header() -> (Seq<u8>, Seq<u8>) {
    (allow_origin_name(), seq!['*' as u8])
}

/// The upstream headers that are forwarded unchanged, in their order.
pub open spec fn kept_headers(hs: Seq<(Seq<u8>, Seq<u8>)>) -> Seq<(Seq<u8>, Seq<u8>)> {
    hs.filter(|h: (Seq<u8>, Seq<u8>)| is_kept(h))
}

/// The headers sent back for the given upstream headers.
pub open spec fn forwarded_headers(hs: Seq<(Seq<u8>, Seq<u8>)>) -> Seq<(Seq<u8>, Seq<u8>)> {
    kept_headers(hs).push(cors_header())
}

/// ASCII lower-casing of one byte.
fn lower_byte(b: u8) -> (r: u8)
    ensures
        r == ascii_lower(b),
{
    if 65 <= b && b <= 90 {
        b + 32
    } else {
        b
    }
}

/// Compares a header name with a lower-case name, ignoring ASCII case.
fn name_matches(name: &[u8], lower: &[u8]) -> (r: bool)
    ensures
        r == same_name(name@, lower@),
{
    if name.len() != lower.len() {
        return false;
    }
    let mut i: usize = 0;
    while i < name.len()
        invariant
            name@.len() == lower@.len(),
            0 <= i <= name@.len(),
            forall|j: int| 0 <= j < i ==> ascii_lower(#[trigger] name@[j]) == ascii_lower(lower@[j]),
        decreases name@.len() - i,
    {
        if lower_byte(name[i]) != lower_byte(lower[i]) {
            return false;
        }
        i = i + 1;
    }
    true
}

/// True for the names that are never forwarded.
fn is_dropped(name: &[u8]) -> (r: bool)
    ensures
        r == is_dropped_name(name@),
{
    let connection: Vec<u8> = vec!['c' as u8, 'o' as u8, 'n' as u8, 'n' as u8, 'e' as u8, 'c' as u8, 't' as u8, 'i' as u8, 'o' as u8, 'n' as u8];
    let content_length: Vec<u8> = vec![
        'c' as u8, 'o' as u8, 'n' as u8, 't' as u8, 'e' as u8, 'n' as u8, 't' as u8, '-' as u8, 'l' as u8, 'e' as u8, 'n' as u8, 'g' as u8, 't' as u8, 'h' as u8,
    ];
    let allow_origin = allow_origin_bytes();
    proof {
        assert(connection@ =~= connection_name());
        assert(content_length@ =~= content_length_name());
    }
    name_matches(name, connection.as_slice()) || name_matches(name, content_length.as_slice())
        || name_matches(name, allow_origin.as_slice())
}

/// The bytes of `access-control-allow-origin`.
fn allow_origin_bytes() -> (r: Vec<u8>)
    ensures
        r@ == allow_origin_name(),
{
    let r: Vec<u8> = vec![
        'a' as u8, 'c' as u8, 'c' as u8, 'e' as u8, 's' as u8, 's' as u8, '-' as u8, 'c' as u8, 'o' as u8, 'n' as u8, 't' as u8, 'r' as u8, 'o' as u8, 'l' as u8, '-' as u8,
        'a' as u8, 'l' as u8, 'l' as u8, 'o' as u8, 'w' as u8, '-' as u8, 'o' as u8, 'r' as u8, 'i' as u8, 'g' as u8, 'i' as u8, 'n' as u8,
    ];
    proof {
        assert(r@ =~= allow_origin_name());
    }
    r
}

/// A copy of a header with the same bytes.
fn copy_header(h: &Header) -> (r: Header)
    ensures
        header_view(r) == header_view(*h),
{
    Header { name: slice_to_vec(h.name.as_slice()), value: slice_to_vec(h.value.as_slice()) }
}

/// Builds the head of the response sent back for an upstream response: the status
/// is kept, dropped headers are left out, the others keep their order, and the
/// wildcard CORS header comes last.
pub fn translate_response(status: u16, headers: &Vec<Header>) -> (r: ResponseHead)
    ensures
        r.status == status,
        headers_view(r.headers@) == forwarded_headers(headers_view(headers@)),
{
    let mut out: Vec<Header> = Vec::new();
    let mut i: usize = 0;
    while i < headers.len()
        invariant
            0 <= i <= headers@.len(),
            headers_view(out@) == kept_headers(headers_view(headers@.subrange(0, i as int))),
        decreases headers@.len() - i,
    {
        let h = &headers[i];
        let ghost before = headers_view(headers@.subrange(0, i as int));
        proof {
            assert(headers_view(headers@.subrange(0, i as int + 1)) =~= before.push(header_view(*h)));
            let next = before.push(header_view(*h));
            assert(next.drop_last() =~= before);
            assert(next.last() == header_view(*h));
            reveal(Seq::filter);
            assert(kept_headers(next) == if is_kept(header_view(*h)) {
                kept_headers(before).push(header_view(*h))
            } else {
                kept_headers(before)
            });
        }
        if !is_dropped(h.name.as_slice()) {
            let c = copy_header(h);
            let ghost prev = out@;
            out.push(c);
            proof {
                assert(is_kept(header_view(*h)));
                assert(headers_view(out@) =~= headers_view(prev).push(header_view(c)));
            }
        } else {
            assert(!is_kept(header_view(*h)));
        }
        i = i + 1;
    }
    let cors = Header { name: allow_origin_bytes(), value: vec!['*' as u8] };
    let ghost prev = out@;
    out.push(cors);
    proof {
        assert(headers@.subrange(0, headers@.len() as int) =~= headers@);
        assert(header_view(cors) =~= cors_header());
        assert(headers_view(out@) =~= headers_view(prev).push(cors_header()));
    }
    ResponseHead { status, headers: out }
}

} // verus!
