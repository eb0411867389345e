//! Decoding of a discovery response into a candidate: the address of the
//! responder and the path of its device-description document, read from the
//! response's `LOCATION` header (`http://a.b.c.d[:port]/path`).
use vstd::prelude::*;
use vstd::utf8::valid_utf8;
use crate::gateway::Endpoint;
use crate::text::{copy_range, number_at, read_number, utf8_text};

verus! {

/// The discovery request, sent as it stands to the broadcast address.
pub const SEARCH_REQUEST: &'static str = "M-SEARCH * HTTP/1.1\r\nHost:239.255.255.250:1900\r\nST:urn:schemas-upnp-org:device:InternetGatewayDevice:1\r\nMan:\"ssdp:discover\"\r\nMX:3\r\n\r\n";

/// A responder that has yet to be resolved.
#[derive(Clone, Debug, PartialEq, Eq)]
pub struct Candidate {
    pub addr: Endpoint,
    /// The path of the device-description document, as bytes.
    pub root_path: Vec<u8>,
}

/// ASCII lower case.
pub open spec fn lower(b: u8) -> u8 {
    if 65 <= b <= 90 {
        (b + 32) as u8
    } else {
        b
    }
}

/// `location:`
pub open spec fn location_key() -> Seq<u8> {
    seq![108u8, 111, 99, 97, 116, 105, 111, 110, 58]
}

/// `http://`
pub open spec fn http_prefix() -> Seq<u8> {
    seq![104u8, 116, 116, 112, 58, 47, 47]
}

/// A line starts at `p` with `location:`, in any case.
pub open spec fn header_at(d: Seq<u8>, p: int) -> bool {
    &&& 0 <= p
    &&& p + 9 <= d.len()
    &&& (p == 0 || d[p - 1] == 10)
    &&& forall|k: int| 0 <= k < 9 ==> lower(#[trigger] d[p + k]) == location_key()[k]
}

/// The first `location:` line at or after `p`.
pub open spec fn first_header_from(d: Seq<u8>, p: int) -> Option<int>
    decreases d.len() - p,
{
    if p < 0 || p >= d.len() {
        None
    } else if header_at(d, p) {
        Some(p)
    } else {
        first_header_from(d, p + 1)
    }
}

/// The index of the first line feed at or after `i`, or the length.
pub open spec fn line_end(d: Seq<u8>, i: int) -> int
    decreases d.len() - i,
{
    if 0 <= i < d.len() && d[i] != 10 {
        line_end(d, i + 1)
    } else {
        i
    }
}

pub open spec fn is_blank(b: u8) -> bool {
    b == 32 || b == 9 || b == 13
}

/// The first index in `i..e` that holds no blank, or `e`.
pub open spec fn skip_blanks(d: Seq<u8>, i: int, e: int) -> int
    decreases e - i,
{
    if i < e && is_blank(d[i]) {
        skip_blanks(d, i + 1, e)
    } else {
        i
    }
}

/// The end of `i..e` with trailing blanks taken off.
pub open spec fn trim_end(d: Seq<u8>, i: int, e: int) -> int
    decreases e - i,
{
    if i < e && is_blank(d[e - 1]) {
        trim_end(d, i, e - 1)
    } else {
        e
    }
}

/// The value of the first `location:` header, without surrounding blanks.
pub open spec fn location_value(d: Seq<u8>) -> Option<Seq<u8>> {
    match first_header_from(d, 0) {
        Some(p) => {
            let e = line_end(d, p + 9);
            let a = skip_blanks(d, p + 9, e);
            Some(d.subrange(a, trim_end(d, a, e)))
        },
        None => None,
    }
}

/// The port after the host that ends at `i`: 80 when none is written.
pub open spec fn port_at(v: Seq<u8>, i: int) -> Option<(nat, int)> {
    if i < v.len() && v[i] == 58 {
        number_at(v, i + 1, 65535)
    } else {
        Some((80, i))
    }
}

/// The path that starts at `i`: `/` when none is written.
pub open spec fn path_at(v: Seq<u8>, i: int) -> Option<Seq<u8>> {
    if i >= v.len() {
        Some(seq![47u8])
    } else if v[i] == 47 {
        Some(v.subrange(i, v.len() as int))
    } else {
        None
    }
}

/// The octets, the port and the path of `http://a.b.c.d[:port][/path]`.
pub open spec fn parse_url(v: Seq<u8>) -> Option<(Seq<u8>, nat, Seq<u8>)> {
    if v.len() < 7 || v.subrange(0, 7) != http_prefix() {
        None
    } else {
        match number_at(v, 7, 255) {
            None => None,
            Some((a, i1)) => if i1 >= v.len() || v[i1] != 46 {
                None
            } else {
                match number_at(v, i1 + 1, 255) {
                    None => None,
                    Some((b, i2)) => if i2 >= v.len() || v[i2] != 46 {
                        None
                    } else {
                        match number_at(v, i2 + 1, 255) {
                            None => None,
                            Some((c, i3)) => if i3 >= v.len() || v[i3] != 46 {
                                None
                            } else {
                                match number_at(v, i3 + 1, 255) {
                                    None => None,
                                    Some((e, i4)) => match port_at(v, i4) {
                                        None => None,
                                        Some((port, i5)) => match path_at(v, i5) {
                                            None => None,
                                            Some(path) => Some(
                                                (seq![a as u8, b as u8, c as u8, e as u8], port, path),
                                            ),
                                        },
                                    },
                                }
                            },
                        }
                    },
                }
            },
        }
    }
}

/// What a datagram decodes to: it is valid UTF-8 and its location header
/// holds a URL of the form above.
pub open spec fn decode_spec(d: Seq<u8>) -> Option<(Seq<u8>, nat, Seq<u8>)> {
    if !valid_utf8(d) {
        None
    } else {
        match location_value(d) {
            Some(v) => parse_url(v),
            None => None,
        }
    }
}

proof fn lemma_first_header(d: Seq<u8>, p: int)
    ensures
        first_header_from(d, p) matches Some(q) ==> header_at(d, q),
    decreases d.len() - p,
{
    if 0 <= p < d.len() && !header_at(d, p) {
        lemma_first_header(d, p + 1);
    }
}

proof fn lemma_line_end_bounds(d: Seq<u8>, i: int)
    requires
        0 <= i <= d.len(),
    ensures
        i <= line_end(d, i) <= d.len(),
    decreases d.len() - i,
{
    if i < d.len() && d[i] != 10 {
        lemma_line_end_bounds(d, i + 1);
    }
}

fn lower_byte(b: u8) -> (r: u8)
    ensures
        r == lower(b),
{
    if 65 <= b && b <= 90 {
        b + 32
    } else {
        b
    }
}

/// Whether a `location:` line starts at `p`.
fn is_header_at(d: &Vec<u8>, p: usize) -> (r: bool)
    ensures
        r == header_at(d@, p as int),
{
    let n = d.len();
    if p > d.len() || d.len() - p < 9 {
        return false;
    }
    if p > 0 && d[p - 1] != 10 {
        return false;
    }
    let key: [u8; 9] = [108, 111, 99, 97, 116, 105, 111, 110, 58];
    assert(key@ == location_key());
    let mut k: usize = 0;
    while k < 9
        invariant
            0 <= k <= 9,
            p + 9 <= d@.len(),
            n == d@.len(),
            key@ == location_key(),
            forall|j: int| 0 <= j < k ==> lower(#[trigger] d@[p + j]) == location_key()[j],
        decreases 9 - k,
    {
        if lower_byte(d[p + k]) != key[k] {
            return false;
        }
        k = k + 1;
    }
    true
}

/// The first `location:` line.
fn find_header(d: &Vec<u8>) -> (r: Option<usize>)
    ensures
        match first_header_from(d@, 0) {
            Some(p) => r == Some(p as usize),
            None => r is None,
        },
{
    let mut p: usize = 0;
    while p < d.len()
        invariant
            p <= d@.len(),
            first_header_from(d@, 0) == first_header_from(d@, p as int),
        decreases d@.len() - p,
    {
        if is_header_at(d, p) {
            return Some(p);
        }
        p = p + 1;
    }
    None
}

/// The value of the first `location:` header.
fn find_location(d: &Vec<u8>) -> (r: Option<Vec<u8>>)
    ensures
        match location_value(d@) {
            Some(v) => r matches Some(x) && x@ == v,
            None => r is None,
        },
{
    let n = d.len();
    let p = match find_header(d) {
        Some(p) => p,
        None => return None,
    };
    proof {
        lemma_first_header(d@, 0);
        lemma_line_end_bounds(d@, p + 9);
    }
    let mut e: usize = p + 9;
    while e < d.len() && d[e] != 10
        invariant
            p + 9 <= e <= d@.len(),
            line_end(d@, p + 9) == line_end(d@, e as int),
        decreases d@.len() - e,
    {
        e = e + 1;
    }
    let mut a: usize = p + 9;
    while a < e && (d[a] == 32 || d[a] == 9 || d[a] == 13)
        invariant
            p + 9 <= a <= e <= d@.len(),
            skip_blanks(d@, p + 9, e as int) == skip_blanks(d@, a as int, e as int),
        decreases e - a,
    {
        a = a + 1;
    }
    let mut b: usize = e;
    while b > a && (d[b - 1] == 32 || d[b - 1] == 9 || d[b - 1] == 13)
        invariant
            a <= b <= e <= d@.len(),
            trim_end(d@, a as int, e as int) == trim_end(d@, a as int, b as int),
        decreases b - a,
    {
        b = b - 1;
    }
    Some(copy_range(d, a, b))
}

/// Reads `.` and the number after it.
fn dot_number(v: &Vec<u8>, i: usize) -> (r: Option<(u64, usize)>)
    requires
        i <= v@.len(),
    ensures
        r matches Some((_, j)) ==> i < j <= v@.len(),
        i >= v@.len() || v@[i as int] != 46 ==> r is None,
        i < v@.len() && v@[i as int] == 46 ==> match number_at(v@, i + 1, 255) {
            Some((n, j)) => r == Some((n as u64, j as usize)),
            None => r is None,
        },
{
    if i >= v.len() || v[i] != 46 {
        None
    } else {
        read_number(v, i + 1, 255)
    }
}

/// Reads the URL that `parse_url` describes.
fn read_url(v: &Vec<u8>) -> (r: Option<Candidate>)
    ensures
        match parse_url(v@) {
            Some((o, port, path)) => r matches Some(c) && c.addr.octets@ == o && c.addr.port == port
                && c.root_path@ == path,
            None => r is None,
        },
{
    if v.len() < 7 {
        return None;
    }
    let prefix: [u8; 7] = [104, 116, 116, 112, 58, 47, 47];
    let mut k: usize = 0;
    while k < 7
        invariant
            0 <= k <= 7,
            v@.len() >= 7,
            prefix@ == http_prefix(),
            forall|j: int| 0 <= j < k ==> v@[j] == http_prefix()[j],
        decreases 7 - k,
    {
        if v[k] != prefix[k] {
            assert(v@.subrange(0, 7)[k as int] != http_prefix()[k as int]);
            return None;
        }
        k = k + 1;
    }
    assert(v@.subrange(0, 7) =~= http_prefix());
    let (a, i1) = match read_number(v, 7, 255) {
        Some(x) => x,
        None => return None,
    };
    let (b, i2) = match dot_number(v, i1) {
        Some(x) => x,
        None => return None,
    };
    let (c, i3) = match dot_number(v, i2) {
        Some(x) => x,
        None => return None,
    };
    let (e, i4) = match dot_number(v, i3) {
        Some(x) => x,
        None => return None,
    };
    let (port, i5) = if i4 < v.len() && v[i4] == 58 {
        match read_number(v, i4 + 1, 65535) {
            Some(x) => x,
            None => return None,
        }
    } else {
        (80, i4)
    };
    let path = if i5 >= v.len() {
        let mut root: Vec<u8> = Vec::new();
        root.push(47);
        assert(root@ =~= seq![47u8]);
        root
    } else if v[i5] == 47 {
        copy_range(v, i5, v.len())
    } else {
        return None;
    };
    let octets: [u8; 4] = [a as u8, b as u8, c as u8, e as u8];
    assert(octets@ =~= seq![a as u8, b as u8, c as u8, e as u8]);
    Some(Candidate { addr: Endpoint { octets, port: port as u16 }, root_path: path })
}

/// Decodes one received datagram into a candidate; `None` for a datagram
/// that is not UTF-8, has no location header, or whose location is not an
/// `http` URL on an IPv4 address.
pub fn decode_response(d: &Vec<u8>) -> (r: Option<Candidate>)
    ensures
        match decode_spec(d@) {
            Some((o, port, path)) => r matches Some(c) && c.addr.octets@ == o && c.addr.port == port
                && c.root_path@ == path,
            None => r is None,
        },
{
    if utf8_text(d.as_slice()).is_none() {
        return None;
    }
    match find_location(d) {
        Some(v) => read_url(&v),
        None => None,
    }
}

} // verus!
