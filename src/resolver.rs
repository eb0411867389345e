//! Resolution of a candidate into a gateway: fetch its device description,
//! then its control schema, then assemble the descriptor. The caller performs
//! each fetch that `next_fetch` names and hands the body (or the failure) to
//! `supply`; any failure drops the candidate.
use vstd::prelude::*;
use vstd::utf8::{decode_utf8, valid_utf8};
use crate::description::{control_urls, parse_control_urls, parse_schemas, schema_table, table_view, ActionBytes};
use crate::driver::Outcome;
use crate::gateway::{Endpoint, Gateway};
use crate::ssdp::{http_prefix, Candidate};
use crate::text::{decimal_bytes, push_decimal, utf8_text};

verus! {

/// `http://a.b.c.d:port` followed by `path`.
pub open spec fn url_bytes(addr: Endpoint, path: Seq<u8>) -> Seq<u8> {
    http_prefix() + decimal_bytes(addr.octets@[0] as nat) + seq![46u8] + decimal_bytes(addr.octets@[1] as nat)
        + seq![46u8] + decimal_bytes(addr.octets@[2] as nat) + seq![46u8] + decimal_bytes(
        addr.octets@[3] as nat,
    ) + seq![58u8] + decimal_bytes(addr.port as nat) + path
}

pub open spec fn entry_valid(e: (Seq<u8>, Seq<Seq<u8>>)) -> bool {
    valid_utf8(e.0) && forall|j: int| 0 <= j < e.1.len() ==> valid_utf8(#[trigger] e.1[j])
}

pub open spec fn entry_decodes(x: (String, Vec<String>), e: (Seq<u8>, Seq<Seq<u8>>)) -> bool {
    &&& x.0@ == decode_utf8(e.0)
    &&& x.1@.len() == e.1.len()
    &&& forall|j: int| 0 <= j < e.1.len() ==> (#[trigger] x.1@[j])@ == decode_utf8(e.1[j])
}

/// Every name in the table is valid UTF-8.
pub open spec fn table_valid(t: Seq<(Seq<u8>, Seq<Seq<u8>>)>) -> bool {
    forall|i: int| 0 <= i < t.len() ==> entry_valid(#[trigger] t[i])
}

/// `x` holds the text of every name of `t`, in order.
pub open spec fn table_decodes(x: Seq<(String, Vec<String>)>, t: Seq<(Seq<u8>, Seq<Seq<u8>>)>) -> bool {
    x.len() == t.len() && forall|i: int| 0 <= i < t.len() ==> entry_decodes(#[trigger] x[i], t[i])
}

/// All the paths and names that make up a gateway are text.
pub open spec fn convertible(root: Seq<u8>, schema: Seq<u8>, control: Seq<u8>, table: Seq<(Seq<u8>, Seq<Seq<u8>>)>) -> bool {
    valid_utf8(root) && valid_utf8(schema) && valid_utf8(control) && table_valid(table)
}

/// `g` is the gateway assembled from these parts.
pub open spec fn assembled(
    g: Gateway,
    addr: Endpoint,
    root: Seq<u8>,
    schema: Seq<u8>,
    control: Seq<u8>,
    table: Seq<(Seq<u8>, Seq<Seq<u8>>)>,
) -> bool {
    &&& g.addr == addr
    &&& g.root_url@ == decode_utf8(root)
    &&& g.control_schema_url@ == decode_utf8(schema)
    &&& g.control_url@ == decode_utf8(control)
    &&& table_decodes(g.control_schema@, table)
}

/// The bytes of the URL of `path` on `addr`.
pub fn url_for(addr: &Endpoint, path: &Vec<u8>) -> (r: Vec<u8>)
    ensures
        r@ == url_bytes(*addr, path@),
{
    let mut r: Vec<u8> = Vec::new();
    r.push(104);
    r.push(116);
    r.push(116);
    r.push(112);
    r.push(58);
    r.push(47);
    r.push(47);
    assert(r@ =~= http_prefix());
    push_decimal(&mut r, addr.octets[0] as u64);
    r.push(46);
    push_decimal(&mut r, addr.octets[1] as u64);
    r.push(46);
    push_decimal(&mut r, addr.octets[2] as u64);
    r.push(46);
    push_decimal(&mut r, addr.octets[3] as u64);
    r.push(58);
    push_decimal(&mut r, addr.port as u64);
    let mut k: usize = 0;
    let ghost head = r@;
    while k < path.len()
        invariant
            k <= path@.len(),
            r@ == head + path@.subrange(0, k as int),
        decreases path@.len() - k,
    {
        r.push(path[k]);
        k = k + 1;
    }
    assert(path@.subrange(0, k as int) =~= path@);
    assert(r@ =~= url_bytes(*addr, path@));
    r
}

/// The text of every name of a table; `None` if one is not UTF-8.
fn table_strings(t: &Vec<ActionBytes>) -> (r: Option<Vec<(String, Vec<String>)>>)
    ensures
        r is Some <==> table_valid(table_view(t@)),
        r matches Some(x) ==> table_decodes(x@, table_view(t@)),
{
    let mut out: Vec<(String, Vec<String>)> = Vec::new();
    let mut i: usize = 0;
    while i < t.len()
        invariant
            i <= t@.len(),
            out@.len() == i,
            forall|k: int| 0 <= k < i ==> entry_valid(#[trigger] table_view(t@)[k]),
            forall|k: int| 0 <= k < i ==> entry_decodes(#[trigger] out@[k], table_view(t@)[k]),
        decreases t@.len() - i,
    {
        let ghost e = table_view(t@)[i as int];
        let key = match utf8_text(t[i].0.as_slice()) {
            Some(key) => key,
            None => return None,
        };
        let args = &t[i].1;
        let mut texts: Vec<String> = Vec::new();
        let mut j: usize = 0;
        while j < args.len()
            invariant
                j <= args@.len(),
                i < t@.len(),
                e == table_view(t@)[i as int],
                e.1 == args@.map_values(|v: Vec<u8>| v@),
                texts@.len() == j,
                forall|m: int| 0 <= m < j ==> valid_utf8(#[trigger] e.1[m]),
                forall|m: int| 0 <= m < j ==> (#[trigger] texts@[m])@ == decode_utf8(e.1[m]),
            decreases args@.len() - j,
        {
            match utf8_text(args[j].as_slice()) {
                Some(s) => texts.push(s),
                None => {
                    assert(e.1[j as int] == args@[j as int]@);
                    assert(!entry_valid(table_view(t@)[i as int]));
                    return None;
                },
            }
            j = j + 1;
        }
        out.push((key, texts));
        assert(entry_decodes(out@[i as int], e));
        i = i + 1;
    }
    Some(out)
}

/// Where a resolution stands.
pub enum Stage {
    /// The device description is to be fetched.
    Describing,
    /// The control schema is to be fetched; the description gave these paths.
    FetchingSchema { schema_path: Vec<u8>, control_path: Vec<u8> },
    /// Over: the gateway, or `None` if the candidate was dropped.
    Finished(Option<Gateway>),
}

/// The resolution of one candidate.
pub struct Resolver {
    pub candidate: Candidate,
    pub stage: Stage,
}

impl Resolver {
    pub fn new(candidate: Candidate) -> (r: Resolver)
        ensures
            r.candidate == candidate,
            r.stage is Describing,
    {
        Resolver { candidate, stage: Stage::Describing }
    }

    /// The URL to fetch next, as bytes: the description, then the schema;
    /// `None` once the resolution is over.
    pub fn next_fetch(&self) -> (r: Option<Vec<u8>>)
        ensures
            match self.stage {
                Stage::Describing => r matches Some(u) && u@ == url_bytes(
                    self.candidate.addr,
                    self.candidate.root_path@,
                ),
                Stage::FetchingSchema { schema_path, control_path } => r matches Some(u) && u@ == url_bytes(
                    self.candidate.addr,
                    schema_path@,
                ),
                Stage::Finished(_) => r is None,
            },
    {
        match &self.stage {
            Stage::Describing => Some(url_for(&self.candidate.addr, &self.candidate.root_path)),
            Stage::FetchingSchema { schema_path, control_path } => Some(url_for(&self.candidate.addr, schema_path)),
            Stage::Finished(_) => None,
        }
    }

    /// Takes in the body of the last fetch, or `None` if the fetch failed. A
    /// failed fetch, or a document without what is needed, drops the
    /// candidate.
    pub fn supply(&mut self, body: Option<Vec<u8>>)
        ensures
            final(self).candidate == old(self).candidate,
            old(self).stage is Describing ==> match body {
                None => final(self).stage == Stage::Finished(None),
                Some(d) => match control_urls(d@) {
                    None => final(self).stage == Stage::Finished(None),
                    Some((s, c)) => final(self).stage matches Stage::FetchingSchema { schema_path, control_path }
                        && schema_path@ == s && control_path@ == c,
                },
            },
            old(self).stage matches Stage::FetchingSchema { schema_path, control_path } ==> match body {
                None => final(self).stage == Stage::Finished(None),
                Some(d) => match schema_table(d@) {
                    None => final(self).stage == Stage::Finished(None),
                    Some(t) => if convertible(old(self).candidate.root_path@, schema_path@, control_path@, t) {
                        final(self).stage matches Stage::Finished(Some(g)) && assembled(
                            g,
                            old(self).candidate.addr,
                            old(self).candidate.root_path@,
                            schema_path@,
                            control_path@,
                            t,
                        )
                    } else {
                        final(self).stage == Stage::Finished(None)
                    },
                },
            },
            old(self).stage is Finished ==> final(self).stage == old(self).stage,
    {
        match &self.stage {
            Stage::Describing => {
                let next = match body {
                    None => Stage::Finished(None),
                    Some(d) => match parse_control_urls(&d) {
                        None => Stage::Finished(None),
                        Some((schema_path, control_path)) => Stage::FetchingSchema { schema_path, control_path },
                    },
                };
                self.stage = next;
            },
            Stage::FetchingSchema { schema_path, control_path } => {
                let next = match body {
                    None => Stage::Finished(None),
                    Some(d) => match parse_schemas(&d) {
                        None => Stage::Finished(None),
                        Some(t) => Stage::Finished(self.assemble(schema_path, control_path, &t)),
                    },
                };
                self.stage = next;
            },
            Stage::Finished(_) => {},
        }
    }

    fn assemble(&self, schema_path: &Vec<u8>, control_path: &Vec<u8>, t: &Vec<ActionBytes>) -> (r: Option<Gateway>)
        ensures
            r is Some <==> convertible(self.candidate.root_path@, schema_path@, control_path@, table_view(t@)),
            r matches Some(g) ==> assembled(
                g,
                self.candidate.addr,
                self.candidate.root_path@,
                schema_path@,
                control_path@,
                table_view(t@),
            ),
    {
        let root_url = match utf8_text(self.candidate.root_path.as_slice()) {
            Some(s) => s,
            None => return None,
        };
        let control_schema_url = match utf8_text(schema_path.as_slice()) {
            Some(s) => s,
            None => return None,
        };
        let control_url = match utf8_text(control_path.as_slice()) {
            Some(s) => s,
            None => return None,
        };
        let control_schema = match table_strings(t) {
            Some(x) => x,
            None => return None,
        };
        Some(Gateway { addr: self.candidate.addr, root_url, control_url, control_schema_url, control_schema })
    }

    /// What the resolution came to, for the search.
    pub fn outcome(self) -> (r: Outcome)
        ensures
            match self.stage {
                Stage::Finished(Some(g)) => r == Outcome::Resolved(g),
                _ => r is Dropped,
            },
    {
        match self.stage {
            Stage::Finished(Some(g)) => Outcome::Resolved(g),
            _ => Outcome::Dropped,
        }
    }
}

} // verus!
