//! Reading a gateway's documents: the device description gives the paths of
//! the connection service's control endpoint and control schema; the control
//! schema gives each action with the names of its input arguments.
use vstd::prelude::*;
use crate::markup::{blocks, element_text, find, find_blocks, find_element, find_from};
use crate::text::copy_range;

verus! {

/// An action's name with the ordered names of its input arguments.
pub type ActionBytes = (Vec<u8>, Vec<Vec<u8>>);

pub open spec fn wan_ip() -> Seq<u8> {
    seq![87u8, 65, 78, 73, 80, 67, 111, 110, 110, 101, 99, 116, 105, 111, 110, 58]
}

pub open spec fn wan_ppp() -> Seq<u8> {
    seq![87u8, 65, 78, 80, 80, 80, 67, 111, 110, 110, 101, 99, 116, 105, 111, 110, 58]
}

pub open spec fn scpd_open() -> Seq<u8> {
    seq![60u8, 83, 67, 80, 68, 85, 82, 76, 62]
}

pub open spec fn scpd_close() -> Seq<u8> {
    seq![60u8, 47, 83, 67, 80, 68, 85, 82, 76, 62]
}

pub open spec fn control_open() -> Seq<u8> {
    seq![60u8, 99, 111, 110, 116, 114, 111, 108, 85, 82, 76, 62]
}

pub open spec fn control_close() -> Seq<u8> {
    seq![60u8, 47, 99, 111, 110, 116, 114, 111, 108, 85, 82, 76, 62]
}

pub open spec fn action_open() -> Seq<u8> {
    seq![60u8, 97, 99, 116, 105, 111, 110, 62]
}

pub open spec fn action_close() -> Seq<u8> {
    seq![60u8, 47, 97, 99, 116, 105, 111, 110, 62]
}

pub open spec fn name_open() -> Seq<u8> {
    seq![60u8, 110, 97, 109, 101, 62]
}

pub open spec fn name_close() -> Seq<u8> {
    seq![60u8, 47, 110, 97, 109, 101, 62]
}

pub open spec fn argument_open() -> Seq<u8> {
    seq![60u8, 97, 114, 103, 117, 109, 101, 110, 116, 62]
}

pub open spec fn argument_close() -> Seq<u8> {
    seq![60u8, 47, 97, 114, 103, 117, 109, 101, 110, 116, 62]
}

pub open spec fn direction_in() -> Seq<u8> {
    seq![60u8, 100, 105, 114, 101, 99, 116, 105, 111, 110, 62, 105, 110, 60, 47, 100, 105, 114, 101, 99, 116, 105, 111, 110, 62]
}

/// Where the connection service's entry starts: its `WANIPConnection:` type,
/// else its `WANPPPConnection:` type.
pub open spec fn service_start(doc: Seq<u8>) -> Option<int> {
    match find_from(doc, wan_ip(), 0, doc.len() as int) {
        Some(i) => Some(i),
        None => find_from(doc, wan_ppp(), 0, doc.len() as int),
    }
}

/// The control-schema path and the control path of the connection service:
/// the first `SCPDURL` and `controlURL` elements after its type.
pub open spec fn control_urls(doc: Seq<u8>) -> Option<(Seq<u8>, Seq<u8>)> {
    match service_start(doc) {
        None => None,
        Some(i) => match (
            element_text(doc, scpd_open(), scpd_close(), i, doc.len() as int),
            element_text(doc, control_open(), control_close(), i, doc.len() as int),
        ) {
            (Some(s), Some(c)) => Some((s, c)),
            _ => None,
        },
    }
}

/// The names of the arguments among `args` whose direction is `in`; `None`
/// if one of them has no name.
pub open spec fn input_names(doc: Seq<u8>, args: Seq<(int, int)>) -> Option<Seq<Seq<u8>>>
    decreases args.len(),
{
    if args.len() == 0 {
        Some(Seq::empty())
    } else {
        match input_names(doc, args.drop_last()) {
            None => None,
            Some(prev) => {
                let (c, d) = args.last();
                if find_from(doc, direction_in(), c, d) is None {
                    Some(prev)
                } else {
                    match element_text(doc, name_open(), name_close(), c, d) {
                        None => None,
                        Some(n) => Some(prev.push(n)),
                    }
                }
            },
        }
    }
}

pub open spec fn has_key(t: Seq<(Seq<u8>, Seq<Seq<u8>>)>, k: Seq<u8>) -> bool {
    exists|i: int| 0 <= i < t.len() && (#[trigger] t[i]).0 == k
}

/// The table of the actions in `acts`: each name with its input arguments,
/// the first action of a name kept; `None` if an action or an input
/// argument has no name.
pub open spec fn action_table(doc: Seq<u8>, acts: Seq<(int, int)>) -> Option<Seq<(Seq<u8>, Seq<Seq<u8>>)>>
    decreases acts.len(),
{
    if acts.len() == 0 {
        Some(Seq::empty())
    } else {
        match action_table(doc, acts.drop_last()) {
            None => None,
            Some(prev) => {
                let (a, b) = acts.last();
                match element_text(doc, name_open(), name_close(), a, b) {
                    None => None,
                    Some(name) => match input_names(doc, blocks(doc, argument_open(), argument_close(), a, b)) {
                        None => None,
                        Some(args) => if has_key(prev, name) {
                            Some(prev)
                        } else {
                            Some(prev.push((name, args)))
                        },
                    },
                }
            },
        }
    }
}

/// No two entries of the table share a name.
pub open spec fn keys_unique(t: Seq<(Seq<u8>, Seq<Seq<u8>>)>) -> bool {
    forall|i: int, j: int| 0 <= i < j < t.len() ==> (#[trigger] t[i]).0 != (#[trigger] t[j]).0
}

/// Every table that `action_table` builds names each action once.
pub proof fn lemma_action_table_keys_unique(doc: Seq<u8>, acts: Seq<(int, int)>)
    ensures
        action_table(doc, acts) matches Some(t) ==> keys_unique(t),
    decreases acts.len(),
{
    if acts.len() > 0 {
        lemma_action_table_keys_unique(doc, acts.drop_last());
        if let Some(prev) = action_table(doc, acts.drop_last()) {
            if let Some(t) = action_table(doc, acts) {
                assert forall|i: int, j: int| 0 <= i < j < t.len() implies (#[trigger] t[i]).0 != (#[trigger] t[j]).0 by {
                    if j == prev.len() {
                        assert(t[i] == prev[i]);
                        assert(!has_key(prev, t[j].0));
                    } else {
                        assert(t[i] == prev[i] && t[j] == prev[j]);
                    }
                }
            }
        }
    }
}

/// The action table of a control-schema document.
pub open spec fn schema_table(doc: Seq<u8>) -> Option<Seq<(Seq<u8>, Seq<Seq<u8>>)>> {
    action_table(doc, blocks(doc, action_open(), action_close(), 0, doc.len() as int))
}

/// The table held by a vector of actions.
pub open spec fn table_view(t: Seq<ActionBytes>) -> Seq<(Seq<u8>, Seq<Seq<u8>>)> {
    t.map_values(|e: ActionBytes| (e.0@, e.1@.map_values(|v: Vec<u8>| v@)))
}

fn pattern(bytes: &[u8]) -> (r: Vec<u8>)
    ensures
        r@ == bytes@,
{
    let mut r: Vec<u8> = Vec::new();
    let mut k: usize = 0;
    while k < bytes.len()
        invariant
            k <= bytes@.len(),
            r@ == bytes@.subrange(0, k as int),
        decreases bytes@.len() - k,
    {
        r.push(bytes[k]);
        k = k + 1;
    }
    r
}

/// The text of `element_text`.
fn text_of(doc: &Vec<u8>, open: &Vec<u8>, close: &Vec<u8>, from: usize, to: usize) -> (r: Option<Vec<u8>>)
    requires
        to <= doc@.len(),
    ensures
        match element_text(doc@, open@, close@, from as int, to as int) {
            Some(t) => r matches Some(x) && x@ == t,
            None => r is None,
        },
{
    match find_element(doc, open, close, from, to) {
        Some((a, b)) => Some(copy_range(doc, a, b)),
        None => None,
    }
}

/// Reads the paths that `control_urls` describes: (schema path, control path).
pub fn parse_control_urls(doc: &Vec<u8>) -> (r: Option<(Vec<u8>, Vec<u8>)>)
    ensures
        match control_urls(doc@) {
            Some((s, c)) => r matches Some((x, y)) && x@ == s && y@ == c,
            None => r is None,
        },
{
    let n = doc.len();
    let ip = pattern(&[87u8, 65, 78, 73, 80, 67, 111, 110, 110, 101, 99, 116, 105, 111, 110, 58]);
    let ppp = pattern(&[87u8, 65, 78, 80, 80, 80, 67, 111, 110, 110, 101, 99, 116, 105, 111, 110, 58]);
    assert(ip@ == wan_ip());
    assert(ppp@ == wan_ppp());
    let start = match find(doc, &ip, 0, n) {
        Some(i) => i,
        None => match find(doc, &ppp, 0, n) {
            Some(i) => i,
            None => return None,
        },
    };
    let so = pattern(&[60u8, 83, 67, 80, 68, 85, 82, 76, 62]);
    let sc = pattern(&[60u8, 47, 83, 67, 80, 68, 85, 82, 76, 62]);
    let co = pattern(&[60u8, 99, 111, 110, 116, 114, 111, 108, 85, 82, 76, 62]);
    let cc = pattern(&[60u8, 47, 99, 111, 110, 116, 114, 111, 108, 85, 82, 76, 62]);
    assert(so@ == scpd_open());
    assert(sc@ == scpd_close());
    assert(co@ == control_open());
    assert(cc@ == control_close());
    let schema = text_of(doc, &so, &sc, start, n);
    let control = text_of(doc, &co, &cc, start, n);
    match (schema, control) {
        (Some(s), Some(c)) => Some((s, c)),
        _ => None,
    }
}

fn same_bytes(a: &Vec<u8>, b: &Vec<u8>) -> (r: bool)
    ensures
        r == (a@ == b@),
{
    if a.len() != b.len() {
        return false;
    }
    let mut k: usize = 0;
    while k < a.len()
        invariant
            k <= a@.len(),
            a@.len() == b@.len(),
            forall|j: int| 0 <= j < k ==> a@[j] == b@[j],
        decreases a@.len() - k,
    {
        if a[k] != b[k] {
            return false;
        }
        k = k + 1;
    }
    assert(a@ =~= b@);
    true
}

fn contains_key(t: &Vec<ActionBytes>, k: &Vec<u8>) -> (r: bool)
    ensures
        r == has_key(table_view(t@), k@),
{
    let mut i: usize = 0;
    while i < t.len()
        invariant
            i <= t@.len(),
            forall|j: int| 0 <= j < i ==> (#[trigger] table_view(t@)[j]).0 != k@,
        decreases t@.len() - i,
    {
        if same_bytes(&t[i].0, k) {
            assert(table_view(t@)[i as int].0 == k@);
            return true;
        }
        i = i + 1;
    }
    false
}

proof fn lemma_input_names_none(doc: Seq<u8>, args: Seq<(int, int)>, k: int)
    requires
        0 <= k <= args.len(),
        input_names(doc, args.take(k)) is None,
    ensures
        input_names(doc, args) is None,
    decreases args.len() - k,
{
    if k < args.len() {
        assert(args.take(k + 1).drop_last() =~= args.take(k));
        lemma_input_names_none(doc, args, k + 1);
    } else {
        assert(args.take(k) =~= args);
    }
}

proof fn lemma_action_table_none(doc: Seq<u8>, acts: Seq<(int, int)>, k: int)
    requires
        0 <= k <= acts.len(),
        action_table(doc, acts.take(k)) is None,
    ensures
        action_table(doc, acts) is None,
    decreases acts.len() - k,
{
    if k < acts.len() {
        assert(acts.take(k + 1).drop_last() =~= acts.take(k));
        lemma_action_table_none(doc, acts, k + 1);
    } else {
        assert(acts.take(k) =~= acts);
    }
}

/// The input argument names of one action.
fn read_inputs(doc: &Vec<u8>, a: usize, b: usize) -> (r: Option<Vec<Vec<u8>>>)
    requires
        a <= b <= doc@.len(),
    ensures
        match input_names(doc@, blocks(doc@, argument_open(), argument_close(), a as int, b as int)) {
            Some(names) => r matches Some(x) && x@.map_values(|v: Vec<u8>| v@) == names,
            None => r is None,
        },
{
    let ao = pattern(&[60u8, 97, 114, 103, 117, 109, 101, 110, 116, 62]);
    let ac = pattern(&[60u8, 47, 97, 114, 103, 117, 109, 101, 110, 116, 62]);
    let di = pattern(
        &[60u8, 100, 105, 114, 101, 99, 116, 105, 111, 110, 62, 105, 110, 60, 47, 100, 105, 114, 101, 99, 116, 105, 111, 110, 62],
    );
    let no = pattern(&[60u8, 110, 97, 109, 101, 62]);
    let nc = pattern(&[60u8, 47, 110, 97, 109, 101, 62]);
    assert(ao@ == argument_open());
    assert(ac@ == argument_close());
    assert(di@ == direction_in());
    assert(no@ == name_open());
    assert(nc@ == name_close());
    let args = find_blocks(doc, &ao, &ac, a, b);
    let ghost all = blocks(doc@, argument_open(), argument_close(), a as int, b as int);
    let mut names: Vec<Vec<u8>> = Vec::new();
    let mut k: usize = 0;
    while k < args.len()
        invariant
            k <= args@.len() == all.len(),
            a <= b <= doc@.len(),
            all == blocks(doc@, argument_open(), argument_close(), a as int, b as int),
            forall|j: int| 0 <= j < args@.len() ==> {
                let (c, d) = #[trigger] all[j];
                args@[j] == (c as usize, d as usize) && a <= c <= d <= b
            },
            di@ == direction_in(),
            no@ == name_open(),
            nc@ == name_close(),
            input_names(doc@, all.take(k as int)) == Some(names@.map_values(|v: Vec<u8>| v@)),
        decreases args@.len() - k,
    {
        let (c, d) = args[k];
        let ghost (sc, sd) = all[k as int];
        assert(sc == c && sd == d);
        assert(all.take(k + 1).drop_last() =~= all.take(k as int));
        assert(all.take(k + 1).last() == all[k as int]);
        if find(doc, &di, c, d).is_some() {
            match text_of(doc, &no, &nc, c, d) {
                Some(name) => {
                    let ghost before = names@;
                    names.push(name);
                    assert(names@.map_values(|v: Vec<u8>| v@) =~= before.map_values(|v: Vec<u8>| v@).push(
                        name@,
                    ));
                },
                None => {
                    proof {
                        lemma_input_names_none(doc@, all, k + 1);
                    }
                    return None;
                },
            }
        }
        k = k + 1;
    }
    assert(all.take(k as int) =~= all);
    Some(names)
}

/// Reads the table that `schema_table` describes.
pub fn parse_schemas(doc: &Vec<u8>) -> (r: Option<Vec<ActionBytes>>)
    ensures
        match schema_table(doc@) {
            Some(t) => r matches Some(x) && table_view(x@) == t,
            None => r is None,
        },
        r matches Some(x) ==> keys_unique(table_view(x@)),
{
    proof {
        lemma_action_table_keys_unique(doc@, blocks(doc@, action_open(), action_close(), 0, doc@.len() as int));
    }
    let n = doc.len();
    let ao = pattern(&[60u8, 97, 99, 116, 105, 111, 110, 62]);
    let ac = pattern(&[60u8, 47, 97, 99, 116, 105, 111, 110, 62]);
    let no = pattern(&[60u8, 110, 97, 109, 101, 62]);
    let nc = pattern(&[60u8, 47, 110, 97, 109, 101, 62]);
    assert(ao@ == action_open());
    assert(ac@ == action_close());
    assert(no@ == name_open());
    assert(nc@ == name_close());
    let acts = find_blocks(doc, &ao, &ac, 0, n);
    let ghost all = blocks(doc@, action_open(), action_close(), 0, n as int);
    let mut table: Vec<ActionBytes> = Vec::new();
    let mut k: usize = 0;
    while k < acts.len()
        invariant
            k <= acts@.len() == all.len(),
            n == doc@.len(),
            all == blocks(doc@, action_open(), action_close(), 0, n as int),
            forall|j: int| 0 <= j < acts@.len() ==> {
                let (c, d) = #[trigger] all[j];
                acts@[j] == (c as usize, d as usize) && 0 <= c <= d <= n
            },
            no@ == name_open(),
            nc@ == name_close(),
            action_table(doc@, all.take(k as int)) == Some(table_view(table@)),
        decreases acts@.len() - k,
    {
        let (a, b) = acts[k];
        let ghost (sa, sb) = all[k as int];
        assert(sa == a && sb == b);
        assert(all.take(k + 1).drop_last() =~= all.take(k as int));
        assert(all.take(k + 1).last() == all[k as int]);
        let name = match text_of(doc, &no, &nc, a, b) {
            Some(name) => name,
            None => {
                proof {
                    lemma_action_table_none(doc@, all, k + 1);
                }
                return None;
            },
        };
        let inputs = match read_inputs(doc, a, b) {
            Some(inputs) => inputs,
            None => {
                proof {
                    lemma_action_table_none(doc@, all, k + 1);
                }
                return None;
            },
        };
        if !contains_key(&table, &name) {
            let ghost before = table@;
            table.push((name, inputs));
            assert(table_view(table@) =~= table_view(before).push(
                (name@, inputs@.map_values(|v: Vec<u8>| v@)),
            ));
        }
        k = k + 1;
    }
    assert(all.take(k as int) =~= all);
    Some(table)
}

} // verus!
