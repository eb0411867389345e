//! Searching documents for literal markup: the first occurrence of a
//! pattern, the text of an element, and the run of sibling elements of one
//! name.
use vstd::prelude::*;

verus! {

/// `pat` occurs in `doc` at `i`.
pub open spec fn occurs_at(doc: Seq<u8>, pat: Seq<u8>, i: int) -> bool {
    0 <= i && i + pat.len() <= doc.len() && doc.subrange(i, i + pat.len()) == pat
}

/// The first index `i` in `from..` with `pat` at `i` and ending by `to`.
pub open spec fn find_from(doc: Seq<u8>, pat: Seq<u8>, from: int, to: int) -> Option<int>
    decreases to - from,
{
    if from < 0 || from >= to || from + pat.len() > to {
        None
    } else if occurs_at(doc, pat, from) {
        Some(from)
    } else {
        find_from(doc, pat, from + 1, to)
    }
}

/// The span of the text between the first `open` in `from..to` and the first
/// `close` after it.
pub open spec fn element(doc: Seq<u8>, open: Seq<u8>, close: Seq<u8>, from: int, to: int) -> Option<(int, int)> {
    match find_from(doc, open, from, to) {
        None => None,
        Some(a) => match find_from(doc, close, a + open.len(), to) {
            None => None,
            Some(b) => Some((a + open.len(), b)),
        },
    }
}

/// The text of `element`.
pub open spec fn element_text(doc: Seq<u8>, open: Seq<u8>, close: Seq<u8>, from: int, to: int) -> Option<Seq<u8>> {
    match element(doc, open, close, from, to) {
        Some((a, b)) => Some(doc.subrange(a, b)),
        None => None,
    }
}

/// The spans of the successive elements `open ... close` in `from..to`.
pub open spec fn blocks(doc: Seq<u8>, open: Seq<u8>, close: Seq<u8>, from: int, to: int) -> Seq<(int, int)>
    decreases to - from,
{
    if from > to {
        Seq::empty()
    } else {
        match element(doc, open, close, from, to) {
            None => Seq::empty(),
            Some((a, b)) => if from < b + close.len() <= to {
                seq![(a, b)] + blocks(doc, open, close, b + close.len(), to)
            } else {
                Seq::empty()
            },
        }
    }
}

proof fn lemma_find_bounds(doc: Seq<u8>, pat: Seq<u8>, from: int, to: int)
    ensures
        find_from(doc, pat, from, to) matches Some(i) ==> from <= i && i + pat.len() <= to
            && occurs_at(doc, pat, i),
    decreases to - from,
{
    if !(from < 0 || from >= to || from + pat.len() > to) && !occurs_at(doc, pat, from) {
        lemma_find_bounds(doc, pat, from + 1, to);
    }
}

/// Whether `pat` occurs at `i`.
fn occurs(doc: &Vec<u8>, pat: &Vec<u8>, i: usize) -> (r: bool)
    requires
        i + pat@.len() <= doc@.len(),
    ensures
        r == occurs_at(doc@, pat@, i as int),
{
    let n = doc.len();
    let mut k: usize = 0;
    while k < pat.len()
        invariant
            n == doc@.len(),
            0 <= k <= pat@.len(),
            i + pat@.len() <= doc@.len(),
            forall|j: int| 0 <= j < k ==> doc@[i + j] == pat@[j],
        decreases pat@.len() - k,
    {
        if doc[i + k] != pat[k] {
            assert(doc@.subrange(i as int, i + pat@.len())[k as int] != pat@[k as int]);
            return false;
        }
        k = k + 1;
    }
    assert(doc@.subrange(i as int, i + pat@.len()) =~= pat@);
    true
}

/// The first occurrence that `find_from` describes.
pub fn find(doc: &Vec<u8>, pat: &Vec<u8>, from: usize, to: usize) -> (r: Option<usize>)
    requires
        to <= doc@.len(),
    ensures
        match find_from(doc@, pat@, from as int, to as int) {
            Some(i) => r == Some(i as usize),
            None => r is None,
        },
        r matches Some(i) ==> from <= i && i + pat@.len() <= to,
        find_from(doc@, pat@, from as int, to as int) matches Some(i) ==> from <= i && i + pat@.len() <= to,
{
    proof {
        lemma_find_bounds(doc@, pat@, from as int, to as int);
    }
    let mut i: usize = from;
    while i < to && pat.len() <= to - i
        invariant
            from <= i,
            to <= doc@.len(),
            find_from(doc@, pat@, from as int, to as int) == find_from(doc@, pat@, i as int, to as int),
        decreases to - i,
    {
        if occurs(doc, pat, i) {
            return Some(i);
        }
        i = i + 1;
    }
    None
}

/// Spans as pairs of integers.
pub open spec fn spans(r: Seq<(usize, usize)>) -> Seq<(int, int)> {
    r.map_values(|p: (usize, usize)| (p.0 as int, p.1 as int))
}

/// The span that `element` describes.
pub fn find_element(doc: &Vec<u8>, open: &Vec<u8>, close: &Vec<u8>, from: usize, to: usize) -> (r: Option<(usize, usize)>)
    requires
        to <= doc@.len(),
    ensures
        match element(doc@, open@, close@, from as int, to as int) {
            Some((a, b)) => r == Some((a as usize, b as usize)),
            None => r is None,
        },
        r matches Some((a, b)) ==> from <= a <= b && b + close@.len() <= to,
        element(doc@, open@, close@, from as int, to as int) matches Some((a, b)) ==> from <= a <= b
            && b + close@.len() <= to,
{
    let a = match find(doc, open, from, to) {
        Some(a) => a,
        None => return None,
    };
    match find(doc, close, a + open.len(), to) {
        Some(b) => Some((a + open.len(), b)),
        None => None,
    }
}

/// The spans that `blocks` describes.
pub fn find_blocks(doc: &Vec<u8>, open: &Vec<u8>, close: &Vec<u8>, from: usize, to: usize) -> (r: Vec<(usize, usize)>)
    requires
        to <= doc@.len(),
    ensures
        r@.len() == blocks(doc@, open@, close@, from as int, to as int).len(),
        forall|k: int| 0 <= k < r@.len() ==> {
            let (a, b) = #[trigger] blocks(doc@, open@, close@, from as int, to as int)[k];
            r@[k] == (a as usize, b as usize) && from <= a <= b <= to
        },
{
    let mut r: Vec<(usize, usize)> = Vec::new();
    let mut pos: usize = from;
    let ghost all = blocks(doc@, open@, close@, from as int, to as int);
    while pos <= to
        invariant
            from <= pos,
            to <= doc@.len(),
            all == blocks(doc@, open@, close@, from as int, to as int),
            all =~= spans(r@)
                + blocks(doc@, open@, close@, pos as int, to as int),
            forall|k: int| 0 <= k < r@.len() ==> from <= (#[trigger] r@[k]).0 <= r@[k].1 <= to,
        ensures
            all =~= spans(r@),
            forall|k: int| 0 <= k < r@.len() ==> from <= (#[trigger] r@[k]).0 <= r@[k].1 <= to,
        decreases to - pos,
    {
        match find_element(doc, open, close, pos, to) {
            None => {
                assert(blocks(doc@, open@, close@, pos as int, to as int) =~= Seq::empty());
                break;
            },
            Some((a, b)) => {
                if pos < b + close.len() {
                    let ghost rest = blocks(doc@, open@, close@, (b + close@.len()) as int, to as int);
                    assert(blocks(doc@, open@, close@, pos as int, to as int) == seq![(a as int, b as int)] + rest);
                    let ghost before = r@;
                    r.push((a, b));
                    assert(spans(r@) =~= spans(before).push((a as int, b as int)));
                    pos = b + close.len();
                } else {
                    assert(blocks(doc@, open@, close@, pos as int, to as int) =~= Seq::empty());
                    break;
                }
            },
        }
    }
    assert forall|k: int| 0 <= k < r@.len() implies {
        let (a, b) = #[trigger] all[k];
        r@[k] == (a as usize, b as usize) && from <= a <= b <= to
    } by {
        assert(all[k] == (r@[k].0 as int, r@[k].1 as int));
    }
    r
}

} // verus!
