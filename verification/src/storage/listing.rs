//! Directory listings of the namespace view: the store's control files are
//! hidden and the rest come in byte-wise name order, as `String` orders them.
use super::paths::{has_control_prefix, is_control_name, lemma_control_prefix_bytes, views};
use vstd::prelude::*;

verus! {

broadcast use vstd::seq_lib::group_to_multiset_ensures;

/// Byte-wise lexicographic order: `a` comes no later than `b`.
pub open spec fn lex_le(a: Seq<u8>, b: Seq<u8>) -> bool
    decreases a.len(),
{
    if a.len() == 0 {
        true
    } else if b.len() == 0 {
        false
    } else if a[0] != b[0] {
        a[0] < b[0]
    } else {
        lex_le(a.drop_first(), b.drop_first())
    }
}

/// Names in listing order.
pub open spec fn sorted_names(s: Seq<Seq<u8>>) -> bool {
    forall|i: int, j: int| 0 <= i < j < s.len() ==> lex_le(#[trigger] s[i], #[trigger] s[j])
}

/// The names a listing shows: all but the control files.
pub open spec fn listed_names(names: Seq<Seq<u8>>) -> Seq<Seq<u8>> {
    names.filter(|n: Seq<u8>| !has_control_prefix(n))
}

pub proof fn lemma_lex_total(a: Seq<u8>, b: Seq<u8>)
    ensures
        lex_le(a, b) || lex_le(b, a),
    decreases a.len(),
{
    if a.len() > 0 && b.len() > 0 && a[0] == b[0] {
        lemma_lex_total(a.drop_first(), b.drop_first());
    }
}

pub proof fn lemma_lex_transitive(a: Seq<u8>, b: Seq<u8>, c: Seq<u8>)
    requires
        lex_le(a, b),
        lex_le(b, c),
    ensures
        lex_le(a, c),
    decreases a.len(),
{
    if a.len() > 0 && b.len() > 0 && c.len() > 0 && a[0] == b[0] && b[0] == c[0] {
        lemma_lex_transitive(a.drop_first(), b.drop_first(), c.drop_first());
    }
}

proof fn lemma_lex_skip(a: Seq<u8>, b: Seq<u8>, i: int)
    requires
        0 <= i <= a.len(),
        i <= b.len(),
        a.subrange(0, i) == b.subrange(0, i),
    ensures
        lex_le(a, b) == lex_le(a.subrange(i, a.len() as int), b.subrange(i, b.len() as int)),
    decreases i,
{
    if i == 0 {
        assert(a.subrange(0, a.len() as int) =~= a);
        assert(b.subrange(0, b.len() as int) =~= b);
    } else {
        assert(a[0] == a.subrange(0, i)[0]);
        assert(b[0] == b.subrange(0, i)[0]);
        assert(a.drop_first().subrange(0, i - 1) =~= a.subrange(0, i).drop_first());
        assert(b.drop_first().subrange(0, i - 1) =~= b.subrange(0, i).drop_first());
        lemma_lex_skip(a.drop_first(), b.drop_first(), i - 1);
        assert(a.drop_first().subrange(i - 1, a.len() - 1) =~= a.subrange(i, a.len() as int));
        assert(b.drop_first().subrange(i - 1, b.len() - 1) =~= b.subrange(i, b.len() as int));
    }
}

/// Compares two names in listing order.
pub fn name_le(a: &[u8], b: &[u8]) -> (r: bool)
    ensures
        r == lex_le(a@, b@),
{
    let mut i: usize = 0;
    while i < a.len() && i < b.len() && a[i] == b[i]
        invariant
            i <= a.len(),
            i <= b.len(),
            a@.subrange(0, i as int) == b@.subrange(0, i as int),
        decreases a.len() - i,
    {
        proof {
            assert(a@.subrange(0, i + 1) =~= a@.subrange(0, i as int).push(a@[i as int]));
            assert(b@.subrange(0, i + 1) =~= b@.subrange(0, i as int).push(b@[i as int]));
        }
        i = i + 1;
    }
    proof {
        lemma_lex_skip(a@, b@, i as int);
        let ra = a@.subrange(i as int, a@.len() as int);
        let rb = b@.subrange(i as int, b@.len() as int);
        if i < a.len() && i < b.len() {
            assert(ra[0] == a@[i as int]);
            assert(rb[0] == b@[i as int]);
        }
    }
    if i == a.len() {
        true
    } else if i == b.len() {
        false
    } else {
        a[i] < b[i]
    }
}

/// Inserts `name` into a listing that is already in order.
fn insert_sorted(out: &mut Vec<Vec<u8>>, name: Vec<u8>)
    requires
        sorted_names(views(old(out)@)),
    ensures
        sorted_names(views(final(out)@)),
        views(final(out)@).to_multiset() == views(old(out)@).to_multiset().insert(name@),
{
    let mut p: usize = 0;
    while p < out.len() && name_le(out[p].as_slice(), name.as_slice())
        invariant
            p <= out.len(),
            *out == *old(out),
            forall|j: int| 0 <= j < p ==> lex_le(#[trigger] out@[j]@, name@),
        decreases out.len() - p,
    {
        p = p + 1;
    }
    let ghost before = views(out@);
    let ghost x = name@;
    proof {
        if p < out.len() {
            lemma_lex_total(out@[p as int]@, x);
        }
    }
    out.insert(p, name);
    proof {
        let after = views(out@);
        assert(after =~= before.insert(p as int, x));
        vstd::seq_lib::to_multiset_insert(before, p as int, x);
        assert forall|i: int, j: int| 0 <= i < j < after.len() implies lex_le(#[trigger] after[i], #[trigger] after[j]) by {
            if j < p {
                assert(after[i] == before[i] && after[j] == before[j]);
            } else if j == p {
                assert(after[j] == x);
                assert(after[i] == before[i]);
            } else if i == p {
                assert(after[i] == x);
                assert(after[j] == before[j - 1]);
                if j - 1 > p {
                    assert(lex_le(before[p as int], before[j - 1]));
                    lemma_lex_transitive(x, before[p as int], before[j - 1]);
                }
            } else if i < p {
                assert(after[i] == before[i] && after[j] == before[j - 1]);
            } else {
                assert(after[i] == before[i - 1] && after[j] == before[j - 1]);
            }
        }
    }
}

/// The names a directory listing shows, in order: control files are left
/// out and every other name appears as often as it was given.
pub fn listing_names(names: &Vec<Vec<u8>>) -> (r: Vec<Vec<u8>>)
    ensures
        sorted_names(views(r@)),
        views(r@).to_multiset() == listed_names(views(names@)).to_multiset(),
{
    let ghost pred = |n: Seq<u8>| !has_control_prefix(n);
    let mut out: Vec<Vec<u8>> = Vec::new();
    let mut k: usize = 0;
    while k < names.len()
        invariant
            k <= names.len(),
            pred == (|n: Seq<u8>| !has_control_prefix(n)),
            sorted_names(views(out@)),
            views(out@).to_multiset() == views(names@).subrange(0, k as int).filter(pred).to_multiset(),
        decreases names.len() - k,
    {
        let ghost before = views(names@).subrange(0, k as int);
        let ghost after = views(names@).subrange(0, k + 1);
        proof {
            assert(after.drop_last() =~= before);
            assert(after.last() == names@[k as int]@);
            reveal(Seq::filter);
        }
        if !is_control_name(names[k].as_slice()) {
            let copy = names[k].clone();
            proof {
                assert(copy@ =~= names@[k as int]@);
                assert(after.filter(pred) == before.filter(pred).push(after.last()));
            }
            insert_sorted(&mut out, copy);
        } else {
            proof {
                assert(after.filter(pred) == before.filter(pred));
            }
        }
        k = k + 1;
    }
    proof {
        assert(views(names@).subrange(0, names.len() as int) =~= views(names@));
    }
    out
}

/// A listing hides exactly the control files: a name shows if and only if
/// the directory holds it and it does not start with `.ab-worm` in any ASCII
/// letter case. Other dot-files, such as `.profile`, are listed.
pub proof fn law_listing_hides_only_control_files(names: Seq<Seq<u8>>, n: Seq<u8>)
    ensures
        listed_names(names).contains(n) <==> {
            &&& names.contains(n)
            &&& !{
                &&& n.len() >= 8
                &&& n[0] == 46u8
                &&& (n[1] == 97u8 || n[1] == 65u8)
                &&& (n[2] == 98u8 || n[2] == 66u8)
                &&& n[3] == 45u8
                &&& (n[4] == 119u8 || n[4] == 87u8)
                &&& (n[5] == 111u8 || n[5] == 79u8)
                &&& (n[6] == 114u8 || n[6] == 82u8)
                &&& (n[7] == 109u8 || n[7] == 77u8)
            }
        },
{
    lemma_control_prefix_bytes(n);
    let pred = |m: Seq<u8>| !has_control_prefix(m);
    if listed_names(names).contains(n) {
        names.lemma_filter_contains_rev(pred, n);
    }
    if names.contains(n) && pred(n) {
        let i = choose|i: int| 0 <= i < names.len() && names[i] == n;
        names.lemma_filter_contains(pred, i);
    }
}

} // verus!
