//! Lexicographic order on text, the order in which `String` compares, and a
//! verified sort of string lists by it.
use vstd::prelude::*;
use vstd::relations::{sorted_by, total_ordering};

use crate::text::{chars_of, str_eq};

verus! {

/// Strict lexicographic order by code point (equivalently, by UTF-8 bytes).
pub open spec fn text_lt(a: Seq<char>, b: Seq<char>) -> bool
    decreases a.len(),
{
    if a.len() == 0 {
        b.len() > 0
    } else if b.len() == 0 {
        false
    } else if (a[0] as u32) < (b[0] as u32) {
        true
    } else if a[0] == b[0] {
        text_lt(a.drop_first(), b.drop_first())
    } else {
        false
    }
}

pub open spec fn text_le(a: Seq<char>, b: Seq<char>) -> bool {
    a == b || text_lt(a, b)
}

pub open spec fn views(v: Seq<String>) -> Seq<Seq<char>> {
    v.map_values(|s: String| s@)
}

proof fn lemma_char_code_injective(x: char, y: char)
    ensures
        (x as u32) == (y as u32) ==> x == y,
{
    vstd::utf8::char_u32_cast(x, x as u32);
    vstd::utf8::char_u32_cast(y, y as u32);
}

pub proof fn lemma_text_lt_irreflexive(a: Seq<char>)
    ensures
        !text_lt(a, a),
    decreases a.len(),
{
    if a.len() > 0 {
        lemma_text_lt_irreflexive(a.drop_first());
    }
}

pub proof fn lemma_text_lt_asymmetric(a: Seq<char>, b: Seq<char>)
    ensures
        text_lt(a, b) ==> !text_lt(b, a),
    decreases a.len(),
{
    if a.len() > 0 && b.len() > 0 {
        lemma_text_lt_asymmetric(a.drop_first(), b.drop_first());
    }
}

pub proof fn lemma_text_lt_transitive(a: Seq<char>, b: Seq<char>, c: Seq<char>)
    ensures
        text_lt(a, b) && text_lt(b, c) ==> text_lt(a, c),
    decreases a.len(),
{
    if a.len() > 0 && b.len() > 0 && c.len() > 0 {
        lemma_text_lt_transitive(a.drop_first(), b.drop_first(), c.drop_first());
    }
}

pub proof fn lemma_text_lt_connected(a: Seq<char>, b: Seq<char>)
    ensures
        a != b ==> text_lt(a, b) || text_lt(b, a),
    decreases a.len(),
{
    if a.len() > 0 && b.len() > 0 {
        lemma_char_code_injective(a[0], b[0]);
        lemma_text_lt_connected(a.drop_first(), b.drop_first());
        if a[0] == b[0] && a.drop_first() == b.drop_first() {
            assert(a =~= seq![a[0]] + a.drop_first());
            assert(b =~= seq![b[0]] + b.drop_first());
        }
    } else if a.len() == 0 && b.len() == 0 {
        assert(a =~= b);
    }
}

/// `text_le` is a total order.
pub proof fn lemma_text_le_total()
    ensures
        total_ordering(|a: Seq<char>, b: Seq<char>| text_le(a, b)),
{
    let le = |a: Seq<char>, b: Seq<char>| text_le(a, b);
    assert forall|a: Seq<char>, b: Seq<char>| #[trigger] le(a, b) && #[trigger] le(b, a) implies a
        == b by {
        lemma_text_lt_asymmetric(a, b);
    }
    assert forall|a: Seq<char>, b: Seq<char>, c: Seq<char>| #[trigger] le(a, b) && #[trigger] le(
        b,
        c,
    ) implies le(a, c) by {
        lemma_text_lt_transitive(a, b, c);
    }
    assert forall|a: Seq<char>, b: Seq<char>| #[trigger] le(a, b) || #[trigger] le(b, a) by {
        lemma_text_lt_connected(a, b);
    }
}

pub fn chars_lt(a: &Vec<char>, b: &Vec<char>) -> (r: bool)
    ensures
        r == text_lt(a@, b@),
{
    let mut i: usize = 0;
    assert(a@.skip(0) =~= a@);
    assert(b@.skip(0) =~= b@);
    loop
        invariant
            i <= a@.len(),
            i <= b@.len(),
            text_lt(a@, b@) == text_lt(a@.skip(i as int), b@.skip(i as int)),
        decreases a@.len() - i,
    {
        if i == a.len() {
            return i < b.len();
        }
        if i == b.len() {
            return false;
        }
        let x = a[i] as u32;
        let y = b[i] as u32;
        if x < y {
            return true;
        }
        if x > y {
            return false;
        }
        proof {
            lemma_char_code_injective(a@[i as int], b@[i as int]);
            assert(a@.skip(i as int).drop_first() =~= a@.skip(i + 1));
            assert(b@.skip(i as int).drop_first() =~= b@.skip(i + 1));
        }
        i = i + 1;
    }
}

/// The strings, rearranged into non-decreasing text order.
pub fn sort_strings(v: &Vec<String>) -> (r: Vec<String>)
    ensures
        views(r@).to_multiset() == views(v@).to_multiset(),
        sorted_by(views(r@), |a: Seq<char>, b: Seq<char>| text_le(a, b)),
{
    let mut r: Vec<String> = Vec::new();
    let mut keys: Vec<Vec<char>> = Vec::new();
    let mut i: usize = 0;
    assert(views(v@).take(0) =~= Seq::<Seq<char>>::empty());
    assert(views(r@) =~= Seq::<Seq<char>>::empty());
    while i < v.len()
        invariant
            i <= v@.len(),
            keys@.len() == r@.len(),
            forall|q: int| 0 <= q < r@.len() ==> (#[trigger] keys@[q])@ == r@[q]@,
            views(r@).to_multiset() == views(v@).take(i as int).to_multiset(),
            forall|p: int, q: int| 0 <= p < q < r@.len() ==> text_le(#[trigger] r@[p]@, #[trigger] r@[q]@),
        decreases v@.len() - i,
    {
        let s = &v[i];
        let c = chars_of(s.as_str());
        let mut p: usize = 0;
        while p < keys.len() && !chars_lt(&c, &keys[p])
            invariant
                p <= keys@.len(),
                keys@.len() == r@.len(),
                forall|q: int| 0 <= q < r@.len() ==> (#[trigger] keys@[q])@ == r@[q]@,
                forall|q: int| 0 <= q < p ==> !text_lt(c@, #[trigger] keys@[q]@),
            decreases keys@.len() - p,
        {
            p = p + 1;
        }
        let ghost old_r = r@;
        let ghost old_keys = keys@;
        proof {
            assert forall|q: int| 0 <= q < p implies text_le(#[trigger] old_r[q]@, c@) by {
                lemma_text_lt_connected(c@, old_keys[q]@);
            }
            if p < old_r.len() {
                assert(text_lt(c@, old_keys[p as int]@));
                assert forall|q: int| p <= q < old_r.len() implies text_le(c@, #[trigger] old_r[q]@) by {
                    if q > p {
                        assert(text_le(old_r[p as int]@, old_r[q]@));
                        lemma_text_lt_transitive(c@, old_r[p as int]@, old_r[q]@);
                    }
                }
            }
        }
        r.insert(p, s.clone());
        keys.insert(p, c);
        proof {
            assert(views(r@) =~= views(old_r).insert(p as int, s@));
            vstd::seq_lib::to_multiset_insert(views(old_r), p as int, s@);
            assert(views(v@).take(i + 1) =~= views(v@).take(i as int).push(s@));
            vstd::seq_lib::to_multiset_build(views(v@).take(i as int), s@);
            assert forall|x: int, y: int| 0 <= x < y < r@.len() implies text_le(
                #[trigger] r@[x]@,
                #[trigger] r@[y]@,
            ) by {
                if y < p {
                    assert(r@[x] == old_r[x] && r@[y] == old_r[y]);
                } else if y == p {
                    assert(r@[x] == old_r[x]);
                } else if x == p {
                    assert(r@[y] == old_r[y - 1]);
                } else if x < p {
                    assert(r@[x] == old_r[x] && r@[y] == old_r[y - 1]);
                    assert(text_le(old_r[x]@, c@));
                    assert(text_le(c@, old_r[y - 1]@));
                    lemma_text_lt_transitive(old_r[x]@, c@, old_r[y - 1]@);
                } else {
                    assert(r@[x] == old_r[x - 1] && r@[y] == old_r[y - 1]);
                }
            }
            assert forall|q: int| 0 <= q < r@.len() implies (#[trigger] keys@[q])@ == r@[q]@ by {
                if q < p {
                    assert(keys@[q] == old_keys[q]);
                } else if q > p {
                    assert(keys@[q] == old_keys[q - 1]);
                }
            }
        }
        i = i + 1;
    }
    assert(views(v@).take(v@.len() as int) =~= views(v@));
    r
}

/// The values sorted into text order.
pub open spec fn sorted_text(s: Seq<Seq<char>>) -> Seq<Seq<char>> {
    choose|t: Seq<Seq<char>>|
        t.to_multiset() == s.to_multiset() && sorted_by(t, |x: Seq<char>, y: Seq<char>| text_le(x, y))
}

/// The sorted arrangement of a list of texts is unique.
pub proof fn lemma_sorted_is_sorted_text(t: Seq<Seq<char>>, s: Seq<Seq<char>>)
    requires
        t.to_multiset() == s.to_multiset(),
        sorted_by(t, |x: Seq<char>, y: Seq<char>| text_le(x, y)),
    ensures
        sorted_text(s) == t,
{
    let c = sorted_text(s);
    lemma_text_le_total();
    vstd::seq_lib::lemma_sorted_unique(c, t, |x: Seq<char>, y: Seq<char>| text_le(x, y));
}

/// The distinct strings of `v`, in increasing order.
pub fn sorted_unique_strings(v: &Vec<String>) -> (r: Vec<String>)
    ensures
        forall|p: int, q: int| 0 <= p < q < r@.len() ==> text_lt(#[trigger] r@[p]@, #[trigger] r@[q]@),
        forall|k: Seq<char>| #[trigger] views(r@).contains(k) <==> views(v@).contains(k),
{
    let sorted = sort_strings(v);
    let ghost sv = views(sorted@);
    proof {
        assert forall|k: Seq<char>| sv.contains(k) <==> views(v@).contains(k) by {
            vstd::seq_lib::to_multiset_contains(sv, k);
            vstd::seq_lib::to_multiset_contains(views(v@), k);
        }
        assert forall|p: int, q: int| 0 <= p < q < sv.len() implies text_le(#[trigger] sv[p], #[trigger] sv[q]) by {
            let le = |x: Seq<char>, y: Seq<char>| text_le(x, y);
            assert(sorted_by(sv, le));
            assert(le(sv[p], sv[q]));
        }
    }
    let mut out: Vec<String> = Vec::new();
    let mut i: usize = 0;
    while i < sorted.len()
        invariant
            i <= sorted@.len(),
            sv == views(sorted@),
            forall|p: int, q: int| 0 <= p < q < sv.len() ==> text_le(#[trigger] sv[p], #[trigger] sv[q]),
            forall|p: int, q: int| 0 <= p < q < out@.len() ==> text_lt(#[trigger] out@[p]@, #[trigger] out@[q]@),
            forall|k: Seq<char>| #[trigger] views(out@).contains(k) <==> sv.take(i as int).contains(k),
            i > 0 ==> out@.len() > 0 && out@[out@.len() - 1]@ == sv[i - 1],
            i == 0 ==> out@.len() == 0,
        decreases sorted@.len() - i,
    {
        let s = &sorted[i];
        let ghost before = views(out@);
        let fresh = if out.len() == 0 {
            true
        } else {
            !str_eq(out[out.len() - 1].as_str(), s.as_str())
        };
        if fresh {
            out.push(s.clone());
            proof {
                assert(views(out@) =~= before.push(s@));
                if i > 0 {
                    assert(text_le(sv[i - 1], sv[i as int]));
                    assert(sv[i - 1] != sv[i as int]);
                    assert forall|p: int, q: int| 0 <= p < q < out@.len() implies text_lt(
                        #[trigger] out@[p]@,
                        #[trigger] out@[q]@,
                    ) by {
                        if q == out@.len() - 1 && p < q {
                            let last = out@.len() - 2;
                            if p < last {
                                lemma_text_lt_transitive(out@[p]@, out@[last]@, s@);
                            }
                        }
                    }
                }
            }
        }
        proof {
            assert(sv.take(i + 1) =~= sv.take(i as int).push(sv[i as int]));
            assert forall|k: Seq<char>| #[trigger] views(out@).contains(k) <==> sv.take(i + 1).contains(k) by {
                let t = sv.take(i + 1);
                if views(out@).contains(k) {
                    let x = choose|x: int| 0 <= x < views(out@).len() && views(out@)[x] == k;
                    if fresh && x == views(out@).len() - 1 {
                        assert(t[i as int] == k);
                    } else {
                        assert(before[x] == k);
                        assert(before.contains(k));
                        let y = choose|y: int| 0 <= y < sv.take(i as int).len() && sv.take(i as int)[y] == k;
                        assert(t[y] == k);
                    }
                }
                if t.contains(k) {
                    let y = choose|y: int| 0 <= y < t.len() && t[y] == k;
                    if y == i {
                        if fresh {
                            assert(views(out@)[views(out@).len() - 1] == k);
                        } else {
                            assert(before[before.len() - 1] == k);
                            assert(views(out@)[before.len() - 1] == k);
                        }
                    } else {
                        assert(sv.take(i as int)[y] == k);
                        assert(sv.take(i as int).contains(k));
                        assert(before.contains(k));
                        let x = choose|x: int| 0 <= x < before.len() && before[x] == k;
                        assert(views(out@)[x] == k);
                    }
                }
            }
        }
        i = i + 1;
    }
    assert(sv.take(sv.len() as int) =~= sv);
    out
}

/// Order on pairs of texts: by the first, then by the second.
pub open spec fn pair_lt(a: (Seq<char>, Seq<char>), b: (Seq<char>, Seq<char>)) -> bool {
    text_lt(a.0, b.0) || (a.0 == b.0 && text_lt(a.1, b.1))
}

pub proof fn lemma_pair_lt_order(a: (Seq<char>, Seq<char>), b: (Seq<char>, Seq<char>), c: (Seq<char>, Seq<char>))
    ensures
        !pair_lt(a, a),
        pair_lt(a, b) ==> !pair_lt(b, a),
        pair_lt(a, b) && pair_lt(b, c) ==> pair_lt(a, c),
        a != b ==> pair_lt(a, b) || pair_lt(b, a),
{
    lemma_text_lt_irreflexive(a.0);
    lemma_text_lt_irreflexive(a.1);
    lemma_text_lt_asymmetric(a.0, b.0);
    lemma_text_lt_asymmetric(a.1, b.1);
    lemma_text_lt_transitive(a.0, b.0, c.0);
    lemma_text_lt_transitive(a.1, b.1, c.1);
    lemma_text_lt_connected(a.0, b.0);
    lemma_text_lt_connected(a.1, b.1);
}

pub open spec fn key_views(keys: Seq<(Vec<char>, Vec<char>)>) -> Seq<(Seq<char>, Seq<char>)> {
    keys.map_values(|k: (Vec<char>, Vec<char>)| (k.0@, k.1@))
}

/// `order` lists each position of `keys` once, in increasing key order,
/// equal keys in their original order.
pub open spec fn stably_ordered(keys: Seq<(Seq<char>, Seq<char>)>, order: Seq<usize>) -> bool {
    &&& order.len() == keys.len()
    &&& forall|p: int| 0 <= p < order.len() ==> (#[trigger] order[p]) < keys.len()
    &&& forall|p: int, q: int| 0 <= p < q < order.len() ==> #[trigger] order[p] != #[trigger] order[q]
    &&& forall|p: int, q: int|
        0 <= p < q < order.len() ==> pair_lt(keys[#[trigger] order[p] as int], keys[#[trigger] order[q] as int])
            || (keys[order[p] as int] == keys[order[q] as int] && order[p] < order[q])
}

fn pair_less(a: &(Vec<char>, Vec<char>), b: &(Vec<char>, Vec<char>)) -> (r: bool)
    ensures
        r == pair_lt((a.0@, a.1@), (b.0@, b.1@)),
{
    if chars_lt(&a.0, &b.0) {
        return true;
    }
    if chars_lt(&b.0, &a.0) {
        proof {
            lemma_text_lt_asymmetric(b.0@, a.0@);
        }
        return false;
    }
    proof {
        lemma_text_lt_connected(a.0@, b.0@);
    }
    chars_lt(&a.1, &b.1)
}

/// The positions of `keys` in stable key order.
pub fn stable_key_order(keys: &Vec<(Vec<char>, Vec<char>)>) -> (r: Vec<usize>)
    ensures
        stably_ordered(key_views(keys@), r@),
{
    let ghost kv = key_views(keys@);
    let mut order: Vec<usize> = Vec::new();
    let mut i: usize = 0;
    while i < keys.len()
        invariant
            i <= keys@.len(),
            kv == key_views(keys@),
            kv.len() == keys@.len(),
            order@.len() == i,
            forall|p: int| 0 <= p < order@.len() ==> (#[trigger] order@[p]) < i,
            forall|p: int, q: int| 0 <= p < q < order@.len() ==> #[trigger] order@[p] != #[trigger] order@[q],
            forall|p: int, q: int|
                0 <= p < q < order@.len() ==> pair_lt(kv[#[trigger] order@[p] as int], kv[#[trigger] order@[q] as int])
                    || (kv[order@[p] as int] == kv[order@[q] as int] && order@[p] < order@[q]),
        decreases keys@.len() - i,
    {
        // first position whose key is greater than key i
        let mut pos: usize = 0;
        while pos < order.len() && !pair_less(&keys[i], &keys[order[pos]])
            invariant
                pos <= order@.len(),
                i < keys@.len(),
                kv == key_views(keys@),
                kv.len() == keys@.len(),
                forall|p: int| 0 <= p < order@.len() ==> (#[trigger] order@[p]) < i,
                forall|p: int| 0 <= p < pos ==> !pair_lt(kv[i as int], kv[#[trigger] order@[p] as int]),
            decreases order@.len() - pos,
        {
            pos = pos + 1;
        }
        let ghost old_order = order@;
        proof {
            assert forall|p: int| pos <= p < old_order.len() implies pair_lt(kv[i as int], kv[#[trigger] old_order[p] as int]) by {
                if p > pos {
                    let a = kv[i as int];
                    let b = kv[old_order[pos as int] as int];
                    let c = kv[old_order[p] as int];
                    lemma_pair_lt_order(a, b, c);
                    lemma_pair_lt_order(b, c, a);
                    assert(pair_lt(b, c) || b == c);
                }
            }
            assert forall|p: int| 0 <= p < pos implies pair_lt(kv[#[trigger] old_order[p] as int], kv[i as int])
                || kv[old_order[p] as int] == kv[i as int] by {
                lemma_pair_lt_order(kv[old_order[p] as int], kv[i as int], kv[i as int]);
            }
        }
        order.insert(pos, i);
        proof {
            let n = order@;
            assert(n =~= old_order.subrange(0, pos as int).push(i).add(old_order.subrange(pos as int, old_order.len() as int)));
            assert forall|p: int, q: int| 0 <= p < q < n.len() implies pair_lt(kv[#[trigger] n[p] as int], kv[#[trigger] n[q] as int])
                || (kv[n[p] as int] == kv[n[q] as int] && n[p] < n[q]) by {
                if q < pos {
                    assert(n[p] == old_order[p] && n[q] == old_order[q]);
                } else if q == pos {
                    assert(n[p] == old_order[p]);
                } else if p == pos {
                    assert(n[q] == old_order[q - 1]);
                } else if p < pos {
                    assert(n[p] == old_order[p] && n[q] == old_order[q - 1]);
                } else {
                    assert(n[p] == old_order[p - 1] && n[q] == old_order[q - 1]);
                }
            }
            assert forall|p: int, q: int| 0 <= p < q < n.len() implies #[trigger] n[p] != #[trigger] n[q] by {
                if q < pos {
                    assert(n[p] == old_order[p] && n[q] == old_order[q]);
                } else if q == pos {
                    assert(n[p] == old_order[p]);
                } else if p == pos {
                    assert(n[q] == old_order[q - 1]);
                } else if p < pos {
                    assert(n[p] == old_order[p] && n[q] == old_order[q - 1]);
                } else {
                    assert(n[p] == old_order[p - 1] && n[q] == old_order[q - 1]);
                }
            }
            assert forall|p: int| 0 <= p < n.len() implies (#[trigger] n[p]) < i + 1 by {
                if p < pos {
                    assert(n[p] == old_order[p]);
                } else if p > pos {
                    assert(n[p] == old_order[p - 1]);
                }
            }
        }
        i = i + 1;
    }
    order
}

} // verus!
