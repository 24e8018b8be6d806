//! Newest-first listings: a stable sort of records by their creation time
//! stamps, compared as text.
use crate::text::chars_of;
use vstd::prelude::*;

verus! {

/// `a` comes before `b` as text: at the first difference its character is
/// smaller, or it is a proper prefix of `b`. This is `str`'s order (UTF-8
/// bytes compare as their code points do).
pub open spec fn text_lt(a: Seq<char>, b: Seq<char>) -> bool
    decreases a.len(),
{
    if a.len() == 0 {
        b.len() > 0
    } else if b.len() == 0 {
        false
    } else if (a[0] as u32) < (b[0] as u32) {
        true
    } else if (a[0] as u32) > (b[0] as u32) {
        false
    } else {
        text_lt(a.drop_first(), b.drop_first())
    }
}

proof fn lemma_char_eq(x: char, y: char)
    requires
        x as u32 == y as u32,
    ensures
        x == y,
{
}

pub proof fn lemma_lt_irreflexive(a: Seq<char>)
    ensures
        !text_lt(a, a),
    decreases a.len(),
{
    if a.len() > 0 {
        lemma_lt_irreflexive(a.drop_first());
    }
}

pub proof fn lemma_lt_transitive(a: Seq<char>, b: Seq<char>, c: Seq<char>)
    requires
        text_lt(a, b),
        text_lt(b, c),
    ensures
        text_lt(a, c),
    decreases a.len(),
{
    if a.len() > 0 && b.len() > 0 && c.len() > 0 {
        if a[0] as u32 == b[0] as u32 && b[0] as u32 == c[0] as u32 {
            lemma_lt_transitive(a.drop_first(), b.drop_first(), c.drop_first());
        }
    }
}

pub proof fn lemma_lt_total(a: Seq<char>, b: Seq<char>)
    ensures
        a == b || text_lt(a, b) || text_lt(b, a),
    decreases a.len(),
{
    if a.len() > 0 && b.len() > 0 {
        if a[0] as u32 == b[0] as u32 {
            lemma_lt_total(a.drop_first(), b.drop_first());
            lemma_char_eq(a[0], b[0]);
            if a.drop_first() == b.drop_first() {
                assert(a =~= seq![a[0]] + a.drop_first());
                assert(b =~= seq![b[0]] + b.drop_first());
            }
        }
    } else if a.len() == 0 && b.len() == 0 {
        assert(a =~= b);
    }
}

pub proof fn lemma_lt_asymmetric(a: Seq<char>, b: Seq<char>)
    requires
        text_lt(a, b),
    ensures
        !text_lt(b, a),
{
    if text_lt(b, a) {
        lemma_lt_transitive(a, b, a);
        lemma_lt_irreflexive(a);
    }
}

/// Whether `a < b` as text.
pub fn text_less(a: &str, b: &str) -> (r: bool)
    ensures
        r == text_lt(a@, b@),
{
    let x = chars_of(a);
    let y = chars_of(b);
    let mut i: usize = 0;
    assert(x@.skip(0) =~= x@ && y@.skip(0) =~= y@);
    while i < x.len() && i < y.len() && (x[i] as u32) == (y[i] as u32)
        invariant
            i <= x@.len(),
            i <= y@.len(),
            x@ == a@,
            y@ == b@,
            text_lt(x@.skip(i as int), y@.skip(i as int)) == text_lt(a@, b@),
        decreases x@.len() - i,
    {
        proof {
            assert(x@.skip(i as int).drop_first() =~= x@.skip(i + 1));
            assert(y@.skip(i as int).drop_first() =~= y@.skip(i + 1));
        }
        i = i + 1;
    }
    if i == x.len() {
        i < y.len()
    } else if i == y.len() {
        false
    } else {
        (x[i] as u32) < (y[i] as u32)
    }
}

/// `o` lists each of `0..n` once.
pub open spec fn permutes(o: Seq<usize>, n: int) -> bool {
    &&& o.len() == n
    &&& forall|k: int| 0 <= k < n ==> #[trigger] o[k] < n
    &&& forall|a: int, b: int| 0 <= a < b < n ==> o[a] != o[b]
}

/// Reading `keys` in order `o` gives the newest (greatest) first, and equal
/// keys keep their order.
pub open spec fn newest_first_order(keys: Seq<Seq<char>>, o: Seq<usize>) -> bool {
    &&& forall|a: int, b: int|
        0 <= a < b < o.len() ==> !text_lt(#[trigger] keys[o[a] as int], #[trigger] keys[o[b] as int])
    &&& forall|a: int, b: int|
        0 <= a < b < o.len() && keys[o[a] as int] == keys[o[b] as int] ==> o[a] < o[b]
}

/// The order that lists `keys` newest first, stably (as `sort_by` with the
/// comparison reversed).
pub fn newest_first(keys: &Vec<String>) -> (r: Vec<usize>)
    ensures
        permutes(r@, keys@.len() as int),
        newest_first_order(crate::text::string_views(keys@), r@),
{
    let ghost ks = crate::text::string_views(keys@);
    let mut out: Vec<usize> = Vec::new();
    let mut i: usize = 0;
    while i < keys.len()
        invariant
            i <= keys@.len(),
            ks == crate::text::string_views(keys@),
            ks.len() == keys@.len(),
            permutes(out@, i as int),
            newest_first_order(ks, out@),
        decreases keys@.len() - i,
    {
        let mut p: usize = 0;
        while p < out.len() && !text_less(keys[out[p]].as_str(), keys[i].as_str())
            invariant
                p <= out@.len(),
                i < keys@.len(),
                ks == crate::text::string_views(keys@),
                permutes(out@, i as int),
                forall|j: int| 0 <= j < p ==> !text_lt(#[trigger] ks[out@[j] as int], ks[i as int]),
            decreases out@.len() - p,
        {
            proof {
                assert(ks[out@[p as int] as int] == keys@[out@[p as int] as int]@);
                assert(ks[i as int] == keys@[i as int]@);
            }
            p = p + 1;
        }
        proof {
            if p < out@.len() {
                assert(ks[out@[p as int] as int] == keys@[out@[p as int] as int]@);
                assert(ks[i as int] == keys@[i as int]@);
                assert(text_lt(ks[out@[p as int] as int], ks[i as int]));
            }
        }
        let ghost before = out@;
        out.insert(p, i);
        proof {
            let after = out@;
            assert(after == before.insert(p as int, i));
            assert forall|k: int| 0 <= k < i + 1 implies #[trigger] after[k] < i + 1 by {
                if k < p {
                    assert(after[k] == before[k]);
                } else if k > p {
                    assert(after[k] == before[k - 1]);
                }
            }
            assert forall|a: int, b: int| 0 <= a < b < i + 1 implies after[a] != after[b] by {
                if a < p && b < p {
                    assert(after[a] == before[a] && after[b] == before[b]);
                } else if a < p && b == p {
                    assert(before[a] < i);
                } else if a < p && b > p {
                    assert(after[a] == before[a] && after[b] == before[b - 1]);
                } else if a == p {
                    assert(before[b - 1] < i);
                } else {
                    assert(after[a] == before[a - 1] && after[b] == before[b - 1]);
                }
            }
            assert forall|a: int, b: int| 0 <= a < b < after.len() implies !text_lt(
                #[trigger] ks[after[a] as int],
                #[trigger] ks[after[b] as int],
            ) && (ks[after[a] as int] == ks[after[b] as int] ==> after[a] < after[b]) by {
                let ki = ks[i as int];
                if b < p {
                    assert(after[a] == before[a] && after[b] == before[b]);
                } else if b == p {
                    assert(after[a] == before[a]);
                    assert(!text_lt(ks[before[a] as int], ki));
                    assert(before[a] < i);
                } else if a < p {
                    assert(after[a] == before[a] && after[b] == before[b - 1]);
                } else if a == p {
                    assert(after[b] == before[b - 1]);
                    let kp = ks[before[p as int] as int];
                    let kb = ks[before[b - 1] as int];
                    assert(text_lt(kp, ki));
                    if b - 1 > p {
                        assert(!text_lt(kp, kb));
                        lemma_lt_total(kp, kb);
                        if text_lt(kb, kp) {
                            lemma_lt_transitive(kb, kp, ki);
                        }
                    }
                    lemma_lt_asymmetric(kb, ki);
                    if kb == ki {
                        lemma_lt_irreflexive(ki);
                    }
                } else {
                    assert(after[a] == before[a - 1] && after[b] == before[b - 1]);
                }
            }
        }
        i = i + 1;
    }
    out
}

} // verus!
