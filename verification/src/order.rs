//! Stable sorting, specified by what a stable sort returns: the permutation
//! of positions that orders the keys and keeps equal keys in their original
//! order (as `slice::sort_by` does).

use vstd::prelude::*;

verus! {

/// `order` lists each position `0..n` exactly once.
pub open spec fn is_permutation(order: Seq<usize>, n: nat) -> bool {
    &&& order.len() == n
    &&& forall|i: int| 0 <= i < n ==> #[trigger] order[i] < n
    &&& forall|i: int, j: int| 0 <= i < j < n ==> order[i] != order[j]
}

/// `order` sorts `keys` from largest to smallest, ties in original order.
pub open spec fn stable_desc(keys: Seq<u128>, order: Seq<usize>) -> bool {
    &&& is_permutation(order, keys.len())
    &&& forall|i: int, j: int|
        0 <= i < j < order.len() ==> keys[#[trigger] order[i] as int] >= keys[#[trigger] order[j] as int]
    &&& forall|i: int, j: int|
        0 <= i < j < order.len() && keys[order[i] as int] == keys[order[j] as int] ==> #[trigger] order[i]
            < #[trigger] order[j]
}

/// The stable descending order of `keys`.
pub fn sort_desc_by_key(keys: &Vec<u128>) -> (order: Vec<usize>)
    ensures
        stable_desc(keys@, order@),
{
    let mut order: Vec<usize> = Vec::new();
    let mut n: usize = 0;
    while n < keys.len()
        invariant
            n <= keys.len(),
            stable_desc(keys@.take(n as int), order@),
        decreases keys.len() - n,
    {
        let k = keys[n];
        let mut p: usize = 0;
        while p < order.len() && keys[order[p]] >= k
            invariant
                p <= order.len(),
                n < keys.len(),
                stable_desc(keys@.take(n as int), order@),
                k == keys@[n as int],
                forall|q: int| 0 <= q < p ==> keys@[#[trigger] order@[q] as int] >= k,
            decreases order.len() - p,
        {
            proof {
                assert(keys@.take(n as int)[order@[p as int] as int] == keys@[order@[p as int] as int]);
            }
            p = p + 1;
        }
        let ghost old_order = order@;
        let ghost tk = keys@.take(n as int);
        proof {
            assert forall|q: int| 0 <= q < old_order.len() implies (#[trigger] old_order[q]) < n by {}
            assert forall|q: int| p <= q < old_order.len() implies keys@[(#[trigger] old_order[q]) as int] < k by {
                if q > p {
                    assert(tk[old_order[p as int] as int] >= tk[old_order[q] as int]);
                }
                assert(tk[old_order[q] as int] == keys@[old_order[q] as int]);
                assert(tk[old_order[p as int] as int] == keys@[old_order[p as int] as int]);
            }
        }
        order.insert(p, n);
        proof {
            let no = order@;
            let nk = keys@.take(n as int + 1);
            assert forall|i: int| 0 <= i < no.len() implies #[trigger] nk[no[i] as int] == keys@[no[i] as int] by {
                if i < p { assert(no[i] == old_order[i]); }
                else if i > p { assert(no[i] == old_order[i - 1]); }
            }
            assert forall|i: int| 0 <= i < n + 1 implies #[trigger] no[i] < n + 1 by {
                if i < p { assert(no[i] == old_order[i]); }
                else if i > p { assert(no[i] == old_order[i - 1]); }
            }
            assert forall|i: int, j: int| 0 <= i < j < n + 1 implies no[i] != no[j] by {
                if i < p { assert(no[i] == old_order[i]); }
                else if i > p { assert(no[i] == old_order[i - 1]); }
                if j < p { assert(no[j] == old_order[j]); }
                else if j > p { assert(no[j] == old_order[j - 1]); }
            }
            assert forall|i: int, j: int| 0 <= i < j < no.len() implies nk[#[trigger] no[i] as int] >= nk[#[trigger] no[j] as int] by {
                if i < p { assert(no[i] == old_order[i]); }
                else if i > p { assert(no[i] == old_order[i - 1]); }
                if j < p { assert(no[j] == old_order[j]); }
                else if j > p { assert(no[j] == old_order[j - 1]); }
                if i != p && j != p {
                    let oi = if i < p { i } else { i - 1 };
                    let oj = if j < p { j } else { j - 1 };
                    assert(tk[old_order[oi] as int] >= tk[old_order[oj] as int]);
                }
            }
            assert forall|i: int, j: int| 0 <= i < j < no.len() && nk[no[i] as int] == nk[no[j] as int] implies #[trigger] no[i] < #[trigger] no[j] by {
                if i < p { assert(no[i] == old_order[i]); }
                else if i > p { assert(no[i] == old_order[i - 1]); }
                if j < p { assert(no[j] == old_order[j]); }
                else if j > p { assert(no[j] == old_order[j - 1]); }
                if i != p && j != p {
                    let oi = if i < p { i } else { i - 1 };
                    let oj = if j < p { j } else { j - 1 };
                    assert(tk[old_order[oi] as int] == tk[old_order[oj] as int]);
                }
            }
        }
        n = n + 1;
    }
    proof {
        assert(keys@.take(keys.len() as int) =~= keys@);
    }
    order
}

/// Lexicographic "strictly less" on character sequences — the order of
/// Rust's `str`/`String` comparison (UTF-8 byte order equals code point order).
pub open spec fn text_lt(a: Seq<char>, b: Seq<char>) -> bool
    decreases a.len(),
{
    if a.len() == 0 {
        b.len() > 0
    } else if b.len() == 0 {
        false
    } else if a[0] != b[0] {
        a[0] < b[0]
    } else {
        text_lt(a.drop_first(), b.drop_first())
    }
}

/// Exactly one of `a < b`, `a == b`, `b < a` holds.
pub proof fn lemma_text_trichotomy(a: Seq<char>, b: Seq<char>)
    ensures
        text_lt(a, b) || a == b || text_lt(b, a),
        !(text_lt(a, b) && text_lt(b, a)),
        text_lt(a, b) ==> a != b,
    decreases a.len(),
{
    if a.len() > 0 && b.len() > 0 {
        if a[0] == b[0] {
            lemma_text_trichotomy(a.drop_first(), b.drop_first());
            if a.drop_first() == b.drop_first() {
                assert(a =~= seq![a[0]] + a.drop_first());
                assert(b =~= seq![b[0]] + b.drop_first());
            }
        } else {
            assert(a[0] < b[0] || b[0] < a[0]);
        }
    } else if a.len() == 0 && b.len() == 0 {
        assert(a =~= b);
    }
}

/// `<` on texts is transitive.
pub proof fn lemma_text_lt_trans(a: Seq<char>, b: Seq<char>, c: Seq<char>)
    requires
        text_lt(a, b),
        text_lt(b, c),
    ensures
        text_lt(a, c),
    decreases a.len(),
{
    if a.len() > 0 && b.len() > 0 && c.len() > 0 {
        if a[0] == b[0] && b[0] == c[0] {
            lemma_text_lt_trans(a.drop_first(), b.drop_first(), c.drop_first());
        } else {
            assert(a[0] < b[0] || b[0] < a[0] || a[0] == b[0]);
        }
    }
}

proof fn lemma_text_lt_skip(a: Seq<char>, b: Seq<char>, i: int)
    requires
        0 <= i <= a.len(),
        i <= b.len(),
        forall|j: int| 0 <= j < i ==> #[trigger] a[j] == b[j],
    ensures
        text_lt(a, b) == text_lt(a.skip(i), b.skip(i)),
    decreases i,
{
    if i > 0 {
        assert(a[0] == b[0]);
        lemma_text_lt_skip(a.drop_first(), b.drop_first(), i - 1);
        assert(a.drop_first().skip(i - 1) =~= a.skip(i));
        assert(b.drop_first().skip(i - 1) =~= b.skip(i));
    } else {
        assert(a.skip(0) =~= a);
        assert(b.skip(0) =~= b);
    }
}

/// `a < b` on string contents.
pub fn text_less(a: &str, b: &str) -> (r: bool)
    ensures
        r == text_lt(a@, b@),
{
    let na = a.unicode_len();
    let nb = b.unicode_len();
    let m = if na < nb { na } else { nb };
    let mut i: usize = 0;
    while i < m && a.get_char(i) == b.get_char(i)
        invariant
            na == a@.len(),
            nb == b@.len(),
            m <= na,
            m <= nb,
            i <= m,
            forall|j: int| 0 <= j < i ==> #[trigger] a@[j] == b@[j],
        decreases m - i,
    {
        i = i + 1;
    }
    proof {
        lemma_text_lt_skip(a@, b@, i as int);
    }
    if i < m {
        let ca = a.get_char(i);
        let cb = b.get_char(i);
        assert(a@.skip(i as int)[0] == ca);
        assert(b@.skip(i as int)[0] == cb);
        ca < cb
    } else {
        na < nb
    }
}

/// Whether a key `a` is placed strictly before key `b`: ascending or
/// descending by text.
pub open spec fn goes_before(a: Seq<char>, b: Seq<char>, desc: bool) -> bool {
    if desc { text_lt(b, a) } else { text_lt(a, b) }
}

/// Executable `goes_before`.
pub fn key_goes_before(a: &str, b: &str, desc: bool) -> (r: bool)
    ensures
        r == goes_before(a@, b@, desc),
{
    if desc { text_less(b, a) } else { text_less(a, b) }
}

/// `order` sorts `keys` by text (descending when `desc`), ties in original order.
pub open spec fn stable_by_text(keys: Seq<Seq<char>>, order: Seq<usize>, desc: bool) -> bool {
    &&& is_permutation(order, keys.len())
    &&& forall|i: int, j: int|
        0 <= i < j < order.len() ==> !goes_before(keys[#[trigger] order[j] as int], keys[#[trigger] order[i] as int], desc)
    &&& forall|i: int, j: int|
        0 <= i < j < order.len() && keys[order[i] as int] == keys[order[j] as int] ==> #[trigger] order[i]
            < #[trigger] order[j]
}

/// The stable order of `keys` by text, ascending or descending.
pub fn sort_by_text(keys: &Vec<String>, desc: bool) -> (order: Vec<usize>)
    ensures
        stable_by_text(keys@.map_values(|k: String| k@), order@, desc),
{
    let ghost kv = keys@.map_values(|k: String| k@);
    let mut order: Vec<usize> = Vec::new();
    let mut n: usize = 0;
    while n < keys.len()
        invariant
            n <= keys.len(),
            kv == keys@.map_values(|k: String| k@),
            stable_by_text(kv.take(n as int), order@, desc),
        decreases keys.len() - n,
    {
        let ghost tk = kv.take(n as int);
        let ghost k = kv[n as int];
        let mut p: usize = 0;
        while p < order.len() && !key_goes_before(keys[n].as_str(), keys[order[p]].as_str(), desc)
            invariant
                p <= order.len(),
                n < keys.len(),
                kv == keys@.map_values(|k: String| k@),
                tk == kv.take(n as int),
                k == kv[n as int],
                stable_by_text(tk, order@, desc),
                forall|q: int| 0 <= q < p ==> !goes_before(k, kv[#[trigger] order@[q] as int], desc),
            decreases order.len() - p,
        {
            proof {
                assert(tk[order@[p as int] as int] == kv[order@[p as int] as int]);
            }
            p = p + 1;
        }
        let ghost old_order = order@;
        proof {
            assert forall|q: int| 0 <= q < old_order.len() implies (#[trigger] old_order[q]) < n by {}
            assert forall|q: int| 0 <= q < old_order.len() implies #[trigger] tk[old_order[q] as int] == kv[old_order[q] as int] by {}
            assert forall|q: int| p <= q < old_order.len() implies goes_before(k, kv[(#[trigger] old_order[q]) as int], desc) by {
                let kp = kv[old_order[p as int] as int];
                let kq = kv[old_order[q] as int];
                assert(goes_before(k, kp, desc));
                if q > p {
                    assert(!goes_before(tk[old_order[q] as int], tk[old_order[p as int] as int], desc));
                    lemma_text_trichotomy(kp, kq);
                    if kp != kq {
                        if desc {
                            lemma_text_lt_trans(kq, kp, k);
                        } else {
                            lemma_text_lt_trans(k, kp, kq);
                        }
                    }
                }
            }
        }
        order.insert(p, n);
        proof {
            let no = order@;
            let nk = kv.take(n as int + 1);
            assert forall|i: int| 0 <= i < no.len() implies #[trigger] nk[no[i] as int] == kv[no[i] as int] by {
                if i < p { assert(no[i] == old_order[i]); }
                else if i > p { assert(no[i] == old_order[i - 1]); }
            }
            assert forall|i: int| 0 <= i < n + 1 implies #[trigger] no[i] < n + 1 by {
                if i < p { assert(no[i] == old_order[i]); }
                else if i > p { assert(no[i] == old_order[i - 1]); }
            }
            assert forall|i: int, j: int| 0 <= i < j < n + 1 implies no[i] != no[j] by {
                if i < p { assert(no[i] == old_order[i]); }
                else if i > p { assert(no[i] == old_order[i - 1]); }
                if j < p { assert(no[j] == old_order[j]); }
                else if j > p { assert(no[j] == old_order[j - 1]); }
            }
            assert forall|i: int, j: int| 0 <= i < j < no.len() implies !goes_before(nk[#[trigger] no[j] as int], nk[#[trigger] no[i] as int], desc) by {
                if i < p { assert(no[i] == old_order[i]); }
                else if i > p { assert(no[i] == old_order[i - 1]); }
                if j < p { assert(no[j] == old_order[j]); }
                else if j > p { assert(no[j] == old_order[j - 1]); }
                if i != p && j != p {
                    let oi = if i < p { i } else { i - 1 };
                    let oj = if j < p { j } else { j - 1 };
                    assert(!goes_before(tk[old_order[oj] as int], tk[old_order[oi] as int], desc));
                } else if i == p {
                    let kj = kv[old_order[j - 1] as int];
                    assert(goes_before(k, kj, desc));
                    lemma_text_trichotomy(k, kj);
                }
            }
            assert forall|i: int, j: int| 0 <= i < j < no.len() && nk[no[i] as int] == nk[no[j] as int] implies #[trigger] no[i] < #[trigger] no[j] by {
                if i < p { assert(no[i] == old_order[i]); }
                else if i > p { assert(no[i] == old_order[i - 1]); }
                if j < p { assert(no[j] == old_order[j]); }
                else if j > p { assert(no[j] == old_order[j - 1]); }
                if i != p && j != p {
                    let oi = if i < p { i } else { i - 1 };
                    let oj = if j < p { j } else { j - 1 };
                    assert(tk[old_order[oi] as int] == tk[old_order[oj] as int]);
                } else if i == p {
                    let kj = kv[old_order[j - 1] as int];
                    assert(goes_before(k, kj, desc));
                    lemma_text_trichotomy(k, kj);
                }
            }
        }
        n = n + 1;
    }
    proof {
        assert(kv.take(keys.len() as int) =~= kv);
    }
    order
}

} // verus!
