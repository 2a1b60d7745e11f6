//! The least-satisfying binary search over a monotonic predicate.
use vstd::prelude::*;

verus! {

/// `k` splits `s`: every value before `k` is `false`, every value from `k` on is `true`.
pub open spec fn is_threshold(s: Seq<bool>, k: int) -> bool {
    &&& 0 <= k <= s.len()
    &&& forall|i: int| 0 <= i < k ==> !#[trigger] s[i]
    &&& forall|i: int| k <= i < s.len() ==> #[trigger] s[i]
}

/// The search over the window `[base, base + len)` of `s`, as the executable code performs it:
/// the index it settles on and the number of values it inspects.
pub open spec fn search(s: Seq<bool>, base: nat, len: nat) -> (nat, nat)
    decreases len,
{
    if len == 0 {
        (base, 0)
    } else {
        let h = len / 2;
        if s[(base + h) as int] {
            let r = search(s, base, h);
            (r.0, r.1 + 1)
        } else {
            let r = search(s, base + h + 1, (len - h - 1) as nat);
            (r.0, r.1 + 1)
        }
    }
}

/// `ceil(log2(n))`, with `0` for `n <= 1`.
pub open spec fn ceil_log2(n: nat) -> nat
    decreases n,
{
    if n <= 1 {
        0
    } else {
        1 + ceil_log2(((n + 1) / 2) as nat)
    }
}

/// The predicate `p` is monotonic over `s`: once it can answer `true`, it answers `true`
/// on every later element.
pub open spec fn monotonic<T, P: Fn(&T) -> bool>(s: Seq<T>, p: P) -> bool {
    forall|i: int, j: int, bi: bool, bj: bool|
        0 <= i <= j < s.len() && #[trigger] call_ensures(p, (&s[i],), bi) && #[trigger] call_ensures(
            p,
            (&s[j],),
            bj,
        ) && bi ==> bj
}

/// `b` holds the answers that `p` gives on the elements of `s`.
pub open spec fn answers<T, P: Fn(&T) -> bool>(s: Seq<T>, p: P, b: Seq<bool>) -> bool {
    &&& b.len() == s.len()
    &&& forall|i: int, v: bool|
        0 <= i < s.len() && #[trigger] call_ensures(p, (&s[i],), v) ==> v == b[i]
}

proof fn lemma_ceil_log2_monotonic(a: nat, b: nat)
    requires
        a <= b,
    ensures
        ceil_log2(a) <= ceil_log2(b),
    decreases b,
{
    if a > 1 {
        lemma_ceil_log2_monotonic(((a + 1) / 2) as nat, ((b + 1) / 2) as nat);
    }
}

proof fn lemma_search_window(s: Seq<bool>, k: int, base: nat, len: nat)
    requires
        is_threshold(s, k),
        base + len <= s.len(),
        base <= k <= base + len,
    ensures
        search(s, base, len).0 == k,
        len >= 1 ==> search(s, base, len).1 <= ceil_log2(len) + 1,
    decreases len,
{
    if len > 0 {
        let h = len / 2;
        if s[(base + h) as int] {
            lemma_search_window(s, k, base, h);
            if h >= 1 {
                lemma_ceil_log2_monotonic(h, ((len + 1) / 2) as nat);
            }
        } else {
            lemma_search_window(s, k, base + h + 1, (len - h - 1) as nat);
            if len - h - 1 >= 1 {
                lemma_ceil_log2_monotonic((len - h - 1) as nat, ((len + 1) / 2) as nat);
            }
        }
    }
}

/// Over a monotonic sequence of `n >= 1` values whose threshold is `k`, the search returns
/// exactly `k` and inspects at most `ceil(log2(n)) + 1` values.
pub proof fn lemma_search_finds_threshold(s: Seq<bool>, k: int)
    requires
        s.len() >= 1,
        is_threshold(s, k),
    ensures
        search(s, 0, s.len()).0 == k,
        search(s, 0, s.len()).1 <= ceil_log2(s.len()) + 1,
{
    lemma_search_window(s, k, 0, s.len());
}

/// A sequence that is `false` throughout gives its length; one that is `true` throughout
/// gives `0`.
pub proof fn lemma_search_constant(n: nat)
    ensures
        search(Seq::new(n, |i: int| false), 0, n).0 == n,
        search(Seq::new(n, |i: int| true), 0, n).0 == 0,
{
    lemma_search_window(Seq::new(n, |i: int| false), n as int, 0, n);
    lemma_search_window(Seq::new(n, |i: int| true), 0, 0, n);
}

/// Finds the index of the least item in `slice` for which the `predicate` holds.
///
/// The predicate is evaluated once per halving of the window. Every element before the
/// returned index answers `false`, every element from it on answers `true`; the length of
/// the slice means that no element satisfies the predicate.
pub fn least_satisfying<T, P: Fn(&T) -> bool>(slice: &[T], predicate: P) -> (r: usize)
    requires
        forall|i: int| 0 <= i < slice@.len() ==> call_requires(predicate, (&slice@[i],)),
        monotonic(slice@, predicate),
    ensures
        r <= slice@.len(),
        forall|i: int, b: bool|
            0 <= i < r && #[trigger] call_ensures(predicate, (&slice@[i],), b) ==> !b,
        forall|i: int, b: bool|
            r <= i < slice@.len() && #[trigger] call_ensures(predicate, (&slice@[i],), b) ==> b,
        forall|b: Seq<bool>|
            #[trigger] answers(slice@, predicate, b) ==> r == search(b, 0, b.len()).0,
        r > 0 ==> call_ensures(predicate, (&slice@[r - 1],), false),
        r < slice@.len() ==> call_ensures(predicate, (&slice@[r as int],), true),
{
    let mut base: usize = 0;
    let mut len: usize = slice.len();
    assert(slice@.len() == len);
    loop
        invariant
            forall|i: int| 0 <= i < slice@.len() ==> call_requires(predicate, (&slice@[i],)),
            monotonic(slice@, predicate),
            base + len <= slice@.len() <= usize::MAX,
            base > 0 ==> call_ensures(predicate, (&slice@[base - 1],), false),
            base + len < slice@.len() ==> call_ensures(
                predicate,
                (&slice@[base + len as int],),
                true,
            ),
            forall|b: Seq<bool>|
                #[trigger] answers(slice@, predicate, b) ==> search(b, 0, b.len()).0 == search(
                    b,
                    base as nat,
                    len as nat,
                ).0,
        decreases len,
    {
        let head: usize = len / 2;
        assert(head <= len);
        if len - head == 0 {
            let r = base + head;
            assert forall|i: int, b: bool|
                0 <= i < r && #[trigger] call_ensures(predicate, (&slice@[i],), b) implies !b by {
                if b {
                    assert(call_ensures(predicate, (&slice@[base - 1],), false));
                }
            }
            assert forall|i: int, b: bool|
                r <= i < slice@.len() && #[trigger] call_ensures(
                    predicate,
                    (&slice@[i],),
                    b,
                ) implies b by {
                assert(call_ensures(predicate, (&slice@[base + len as int],), true));
            }
            return r;
        }
        let mid: usize = base + head;
        let v = predicate(&slice[mid]);
        proof {
            assert forall|b: Seq<bool>| #[trigger] answers(slice@, predicate, b) implies b[mid as int]
                == v by {
                assert(call_ensures(predicate, (&slice@[mid as int],), v));
            }
        }
        if v {
            len = head;
        } else {
            base = mid + 1;
            len = len - head - 1;
        }
    }
}

} // verus!
