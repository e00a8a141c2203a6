//! Ordering of names: the order in which `str` values compare, and stable
//! sorting by a key in that order.
use vstd::prelude::*;

use crate::text::{sub_chars, to_chars};

verus! {

/// `a` does not come after `b` in the order strings compare in: character by
/// character by code point, a prefix before its extensions.
pub open spec fn lex_le(a: Seq<char>, b: Seq<char>) -> bool
    decreases a.len(),
{
    if a.len() == 0 {
        true
    } else if b.len() == 0 {
        false
    } else if a[0] != b[0] {
        a[0] < b[0]
    } else {
        lex_le(a.drop_first(), b.drop_first())
    }
}

/// `a` comes strictly before `b`.
pub open spec fn lex_lt(a: Seq<char>, b: Seq<char>) -> bool {
    lex_le(a, b) && a != b
}

/// The order is reflexive.
pub proof fn lemma_lex_refl(a: Seq<char>)
    ensures
        lex_le(a, a),
    decreases a.len(),
{
    if a.len() > 0 {
        lemma_lex_refl(a.drop_first());
    }
}

/// Any two strings are ordered one way or the other.
pub proof fn lemma_lex_total(a: Seq<char>, b: Seq<char>)
    ensures
        lex_le(a, b) || lex_le(b, a),
    decreases a.len(),
{
    if a.len() > 0 && b.len() > 0 && a[0] == b[0] {
        lemma_lex_total(a.drop_first(), b.drop_first());
    }
}

/// Two strings that are each not after the other are equal.
#[verifier::spinoff_prover]
pub proof fn lemma_lex_antisym(a: Seq<char>, b: Seq<char>)
    requires
        lex_le(a, b),
        lex_le(b, a),
    ensures
        a == b,
    decreases a.len(),
{
    if a.len() > 0 && b.len() > 0 {
        lemma_lex_antisym(a.drop_first(), b.drop_first());
        assert(a[0] == b[0]);
        assert(a.drop_first().len() == b.drop_first().len());
        assert(a.len() == b.len());
        assert forall|i: int| 0 <= i < a.len() implies a[i] == b[i] by {
            if i > 0 {
                assert(a[i] == a.drop_first()[i - 1]);
                assert(b[i] == b.drop_first()[i - 1]);
            }
        }
        assert(a =~= b);
    }
}

/// The order is transitive.
pub proof fn lemma_lex_trans(a: Seq<char>, b: Seq<char>, c: Seq<char>)
    requires
        lex_le(a, b),
        lex_le(b, c),
    ensures
        lex_le(a, c),
    decreases a.len(),
{
    if a.len() > 0 && b.len() > 0 && c.len() > 0 && a[0] == b[0] && b[0] == c[0] {
        lemma_lex_trans(a.drop_first(), b.drop_first(), c.drop_first());
    }
}

/// Strictly before, then not after, is strictly before.
pub proof fn lemma_lex_lt_le(a: Seq<char>, b: Seq<char>, c: Seq<char>)
    requires
        lex_lt(a, b),
        lex_le(b, c),
    ensures
        lex_lt(a, c),
{
    lemma_lex_trans(a, b, c);
    if a == c {
        lemma_lex_antisym(a, b);
    }
}

/// Whether `a` does not come after `b`.
pub fn chars_le(a: &Vec<char>, b: &Vec<char>) -> (r: bool)
    ensures
        r == lex_le(a@, b@),
{
    let mut i: usize = 0;
    assert(a@.skip(0) =~= a@ && b@.skip(0) =~= b@);
    while i < a.len() && i < b.len()
        invariant
            i <= a.len(),
            i <= b.len(),
            lex_le(a@, b@) == lex_le(a@.skip(i as int), b@.skip(i as int)),
        decreases a.len() - i,
    {
        assert(a@.skip(i as int)[0] == a@[i as int]);
        assert(b@.skip(i as int)[0] == b@[i as int]);
        if a[i] != b[i] {
            return a[i] < b[i];
        }
        assert(a@.skip(i as int).drop_first() =~= a@.skip(i + 1));
        assert(b@.skip(i as int).drop_first() =~= b@.skip(i + 1));
        i += 1;
    }
    i == a.len()
}

/// The characters of each vector.
pub open spec fn char_views(v: Seq<Vec<char>>) -> Seq<Seq<char>> {
    v.map_values(|x: Vec<char>| x@)
}

/// Position `i` goes before position `j` when items are ordered by key, and
/// items of equal keys keep the order they had.
pub open spec fn key_before(keys: Seq<Seq<char>>, i: int, j: int) -> bool {
    lex_lt(keys[i], keys[j]) || (keys[i] == keys[j] && i < j)
}

/// `order` lists positions of `keys`, each in range, in the order of
/// [`key_before`]: the order of a stable sort by key. (No position can occur
/// twice, since no position goes before itself.)
pub open spec fn is_stable_order(keys: Seq<Seq<char>>, order: Seq<usize>) -> bool {
    &&& order.len() == keys.len()
    &&& forall|a: int| 0 <= a < order.len() ==> order[a] < keys.len()
    &&& forall|a: int, b: int|
        0 <= a < b < order.len() ==> key_before(keys, #[trigger] order[a] as int, #[trigger] order[b] as int)
}

/// The items of `items` at the positions `order`, in that order.
pub open spec fn pick(items: Seq<Seq<char>>, order: Seq<usize>) -> Seq<Seq<char>> {
    order.map_values(|k: usize| items[k as int])
}

/// The items at the positions `order`.
fn pick_items(items: &Vec<String>, order: &Vec<usize>) -> (r: Vec<String>)
    requires
        forall|a: int| 0 <= a < order@.len() ==> order@[a] < items@.len(),
    ensures
        crate::flags::strs(r) == pick(crate::flags::strs(*items), order@),
{
    let mut r: Vec<String> = Vec::new();
    let mut a: usize = 0;
    while a < order.len()
        invariant
            a <= order@.len(),
            forall|k: int| 0 <= k < order@.len() ==> order@[k] < items@.len(),
            r@.len() == a,
            forall|k: int| 0 <= k < a ==> #[trigger] r@[k]@ == items@[order@[k] as int]@,
        decreases order@.len() - a,
    {
        r.push(items[order[a]].clone());
        a += 1;
    }
    assert(crate::flags::strs(r) =~= pick(crate::flags::strs(*items), order@));
    r
}

/// The strings sorted by their own order (ties cannot be told apart).
pub fn sort_strings(items: &Vec<String>) -> (r: Vec<String>)
    ensures
        exists|order: Seq<usize>|
            is_stable_order(crate::flags::strs(*items), order) && crate::flags::strs(r) == pick(
                crate::flags::strs(*items),
                order,
            ),
        forall|a: int, b: int|
            0 <= a < b < r@.len() ==> lex_le(#[trigger] r@[a]@, #[trigger] r@[b]@),
{
    let mut keys: Vec<Vec<char>> = Vec::new();
    let mut i: usize = 0;
    while i < items.len()
        invariant
            i <= items@.len(),
            keys@.len() == i,
            forall|k: int| 0 <= k < i ==> #[trigger] keys@[k]@ == items@[k]@,
        decreases items@.len() - i,
    {
        keys.push(to_chars(items[i].as_str()));
        i += 1;
    }
    assert(char_views(keys@) =~= crate::flags::strs(*items));
    let order = stable_order(&keys);
    let r = pick_items(items, &order);
    assert(crate::flags::strs(r).len() == r@.len());
    assert forall|a: int, b: int| 0 <= a < b < r@.len() implies lex_le(#[trigger] r@[a]@, #[trigger] r@[b]@) by {
        assert(crate::flags::strs(r)[a] == r@[a]@);
        assert(crate::flags::strs(r)[b] == r@[b]@);
        assert(key_before(crate::flags::strs(*items), order@[a] as int, order@[b] as int));
        if crate::flags::strs(*items)[order@[a] as int] == crate::flags::strs(*items)[order@[b] as int] {
            lemma_lex_refl(r@[a]@);
        }
    }
    r
}

/// `c` is one of the digits `0` to `9`.
pub open spec fn is_digit(c: char) -> bool {
    '0' <= c && c <= '9'
}

/// `s` without its leading digits.
pub open spec fn skip_digits(s: Seq<char>) -> Seq<char>
    decreases s.len(),
{
    if s.len() > 0 && is_digit(s[0]) {
        skip_digits(s.drop_first())
    } else {
        s
    }
}

/// The key missing symbols are listed by: a name that starts with `_Z` is
/// compared by what follows `_Z` and the digits after it.
pub open spec fn unmangled(s: Seq<char>) -> Seq<char> {
    if s.len() >= 2 && s[0] == '_' && s[1] == 'Z' {
        skip_digits(s.skip(2))
    } else {
        s
    }
}

/// The characters of [`unmangled`] for `s`.
pub fn unmangled_key(s: &str) -> (r: Vec<char>)
    ensures
        r@ == unmangled(s@),
{
    let v = to_chars(s);
    if v.len() >= 2 && v[0] == '_' && v[1] == 'Z' {
        let mut i: usize = 2;
        while i < v.len() && '0' <= v[i] && v[i] <= '9'
            invariant
                2 <= i <= v@.len(),
                skip_digits(v@.skip(2)) == skip_digits(v@.skip(i as int)),
            decreases v@.len() - i,
        {
            assert(v@.skip(i as int)[0] == v@[i as int]);
            assert(v@.skip(i as int).drop_first() =~= v@.skip(i + 1));
            i += 1;
        }
        if i < v.len() {
            assert(v@.skip(i as int)[0] == v@[i as int]);
        }
        let r = sub_chars(&v, i, v.len());
        assert(r@ =~= v@.skip(i as int));
        r
    } else {
        v
    }
}

/// Missing symbols in the order they are reported in: a stable sort by
/// [`unmangled`] name.
pub fn sort_missing_symbols(symbols: &Vec<String>) -> (r: Vec<String>)
    ensures
        exists|order: Seq<usize>|
            is_stable_order(crate::flags::strs(*symbols).map_values(|s: Seq<char>| unmangled(s)), order)
                && crate::flags::strs(r) == pick(crate::flags::strs(*symbols), order),
{
    let ghost ss = crate::flags::strs(*symbols);
    let mut keys: Vec<Vec<char>> = Vec::new();
    let mut i: usize = 0;
    while i < symbols.len()
        invariant
            i <= symbols@.len(),
            keys@.len() == i,
            forall|k: int| 0 <= k < i ==> #[trigger] keys@[k]@ == unmangled(symbols@[k]@),
        decreases symbols@.len() - i,
    {
        keys.push(unmangled_key(symbols[i].as_str()));
        i += 1;
    }
    assert(char_views(keys@) =~= ss.map_values(|s: Seq<char>| unmangled(s)));
    let order = stable_order(&keys);
    pick_items(symbols, &order)
}


/// A stable order names no position twice.
pub proof fn lemma_stable_order_distinct(keys: Seq<Seq<char>>, order: Seq<usize>, a: int, b: int)
    requires
        is_stable_order(keys, order),
        0 <= a < order.len(),
        0 <= b < order.len(),
        a != b,
    ensures
        order[a] != order[b],
{
    if a < b {
        assert(key_before(keys, order[a] as int, order[b] as int));
    } else {
        assert(key_before(keys, order[b] as int, order[a] as int));
    }
}

/// Items of equal keys keep their relative order, and items come in the order
/// of their keys.
pub proof fn lemma_stable_order_sorted(keys: Seq<Seq<char>>, order: Seq<usize>, a: int, b: int)
    requires
        is_stable_order(keys, order),
        0 <= a < b < order.len(),
    ensures
        lex_le(keys[order[a] as int], keys[order[b] as int]),
        keys[order[a] as int] == keys[order[b] as int] ==> order[a] < order[b],
{
    assert(key_before(keys, order[a] as int, order[b] as int));
    if keys[order[a] as int] == keys[order[b] as int] {
        lemma_lex_refl(keys[order[a] as int]);
    }
}


/// Not after, then strictly before, is strictly before.
pub proof fn lemma_lex_le_lt(a: Seq<char>, b: Seq<char>, c: Seq<char>)
    requires
        lex_le(a, b),
        lex_lt(b, c),
    ensures
        lex_lt(a, c),
{
    lemma_lex_trans(a, b, c);
    if a == c {
        lemma_lex_antisym(b, c);
    }
}

/// The positions `order` of `keys` come in key order.
pub open spec fn sorted_by_key(keys: Seq<Seq<char>>, order: Seq<usize>) -> bool {
    forall|a: int, b: int|
        0 <= a < b < order.len() ==> lex_le(keys[#[trigger] order[a] as int], keys[#[trigger] order[b] as int])
}

/// `order` lists position `k`.
pub open spec fn holds_position(order: Seq<usize>, k: int) -> bool {
    order.contains(k as usize)
}

/// Every position of `order` is a position of `keys`.
pub open spec fn positions_within(order: Seq<usize>, n: int) -> bool {
    forall|a: int| 0 <= a < order.len() ==> #[trigger] order[a] < n
}

proof fn lemma_push_contains(s: Seq<usize>, x: usize, y: usize)
    requires
        s.contains(y),
    ensures
        s.push(x).contains(y),
{
    let k = choose|k: int| 0 <= k < s.len() && s[k] == y;
    assert(s.push(x)[k] == y);
}

/// Going before is transitive.
proof fn lemma_key_before_trans(ks: Seq<Seq<char>>, a: int, b: int, c: int)
    requires
        key_before(ks, a, b),
        key_before(ks, b, c),
    ensures
        key_before(ks, a, c),
{
    if lex_lt(ks[a], ks[b]) && lex_lt(ks[b], ks[c]) {
        lemma_lex_lt_le(ks[a], ks[b], ks[c]);
    }
}

/// The positions `order` of `keys` go each before the next (see [`key_before`]).
pub open spec fn in_stable_order(keys: Seq<Seq<char>>, order: Seq<usize>) -> bool {
    forall|a: int, b: int|
        0 <= a < b < order.len() ==> key_before(keys, #[trigger] order[a] as int, #[trigger] order[b] as int)
}

/// Every position of `order` lies from `lo` (inclusive) to `hi` (exclusive).
pub open spec fn positions_between(order: Seq<usize>, lo: int, hi: int) -> bool {
    forall|a: int| 0 <= a < order.len() ==> lo <= #[trigger] order[a] < hi
}

/// Positions in stable order are in key order.
proof fn lemma_stable_is_sorted(ks: Seq<Seq<char>>, order: Seq<usize>)
    requires
        in_stable_order(ks, order),
    ensures
        sorted_by_key(ks, order),
{
    assert forall|a: int, b: int| 0 <= a < b < order.len() implies lex_le(
        ks[#[trigger] order[a] as int],
        ks[#[trigger] order[b] as int],
    ) by {
        assert(key_before(ks, order[a] as int, order[b] as int));
        if ks[order[a] as int] == ks[order[b] as int] {
            lemma_lex_refl(ks[order[a] as int]);
        }
    }
}

/// Two lists of positions in stable order, the first below `mid` and the
/// second from `mid` on, merged in stable order.
fn merge_positions(
    keys: &Vec<Vec<char>>,
    left: &Vec<usize>,
    right: &Vec<usize>,
    Ghost(lo): Ghost<int>,
    Ghost(mid): Ghost<int>,
    Ghost(hi): Ghost<int>,
) -> (r: Vec<usize>)
    requires
        lo <= mid <= hi <= keys@.len(),
        in_stable_order(char_views(keys@), left@),
        in_stable_order(char_views(keys@), right@),
        positions_between(left@, lo, mid),
        positions_between(right@, mid, hi),
    ensures
        in_stable_order(char_views(keys@), r@),
        positions_between(r@, lo, hi),
        r@.len() == left@.len() + right@.len(),
        forall|p: int| 0 <= p < left@.len() ==> r@.contains(#[trigger] left@[p]),
        forall|p: int| 0 <= p < right@.len() ==> r@.contains(#[trigger] right@[p]),
{
    let ghost ks = char_views(keys@);
    let mut out: Vec<usize> = Vec::new();
    let mut i: usize = 0;
    let mut j: usize = 0;
    while i < left.len() || j < right.len()
        invariant
            lo <= mid <= hi <= keys@.len(),
            ks == char_views(keys@),
            in_stable_order(ks, left@),
            in_stable_order(ks, right@),
            positions_between(left@, lo, mid),
            positions_between(right@, mid, hi),
            i <= left@.len(),
            j <= right@.len(),
            out@.len() == i + j,
            in_stable_order(ks, out@),
            positions_between(out@, lo, hi),
            forall|a: int, p: int|
                0 <= a < out@.len() && i <= p < left@.len() ==> key_before(
                    ks,
                    #[trigger] out@[a] as int,
                    #[trigger] left@[p] as int,
                ),
            forall|a: int, p: int|
                0 <= a < out@.len() && j <= p < right@.len() ==> key_before(
                    ks,
                    #[trigger] out@[a] as int,
                    #[trigger] right@[p] as int,
                ),
            forall|p: int| 0 <= p < i ==> out@.contains(#[trigger] left@[p]),
            forall|p: int| 0 <= p < j ==> out@.contains(#[trigger] right@[p]),
        decreases left@.len() + right@.len() - i - j,
    {
        let take_left = j == right.len() || (i < left.len() && chars_le(&keys[left[i]], &keys[right[j]]));
        let x = if take_left {
            left[i]
        } else {
            right[j]
        };
        let ghost before = out@;
        proof {
            if take_left {
                assert forall|p: int| i < p < left@.len() implies key_before(ks, x as int, #[trigger] left@[p] as int) by {
                    assert(key_before(ks, left@[i as int] as int, left@[p] as int));
                }
                if j < right@.len() {
                    assert(lex_le(ks[x as int], ks[right@[j as int] as int]));
                    assert(x < right@[j as int]);
                    assert(key_before(ks, x as int, right@[j as int] as int));
                }
                assert forall|p: int| j <= p < right@.len() implies key_before(ks, x as int, #[trigger] right@[p] as int) by {
                    if p > j {
                        assert(key_before(ks, right@[j as int] as int, right@[p] as int));
                        lemma_key_before_trans(ks, x as int, right@[j as int] as int, right@[p] as int);
                    }
                }
            } else {
                if i < left@.len() {
                    assert(!lex_le(ks[left@[i as int] as int], ks[x as int]));
                    lemma_lex_total(ks[left@[i as int] as int], ks[x as int]);
                    assert(key_before(ks, x as int, left@[i as int] as int));
                }
                assert forall|p: int| i <= p < left@.len() implies key_before(ks, x as int, #[trigger] left@[p] as int) by {
                    if p > i {
                        assert(key_before(ks, left@[i as int] as int, left@[p] as int));
                        lemma_key_before_trans(ks, x as int, left@[i as int] as int, left@[p] as int);
                    }
                }
                assert forall|p: int| j < p < right@.len() implies key_before(ks, x as int, #[trigger] right@[p] as int) by {
                    assert(key_before(ks, right@[j as int] as int, right@[p] as int));
                }
            }
        }
        out.push(x);
        if take_left {
            i += 1;
        } else {
            j += 1;
        }
        proof {
            assert(out@ == before.push(x));
            assert forall|a: int, b: int| 0 <= a < b < out@.len() implies key_before(
                ks,
                #[trigger] out@[a] as int,
                #[trigger] out@[b] as int,
            ) by {
                if b == out@.len() - 1 {
                    assert(out@[a] == before[a]);
                    if take_left {
                        assert(key_before(ks, before[a] as int, left@[i - 1] as int));
                    } else {
                        assert(key_before(ks, before[a] as int, right@[j - 1] as int));
                    }
                } else {
                    assert(out@[a] == before[a] && out@[b] == before[b]);
                }
            }
            assert forall|p: int| 0 <= p < i implies out@.contains(#[trigger] left@[p]) by {
                if take_left && p == i - 1 {
                    assert(out@[out@.len() - 1] == left@[p]);
                } else {
                    lemma_push_contains(before, x, left@[p]);
                }
            }
            assert forall|p: int| 0 <= p < j implies out@.contains(#[trigger] right@[p]) by {
                if !take_left && p == j - 1 {
                    assert(out@[out@.len() - 1] == right@[p]);
                } else {
                    lemma_push_contains(before, x, right@[p]);
                }
            }
        }
    }
    out
}

/// The positions `lo` to `hi` of `keys` in stable order (a merge sort).
fn sort_positions(keys: &Vec<Vec<char>>, lo: usize, hi: usize) -> (r: Vec<usize>)
    requires
        lo <= hi <= keys@.len(),
    ensures
        in_stable_order(char_views(keys@), r@),
        positions_between(r@, lo as int, hi as int),
        r@.len() == hi - lo,
        forall|k: int| lo <= k < hi ==> #[trigger] holds_position(r@, k),
    decreases hi - lo,
{
    if hi - lo == 0 {
        return Vec::new();
    }
    if hi - lo == 1 {
        let mut r: Vec<usize> = Vec::new();
        r.push(lo);
        assert(r@[0] == lo);
        return r;
    }
    let mid = lo + (hi - lo) / 2;
    let left = sort_positions(keys, lo, mid);
    let right = sort_positions(keys, mid, hi);
    let r = merge_positions(keys, &left, &right, Ghost(lo as int), Ghost(mid as int), Ghost(hi as int));
    assert forall|k: int| lo <= k < hi implies #[trigger] holds_position(r@, k) by {
        if k < mid {
            assert(holds_position(left@, k));
            let p = choose|p: int| 0 <= p < left@.len() && left@[p] == k as usize;
            assert(r@.contains(left@[p]));
        } else {
            assert(holds_position(right@, k));
            let p = choose|p: int| 0 <= p < right@.len() && right@[p] == k as usize;
            assert(r@.contains(right@[p]));
        }
    }
    r
}

/// The positions of `keys` in the order a stable sort by key puts them in.
pub fn stable_order(keys: &Vec<Vec<char>>) -> (order: Vec<usize>)
    ensures
        is_stable_order(char_views(keys@), order@),
{
    sort_positions(keys, 0, keys.len())
}

/// Whether some position of `order` holds the key `x`, in keys ordered by `order`
/// (a binary search).
fn sorted_contains(keys: &Vec<Vec<char>>, order: &Vec<usize>, x: &Vec<char>) -> (r: bool)
    requires
        sorted_by_key(char_views(keys@), order@),
        positions_within(order@, keys@.len() as int),
    ensures
        r == exists|a: int| 0 <= a < order@.len() && #[trigger] char_views(keys@)[order@[a] as int] == x@,
{
    let ghost ks = char_views(keys@);
    let mut lo: usize = 0;
    let mut hi: usize = order.len();
    while lo < hi
        invariant
            ks == char_views(keys@),
            sorted_by_key(ks, order@),
            positions_within(order@, keys@.len() as int),
            lo <= hi <= order@.len(),
            forall|a: int| 0 <= a < lo ==> lex_lt(#[trigger] ks[order@[a] as int], x@),
            forall|a: int| hi <= a < order@.len() ==> lex_lt(x@, #[trigger] ks[order@[a] as int]),
        decreases hi - lo,
    {
        let mid = lo + (hi - lo) / 2;
        let k = &keys[order[mid]];
        let le = chars_le(k, x);
        let ge = chars_le(x, k);
        if le && ge {
            proof {
                lemma_lex_antisym(ks[order@[mid as int] as int], x@);
            }
            return true;
        }
        if le {
            proof {
                assert forall|a: int| 0 <= a < mid + 1 implies lex_lt(#[trigger] ks[order@[a] as int], x@) by {
                    if a < mid {
                        assert(lex_le(ks[order@[a] as int], ks[order@[mid as int] as int]));
                        lemma_lex_le_lt(ks[order@[a] as int], ks[order@[mid as int] as int], x@);
                    }
                }
            }
            lo = mid + 1;
        } else {
            proof {
                lemma_lex_total(ks[order@[mid as int] as int], x@);
                assert forall|a: int| mid <= a < order@.len() implies lex_lt(x@, #[trigger] ks[order@[a] as int]) by {
                    if a > mid {
                        assert(lex_le(ks[order@[mid as int] as int], ks[order@[a] as int]));
                        lemma_lex_lt_le(x@, ks[order@[mid as int] as int], ks[order@[a] as int]);
                    }
                }
            }
            hi = mid;
        }
    }
    proof {
        assert forall|a: int| 0 <= a < order@.len() implies #[trigger] ks[order@[a] as int] != x@ by {
            if a < lo {
                assert(lex_lt(ks[order@[a] as int], x@));
            } else {
                assert(lex_lt(x@, ks[order@[a] as int]));
            }
        }
    }
    false
}

/// A set of strings that answers membership by binary search
pub struct StringSet {
    keys: Vec<Vec<char>>,
    order: Vec<usize>,
}

impl StringSet {
    /// The strings held.
    pub closed spec fn contents(&self) -> Set<Seq<char>> {
        Set::new(|s: Seq<char>| exists|a: int| 0 <= a < self.order@.len() && #[trigger] char_views(self.keys@)[self.order@[a] as int] == s)
    }

    /// The set of the strings of `items`.
    pub fn from_strings(items: &Vec<String>) -> (r: Self)
        ensures
            forall|s: Seq<char>| #[trigger] r.contents().contains(s) <==> crate::flags::strs(*items).contains(s),
            r.wf(),
    {
        let mut keys: Vec<Vec<char>> = Vec::new();
        let mut i: usize = 0;
        while i < items.len()
            invariant
                i <= items@.len(),
                keys@.len() == i,
                forall|k: int| 0 <= k < i ==> #[trigger] keys@[k]@ == items@[k]@,
            decreases items@.len() - i,
        {
            keys.push(to_chars(items[i].as_str()));
            i += 1;
        }
        let order = sort_positions(&keys, 0, keys.len());
        proof {
            lemma_stable_is_sorted(char_views(keys@), order@);
        }
        let r = StringSet { keys, order };
        let ghost ss = crate::flags::strs(*items);
        assert(char_views(r.keys@) =~= ss);
        assert forall|s: Seq<char>| #[trigger] r.contents().contains(s) <==> ss.contains(s) by {
            if ss.contains(s) {
                let k = choose|k: int| 0 <= k < ss.len() && ss[k] == s;
                assert(holds_position(r.order@, k));
                let a = choose|a: int| 0 <= a < r.order@.len() && r.order@[a] == k as usize;
                assert(char_views(r.keys@)[r.order@[a] as int] == s);
            }
            if r.contents().contains(s) {
                let a = choose|a: int| 0 <= a < r.order@.len() && #[trigger] char_views(r.keys@)[r.order@[a] as int] == s;
                assert(ss[r.order@[a] as int] == s);
            }
        }
        r
    }

    /// The internal order is a key order over the held keys.
    pub closed spec fn wf(&self) -> bool {
        sorted_by_key(char_views(self.keys@), self.order@) && positions_within(self.order@, self.keys@.len() as int)
    }

    /// Whether `s` is held.
    pub fn contains(&self, s: &str) -> (r: bool)
        requires
            self.wf(),
        ensures
            r == self.contents().contains(s@),
    {
        let x = to_chars(s);
        sorted_contains(&self.keys, &self.order, &x)
    }
}

} // verus!
