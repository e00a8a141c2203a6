//! The UTF-8 length of strings, for the places that cut a string at a byte offset.
use vstd::prelude::*;

verus! {

/// The number of bytes that `c` takes in UTF-8.
pub open spec fn utf8_width(c: char) -> nat {
    if c >= '𐀀' {
        4
    } else if c >= 'ࠀ' {
        3
    } else if c > '\x7f' {
        2
    } else {
        1
    }
}

/// The number of bytes that `s` takes in UTF-8 (what `str::len` gives).
pub open spec fn utf8_len(s: Seq<char>) -> nat
    decreases s.len(),
{
    if s.len() == 0 {
        0
    } else {
        utf8_len(s.drop_last()) + utf8_width(s.last())
    }
}

/// Byte offset `n` of `s` falls between two characters.
pub open spec fn is_char_boundary(s: Seq<char>, n: nat) -> bool {
    exists|k: int| 0 <= k <= s.len() && utf8_len(#[trigger] s.take(k)) == n
}

/// The number of characters before byte offset `n` of `s`.
pub open spec fn chars_before(s: Seq<char>, n: nat) -> int {
    choose|k: int| 0 <= k <= s.len() && utf8_len(#[trigger] s.take(k)) == n
}

pub proof fn lemma_utf8_len_take(s: Seq<char>, k: int)
    requires
        0 <= k < s.len(),
    ensures
        utf8_len(s.take(k + 1)) == utf8_len(s.take(k)) + utf8_width(s[k]),
{
    assert(s.take(k + 1).drop_last() =~= s.take(k));
}

pub proof fn lemma_utf8_len_mono(s: Seq<char>, j: int, k: int)
    requires
        0 <= j <= k <= s.len(),
    ensures
        utf8_len(s.take(j)) + (k - j) <= utf8_len(s.take(k)),
    decreases k - j,
{
    if j < k {
        lemma_utf8_len_mono(s, j, k - 1);
        lemma_utf8_len_take(s, k - 1);
    }
}

/// The number of bytes `c` takes in UTF-8.
pub fn char_width(c: char) -> (w: usize)
    ensures
        w == utf8_width(c),
{
    if c >= '𐀀' {
        4
    } else if c >= 'ࠀ' {
        3
    } else if c > '\x7f' {
        2
    } else {
        1
    }
}

/// The number of characters of `v` that take exactly `n` bytes, when `v` takes
/// more than `n` bytes (`None` when it does not).
pub fn byte_prefix_chars(v: &Vec<char>, n: usize) -> (r: Option<usize>)
    requires
        n <= usize::MAX - 4,
        utf8_len(v@) > n ==> is_char_boundary(v@, n as nat),
    ensures
        r is None <==> utf8_len(v@) <= n,
        r is Some ==> r->0 <= v@.len() && r->0 == chars_before(v@, n as nat)
            && utf8_len(v@.take(r->0 as int)) == n,
{
    let mut k: usize = 0;
    let mut width: usize = 0;
    assert(v@.take(0) =~= seq![]);
    while k < v.len() && width < n
        invariant
            n <= usize::MAX - 4,
            k <= v@.len(),
            width == utf8_len(v@.take(k as int)),
            width <= n + 3,
            k > 0 ==> utf8_len(v@.take(k - 1)) < n,
        decreases v@.len() - k,
    {
        proof {
            lemma_utf8_len_take(v@, k as int);
        }
        width = width + char_width(v[k]);
        k += 1;
    }
    proof {
        assert(v@.take(v@.len() as int) =~= v@);
        if width < n {
            lemma_utf8_len_mono(v@, k as int, v@.len() as int);
        }
    }
    if width < n || (width == n && k == v.len()) {
        return None;
    }
    proof {
        lemma_utf8_len_mono(v@, k as int, v@.len() as int);
        assert(utf8_len(v@) > n);
        let c = chars_before(v@, n as nat);
        assert(0 <= c <= v@.len() && utf8_len(v@.take(c)) == n);
        if width > n {
            if c < k {
                lemma_utf8_len_mono(v@, c, (k - 1) as int);
                lemma_utf8_len_take(v@, (k - 1) as int);
            } else if c >= k {
                lemma_utf8_len_mono(v@, k as int, c);
            }
            assert(false);
        }
        if c < k {
            lemma_utf8_len_mono(v@, c + 1, k as int);
            lemma_utf8_len_take(v@, c);
        } else if c > k {
            lemma_utf8_len_mono(v@, k + 1, c);
            lemma_utf8_len_take(v@, k as int);
        }
        assert(c == k);
    }
    Some(k)
}

} // verus!
