//! Character-level string helpers shared by the rest of the library.
use vstd::prelude::*;

verus! {

/// `String::push` appends one character.
pub assume_specification[ String::push ](s: &mut String, ch: char)
    ensures
        final(s)@ == old(s)@.push(ch),
;

/// The characters of `s`, in order.
pub fn to_chars(s: &str) -> (v: Vec<char>)
    ensures
        v@ == s@,
{
    let mut v: Vec<char> = Vec::new();
    let mut it = s.chars();
    for c in iter: it
        invariant
            iter.seq() == s@,
            v@ == iter.seq().take(iter.index()),
    {
        v.push(c);
    }
    v
}

/// A string made of the characters of `v`.
pub fn from_chars(v: &[char]) -> (s: String)
    ensures
        s@ == v@,
{
    let mut s = String::new();
    let mut i: usize = 0;
    while i < v.len()
        invariant
            i <= v.len(),
            s@ == v@.take(i as int),
        decreases v.len() - i,
    {
        s.push(v[i]);
        assert(v@.take(i as int).push(v@[i as int]) == v@.take(i + 1));
        i += 1;
    }
    assert(v@.take(v.len() as int) == v@);
    s
}


/// `i` is the last position of `s` that holds `c`.
pub open spec fn is_last_of(s: Seq<char>, c: char, i: int) -> bool {
    &&& 0 <= i < s.len()
    &&& s[i] == c
    &&& forall|j: int| i < j < s.len() ==> s[j] != c
}

/// The last position of `s` that holds `c`, if there is one.
pub open spec fn last_of(s: Seq<char>, c: char) -> Option<int> {
    if exists|i: int| is_last_of(s, c, i) {
        Some(choose|i: int| is_last_of(s, c, i))
    } else {
        None
    }
}

/// A character is a path separator (`/` or `\`).
pub open spec fn is_path_sep(c: char) -> bool {
    c == '/' || c == '\\'
}

/// `i` is the last position of `s` that holds a path separator.
pub open spec fn is_last_sep(s: Seq<char>, i: int) -> bool {
    &&& 0 <= i < s.len()
    &&& is_path_sep(s[i])
    &&& forall|j: int| i < j < s.len() ==> !is_path_sep(s[j])
}

/// The last position of `s` that holds a path separator, if there is one.
pub open spec fn last_sep(s: Seq<char>) -> Option<int> {
    if exists|i: int| is_last_sep(s, i) {
        Some(choose|i: int| is_last_sep(s, i))
    } else {
        None
    }
}

/// `i` is the first position of `s` that holds `c`.
pub open spec fn is_first_of(s: Seq<char>, c: char, i: int) -> bool {
    &&& 0 <= i < s.len()
    &&& s[i] == c
    &&& forall|j: int| 0 <= j < i ==> s[j] != c
}

/// The first position of `s` that holds `c`, if there is one.
pub open spec fn first_of(s: Seq<char>, c: char) -> Option<int> {
    if exists|i: int| is_first_of(s, c, i) {
        Some(choose|i: int| is_first_of(s, c, i))
    } else {
        None
    }
}

/// Index of the last occurrence of `c` in `v`.
pub fn rfind_char(v: &Vec<char>, c: char) -> (r: Option<usize>)
    ensures
        last_of(v@, c) == (match r { Some(i) => Some(i as int), None => None::<int> }),
        r is Some ==> is_last_of(v@, c, r->0 as int) && r->0 < v.len(),
        r is None ==> forall|j: int| 0 <= j < v@.len() ==> v@[j] != c,
{
    let mut i = v.len();
    while i > 0
        invariant
            i <= v.len(),
            forall|j: int| i <= j < v@.len() ==> v@[j] != c,
        decreases i,
    {
        if v[i - 1] == c {
            assert(is_last_of(v@, c, i - 1));
            assert forall|k: int| is_last_of(v@, c, k) implies k == i - 1 by {
                if k < i - 1 {
                    assert(v@[i - 1] != c);
                }
            }
            return Some(i - 1);
        }
        i -= 1;
    }
    assert(!(exists|k: int| is_last_of(v@, c, k)));
    None
}

/// Index of the last path separator (`/` or `\`) in `v`.
pub fn rfind_path_sep(v: &Vec<char>) -> (r: Option<usize>)
    ensures
        last_sep(v@) == (match r { Some(i) => Some(i as int), None => None::<int> }),
        r is Some ==> is_last_sep(v@, r->0 as int) && r->0 < v.len(),
        r is None ==> forall|j: int| 0 <= j < v@.len() ==> !is_path_sep(v@[j]),
{
    let mut i = v.len();
    while i > 0
        invariant
            i <= v.len(),
            forall|j: int| i <= j < v@.len() ==> !is_path_sep(v@[j]),
        decreases i,
    {
        if v[i - 1] == '/' || v[i - 1] == '\\' {
            assert(is_last_sep(v@, i - 1));
            assert forall|k: int| is_last_sep(v@, k) implies k == i - 1 by {
                if k < i - 1 {
                    assert(!is_path_sep(v@[i - 1]));
                }
            }
            return Some(i - 1);
        }
        i -= 1;
    }
    assert(!(exists|k: int| is_last_sep(v@, k)));
    None
}

/// Index of the first occurrence of `c` in `v` at or after `from`.
pub fn find_char_from(v: &Vec<char>, c: char, from: usize) -> (r: Option<usize>)
    requires
        from <= v.len(),
    ensures
        first_of(v@.skip(from as int), c) == (match r { Some(i) => Some(i - from), None => None::<int> }),
        r is Some ==> from <= r->0 < v.len() && v@[r->0 as int] == c
            && forall|j: int| from <= j < r->0 ==> v@[j] != c,
        r is None ==> forall|j: int| from <= j < v@.len() ==> v@[j] != c,
{
    let ghost t = v@.skip(from as int);
    let mut i = from;
    while i < v.len()
        invariant
            from <= i <= v.len(),
            t == v@.skip(from as int),
            forall|j: int| from <= j < i ==> v@[j] != c,
        decreases v.len() - i,
    {
        if v[i] == c {
            assert(is_first_of(t, c, i - from));
            assert forall|k: int| is_first_of(t, c, k) implies k == i - from by {
                if k > i - from {
                    assert(t[i - from] == v@[i as int]);
                }
                if k < i - from {
                    assert(t[k] == v@[k + from]);
                }
            }
            return Some(i);
        }
        i += 1;
    }
    assert(!(exists|k: int| is_first_of(t, c, k))) by {
        assert forall|k: int| !is_first_of(t, c, k) by {
            if 0 <= k < t.len() {
                assert(t[k] == v@[k + from]);
            }
        }
    }
    None
}

/// The characters of `v` from `from` (inclusive) to `to` (exclusive).
pub fn sub_chars(v: &Vec<char>, from: usize, to: usize) -> (r: Vec<char>)
    requires
        from <= to <= v.len(),
    ensures
        r@ == v@.subrange(from as int, to as int),
{
    let mut r: Vec<char> = Vec::new();
    let mut i = from;
    while i < to
        invariant
            from <= i <= to <= v.len(),
            r@ == v@.subrange(from as int, i as int),
        decreases to - i,
    {
        r.push(v[i]);
        i += 1;
    }
    r
}

/// The string made of the characters of `v` from `from` to `to`.
pub fn sub_string(v: &Vec<char>, from: usize, to: usize) -> (r: String)
    requires
        from <= to <= v.len(),
    ensures
        r@ == v@.subrange(from as int, to as int),
{
    let c = sub_chars(v, from, to);
    from_chars(c.as_slice())
}

/// `a` and `b` hold the same characters.
pub fn str_eq(a: &str, b: &str) -> (r: bool)
    ensures
        r == (a@ == b@),
{
    let x = a.to_owned();
    let y = b.to_owned();
    x == y
}

/// Appends the characters of `b` to `a`.
pub fn push_str(a: &mut String, b: &str)
    ensures
        final(a)@ == old(a)@ + b@,
{
    a.append(b);
}

/// `s` starts with `p`.
pub open spec fn starts_with(s: Seq<char>, p: Seq<char>) -> bool {
    p.len() <= s.len() && s.take(p.len() as int) == p
}

/// `s` holds `p` somewhere.
pub open spec fn contains_seq(s: Seq<char>, p: Seq<char>) -> bool {
    exists|i: int| 0 <= i <= s.len() - p.len() && #[trigger] s.subrange(i, i + p.len()) == p
}

/// `s` with every occurrence of the non-empty `pat` replaced by `rep`, scanning
/// from the left without overlaps (what `str::replace` does).
pub open spec fn replace_all(s: Seq<char>, pat: Seq<char>, rep: Seq<char>) -> Seq<char>
    recommends
        pat.len() > 0,
    decreases s.len(),
{
    if s.len() == 0 || pat.len() == 0 {
        s
    } else if starts_with(s, pat) {
        rep + replace_all(s.skip(pat.len() as int), pat, rep)
    } else {
        seq![s[0]] + replace_all(s.skip(1), pat, rep)
    }
}

/// Whether the characters of `v` from `at` on start with `p`.
pub fn chars_match_at(v: &Vec<char>, at: usize, p: &Vec<char>) -> (r: bool)
    requires
        at <= v.len(),
    ensures
        r == starts_with(v@.skip(at as int), p@),
{
    if p.len() > v.len() - at {
        return false;
    }
    let mut j: usize = 0;
    while j < p.len()
        invariant
            j <= p.len(),
            p.len() <= v.len() - at,
            forall|k: int| 0 <= k < j ==> v@[at + k] == p@[k],
        decreases p.len() - j,
    {
        if v[at + j] != p[j] {
            assert(v@.skip(at as int).take(p@.len() as int)[j as int] != p@[j as int]);
            return false;
        }
        j += 1;
    }
    assert(v@.skip(at as int).take(p@.len() as int) =~= p@);
    true
}

/// `s` starts with `p`.
pub fn has_prefix(s: &str, p: &str) -> (r: bool)
    ensures
        r == starts_with(s@, p@),
{
    let v = to_chars(s);
    let q = to_chars(p);
    assert(v@.skip(0) =~= v@);
    chars_match_at(&v, 0, &q)
}

/// `s` holds `p` somewhere.
pub fn contains_str(s: &str, p: &str) -> (r: bool)
    ensures
        r == contains_seq(s@, p@),
{
    let v = to_chars(s);
    let q = to_chars(p);
    if q.len() > v.len() {
        assert(!contains_seq(s@, p@));
        return false;
    }
    if q.len() == 0 {
        assert(s@.subrange(0, 0int + p@.len()) =~= p@);
        return true;
    }
    let mut i: usize = 0;
    while i <= v.len() - q.len()
        invariant
            1 <= q.len() <= v.len(),
            v@ == s@,
            q@ == p@,
            i <= v.len() - q.len() + 1,
            forall|k: int| 0 <= k < i ==> #[trigger] v@.subrange(k, k + q@.len()) != q@,
        decreases v.len() - q.len() + 1 - i,
    {
        assert(v@.skip(i as int).take(q@.len() as int) =~= v@.subrange(i as int, i + q@.len()));
        if chars_match_at(&v, i, &q) {
            assert(v@.skip(i as int).take(q@.len() as int) == q@);
            assert forall|k: int| 0 <= k < q@.len() implies v@.subrange(i as int, i + q@.len())[k] == q@[k] by {
                assert(v@.skip(i as int).take(q@.len() as int)[k] == q@[k]);
            }
            assert(v@.subrange(i as int, i + q@.len()) =~= q@);
            assert(s@.subrange(i as int, i + p@.len()) == p@);
            return true;
        }
        i += 1;
    }
    false
}

/// `s` with every occurrence of `pat` replaced by `rep`
pub fn replace_str(s: &str, pat: &str, rep: &str) -> (r: String)
    requires
        pat@.len() > 0,
    ensures
        r@ == replace_all(s@, pat@, rep@),
{
    let v = to_chars(s);
    let q = to_chars(pat);
    let mut out = String::new();
    let mut i: usize = 0;
    assert(v@.skip(0) =~= v@);
    while i < v.len()
        invariant
            i <= v.len(),
            q@ == pat@,
            q@.len() > 0,
            out@ + replace_all(v@.skip(i as int), q@, rep@) == replace_all(v@, q@, rep@),
        decreases v.len() - i,
    {
        let ghost rest = v@.skip(i as int);
        if chars_match_at(&v, i, &q) {
            push_str(&mut out, rep);
            assert(rest.skip(q@.len() as int) =~= v@.skip(i + q@.len()));
            assert(out@ + replace_all(v@.skip(i + q@.len()), q@, rep@) =~= replace_all(v@, q@, rep@));
            i = i + q.len();
        } else {
            out.push(v[i]);
            assert(rest.skip(1) =~= v@.skip(i + 1));
            assert(rest[0] == v@[i as int]);
            assert(out@ + replace_all(v@.skip(i + 1), q@, rep@) =~= replace_all(v@, q@, rep@));
            i = i + 1;
        }
    }
    assert(v@.skip(i as int) =~= Seq::<char>::empty());
    assert(out@ + replace_all(v@.skip(i as int), q@, rep@) =~= out@);
    out
}

/// `i` is the first position of `s` where `p` starts.
pub open spec fn is_first_occurrence(s: Seq<char>, p: Seq<char>, i: int) -> bool {
    &&& 0 <= i <= s.len()
    &&& starts_with(s.skip(i), p)
    &&& forall|j: int| 0 <= j < i ==> !starts_with(#[trigger] s.skip(j), p)
}

/// `s` with its first occurrence of `p` replaced by `r` (what `replacen` with a
/// count of one gives).
pub open spec fn replace_first(s: Seq<char>, p: Seq<char>, r: Seq<char>) -> Seq<char> {
    if exists|i: int| is_first_occurrence(s, p, i) {
        let i = choose|i: int| is_first_occurrence(s, p, i);
        s.take(i) + r + s.skip(i + p.len())
    } else {
        s
    }
}

/// `s` with the first occurrence of the non-empty `pat` replaced by `rep`
pub fn replace_first_str(s: &str, pat: &str, rep: &str) -> (r: String)
    requires
        pat@.len() > 0,
    ensures
        r@ == replace_first(s@, pat@, rep@),
{
    let v = to_chars(s);
    let p = to_chars(pat);
    let mut i: usize = 0;
    while i < v.len()
        invariant
            i <= v@.len(),
            v@ == s@,
            p@ == pat@,
            p@.len() > 0,
            forall|j: int| 0 <= j < i ==> !starts_with(#[trigger] v@.skip(j), p@),
        decreases v@.len() - i,
    {
        if chars_match_at(&v, i, &p) {
            assert(is_first_occurrence(v@, p@, i as int));
            assert forall|k: int| is_first_occurrence(v@, p@, k) implies k == i by {
                if k > i {
                    assert(starts_with(v@.skip(i as int), p@));
                }
            }
            let head = sub_chars(&v, 0, i);
            let mut r = from_chars(head.as_slice());
            push_str(&mut r, rep);
            let tail = sub_chars(&v, i + p.len(), v.len());
            let t = from_chars(tail.as_slice());
            push_str(&mut r, t.as_str());
            assert(head@ =~= v@.take(i as int));
            assert(tail@ =~= v@.skip(i + p@.len()));
            assert(t@ == tail@);
            assert(r@ == v@.take(i as int) + rep@ + v@.skip(i + p@.len()));
            let ghost k = choose|k: int| is_first_occurrence(v@, p@, k);
            assert(is_first_occurrence(v@, p@, k));
            assert(k == i);
            return r;
        }
        i += 1;
    }
    assert(!exists|k: int| is_first_occurrence(v@, p@, k)) by {
        assert forall|k: int| !is_first_occurrence(v@, p@, k) by {
            if 0 <= k <= v@.len() && starts_with(v@.skip(k), p@) {
                assert(k < i || k == v@.len());
            }
        }
    }
    s.to_owned()
}

/// The parts put together with `sep` between each two (what `join` gives).
pub open spec fn joined(parts: Seq<Seq<char>>, sep: Seq<char>) -> Seq<char>
    decreases parts.len(),
{
    if parts.len() == 0 {
        seq![]
    } else if parts.len() == 1 {
        parts[0]
    } else {
        joined(parts.drop_last(), sep) + sep + parts.last()
    }
}

/// The strings of `parts` put together with `sep` between each two.
pub fn join_strings(parts: &Vec<String>, sep: &str) -> (r: String)
    ensures
        r@ == joined(parts@.map_values(|s: String| s@), sep@),
{
    let ghost ps = parts@.map_values(|s: String| s@);
    let mut r = String::new();
    let mut i: usize = 0;
    assert(ps.take(0) =~= seq![]);
    while i < parts.len()
        invariant
            i <= parts@.len(),
            ps == parts@.map_values(|s: String| s@),
            r@ == joined(ps.take(i as int), sep@),
        decreases parts@.len() - i,
    {
        assert(ps.take(i + 1).drop_last() =~= ps.take(i as int));
        assert(ps.take(i + 1).last() == parts@[i as int]@);
        if i > 0 {
            push_str(&mut r, sep);
        } else {
            assert(ps.take(1)[0] == parts@[0]@);
        }
        push_str(&mut r, parts[i].as_str());
        i += 1;
    }
    assert(ps.take(i as int) =~= ps);
    r
}

} // verus!
