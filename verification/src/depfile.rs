//! Reading the dependency files (`-MMD -MP` output) the compiler writes
use vstd::prelude::*;

use crate::flags::strs;
use crate::text::{from_chars, sub_chars, to_chars};

verus! {

/// What `char::is_whitespace` holds for: the Unicode `White_Space` property.
pub open spec fn is_ws(c: char) -> bool {
    ||| c == ' '
    ||| ('\t' <= c && c <= '\r')
    ||| c == '\u{85}'
    ||| c == '\u{a0}'
    ||| c == '\u{1680}'
    ||| ('\u{2000}' <= c && c <= '\u{200a}')
    ||| c == '\u{2028}'
    ||| c == '\u{2029}'
    ||| c == '\u{202f}'
    ||| c == '\u{205f}'
    ||| c == '\u{3000}'
}

/// Whether `c` is white space (the Unicode `White_Space` property)
pub fn is_whitespace(c: char) -> (r: bool)
    ensures
        r == is_ws(c),
{
    c == ' ' || ('\t' <= c && c <= '\r') || c == '\u{85}' || c == '\u{a0}' || c == '\u{1680}' || ('\u{2000}' <= c
        && c <= '\u{200a}') || c == '\u{2028}' || c == '\u{2029}' || c == '\u{202f}' || c == '\u{205f}' || c
        == '\u{3000}'
}

/// `s` without its leading white space.
pub open spec fn trim_start(s: Seq<char>) -> Seq<char>
    decreases s.len(),
{
    if s.len() > 0 && is_ws(s[0]) {
        trim_start(s.skip(1))
    } else {
        s
    }
}

/// `s` without its trailing white space.
pub open spec fn trim_end(s: Seq<char>) -> Seq<char>
    decreases s.len(),
{
    if s.len() > 0 && is_ws(s.last()) {
        trim_end(s.drop_last())
    } else {
        s
    }
}

/// `s` without its trailing backslashes.
pub open spec fn trim_end_backslashes(s: Seq<char>) -> Seq<char>
    decreases s.len(),
{
    if s.len() > 0 && s.last() == '\\' {
        trim_end_backslashes(s.drop_last())
    } else {
        s
    }
}

/// A depfile line with surrounding white space and the trailing line
/// continuation removed.
pub open spec fn clean_line(line: Seq<char>) -> Seq<char> {
    trim_end(trim_end_backslashes(trim_end(trim_start(line))))
}

/// `s` split at each space (what `str::split(' ')` yields).
pub open spec fn split_spaces(s: Seq<char>) -> Seq<Seq<char>>
    decreases s.len(),
{
    match crate::text::first_of(s, ' ') {
        None => seq![s],
        Some(i) => seq![s.take(i)] + split_spaces(s.skip(i + 1)),
    }
}

/// The file names in the pieces of a line, given the escaped-space prefix `buf`
/// carried in; and the prefix carried out. A piece ending with a backslash is an
/// escaped space: it is kept, with a space, for the next name.
pub open spec fn names_in(pieces: Seq<Seq<char>>, buf: Seq<char>) -> (Seq<Seq<char>>, Seq<char>)
    decreases pieces.len(),
{
    if pieces.len() == 0 {
        (seq![], buf)
    } else {
        let p = pieces[0];
        if p.len() > 0 && p.last() == '\\' {
            names_in(pieces.skip(1), buf + p.drop_last() + " "@)
        } else {
            let rest = names_in(pieces.skip(1), seq![]);
            (seq![buf + p] + rest.0, rest.1)
        }
    }
}

/// The dependency names on `lines` (the lines after the target line), up to the
/// first line that ends a rule (with `:`).
pub open spec fn deps_from(lines: Seq<Seq<char>>, buf: Seq<char>) -> Seq<Seq<char>>
    decreases lines.len(),
{
    if lines.len() == 0 {
        seq![]
    } else {
        let part = clean_line(lines[0]);
        if part.len() > 0 && part.last() == ':' {
            seq![]
        } else {
            let r = names_in(split_spaces(part), buf);
            r.0 + deps_from(lines.skip(1), r.1)
        }
    }
}

/// The dependencies a depfile lists for its first target (the first line is the
/// target itself).
pub open spec fn depfile_deps(lines: Seq<Seq<char>>) -> Seq<Seq<char>> {
    if lines.len() == 0 {
        seq![]
    } else {
        deps_from(lines.skip(1), seq![])
    }
}

fn trim_bounds(v: &Vec<char>) -> (r: Vec<char>)
    ensures
        r@ == clean_line(v@),
{
    let mut a: usize = 0;
    assert(v@.skip(0) =~= v@);
    while a < v.len() && is_whitespace(v[a])
        invariant
            a <= v.len(),
            trim_start(v@.skip(a as int)) == trim_start(v@),
        decreases v.len() - a,
    {
        assert(v@.skip(a as int).skip(1) =~= v@.skip(a + 1));
        a += 1;
    }
    let t = sub_chars(v, a, v.len());
    assert(t@ == v@.skip(a as int));
    assert(t@ == trim_start(v@));
    let mut e = t.len();
    assert(t@.take(e as int) =~= t@);
    while e > 0 && is_whitespace(t[e - 1])
        invariant
            e <= t.len(),
            trim_end(t@.take(e as int)) == trim_end(t@),
        decreases e,
    {
        assert(t@.take(e as int).drop_last() =~= t@.take(e - 1));
        e -= 1;
    }
    let ghost t1 = t@.take(e as int);
    assert(trim_end(t1) == t1);
    while e > 0 && t[e - 1] == '\\'
        invariant
            e <= t.len(),
            trim_end_backslashes(t@.take(e as int)) == trim_end_backslashes(t1),
        decreases e,
    {
        assert(t@.take(e as int).drop_last() =~= t@.take(e - 1));
        e -= 1;
    }
    let ghost t2 = t@.take(e as int);
    assert(trim_end_backslashes(t2) == t2);
    while e > 0 && is_whitespace(t[e - 1])
        invariant
            e <= t.len(),
            trim_end(t@.take(e as int)) == trim_end(t2),
        decreases e,
    {
        assert(t@.take(e as int).drop_last() =~= t@.take(e - 1));
        e -= 1;
    }
    assert(trim_end(t@.take(e as int)) == t@.take(e as int));
    sub_chars(&t, 0, e)
}

/// The pieces of `v` split at each space
fn split_at_spaces(v: &Vec<char>) -> (r: Vec<Vec<char>>)
    ensures
        r@.map_values(|p: Vec<char>| p@) == split_spaces(v@),
{
    let mut r: Vec<Vec<char>> = Vec::new();
    let mut start: usize = 0;
    assert(v@.skip(0) =~= v@);
    while true
        invariant
            start <= v.len(),
            r@.map_values(|p: Vec<char>| p@) + split_spaces(v@.skip(start as int)) == split_spaces(v@),
        decreases v.len() - start,
    {
        let ghost rest = v@.skip(start as int);
        match crate::text::find_char_from(v, ' ', start) {
            None => {
                let piece = sub_chars(v, start, v.len());
                r.push(piece);
                assert(crate::text::first_of(rest, ' ') is None);
                assert(r@.map_values(|p: Vec<char>| p@) =~= split_spaces(v@));
                return r;
            },
            Some(k) => {
                let piece = sub_chars(v, start, k);
                r.push(piece);
                assert(rest.take(k - start) =~= v@.subrange(start as int, k as int));
                assert(rest.skip(k - start + 1) =~= v@.skip(k + 1));
                assert(r@.map_values(|p: Vec<char>| p@) + split_spaces(v@.skip(k + 1)) =~= split_spaces(v@));
                start = k + 1;
            },
        }
    }
    r
}

/// The dependencies a depfile lists for its first target.
///
/// Assumes what `-MMD -MP` writes: the first rule is the target, its first
/// line is the target alone, dependencies may share a line and spaces in
/// names are escaped with a backslash
pub fn depfile_dependencies(lines: &Vec<String>) -> (r: Vec<String>)
    ensures
        strs(r) == depfile_deps(strs(*lines)),
{
    let mut out: Vec<String> = Vec::new();
    if lines.len() == 0 {
        assert(strs(out) =~= seq![]);
        return out;
    }
    let ghost all = strs(*lines).skip(1);
    let mut buf: Vec<char> = Vec::new();
    let mut i: usize = 1;
    assert(strs(*lines).skip(1).skip(0) =~= all);
    while i < lines.len()
        invariant
            1 <= i <= lines.len(),
            all == strs(*lines).skip(1),
            strs(out) + deps_from(all.skip(i - 1), buf@) == deps_from(all, seq![]),
        decreases lines.len() - i,
    {
        let ghost rest = all.skip(i - 1);
        assert(rest[0] == lines@[i as int]@);
        let v = to_chars(lines[i].as_str());
        let part = trim_bounds(&v);
        if part.len() > 0 && part[part.len() - 1] == ':' {
            assert(strs(out) =~= deps_from(all, seq![]));
            return out;
        }
        let pieces = split_at_spaces(&part);
        let ghost ps = pieces@.map_values(|p: Vec<char>| p@);
        let ghost b0 = buf@;
        let mut j: usize = 0;
        let ghost o0 = strs(out);
        assert(ps.skip(0) =~= ps);
        while j < pieces.len()
            invariant
                j <= pieces.len(),
                ps == pieces@.map_values(|p: Vec<char>| p@),
                o0 + names_in(ps, b0).0 == strs(out) + names_in(ps.skip(j as int), buf@).0,
                names_in(ps, b0).1 == names_in(ps.skip(j as int), buf@).1,
            decreases pieces.len() - j,
        {
            let p = &pieces[j];
            assert(ps.skip(j as int)[0] == p@);
            assert(ps.skip(j as int).skip(1) =~= ps.skip(j + 1));
            if p.len() > 0 && p[p.len() - 1] == '\\' {
                let mut k: usize = 0;
                let ghost bb = buf@;
                while k + 1 < p.len()
                    invariant
                        k + 1 <= p.len(),
                        buf@ == bb + p@.take(k as int),
                    decreases p.len() - k,
                {
                    buf.push(p[k]);
                    assert(p@.take(k + 1) =~= p@.take(k as int).push(p@[k as int]));
                    k += 1;
                }
                buf.push(' ');
                assert(p@.take(k as int) =~= p@.drop_last());
                assert(buf@ =~= bb + p@.drop_last() + " "@) by {
                    reveal_strlit(" ");
                }
            } else {
                let mut name: Vec<char> = Vec::new();
                let mut k: usize = 0;
                while k < buf.len()
                    invariant
                        k <= buf.len(),
                        name@ == buf@.take(k as int),
                    decreases buf.len() - k,
                {
                    name.push(buf[k]);
                    assert(buf@.take(k + 1) =~= buf@.take(k as int).push(buf@[k as int]));
                    k += 1;
                }
                let mut k2: usize = 0;
                while k2 < p.len()
                    invariant
                        k2 <= p.len(),
                        name@ == buf@ + p@.take(k2 as int),
                    decreases p.len() - k2,
                {
                    name.push(p[k2]);
                    assert(p@.take(k2 + 1) =~= p@.take(k2 as int).push(p@[k2 as int]));
                    k2 += 1;
                }
                assert(buf@.take(buf@.len() as int) =~= buf@);
                assert(p@.take(p@.len() as int) =~= p@);
                out.push(from_chars(name.as_slice()));
                buf = Vec::new();
                assert(strs(out) =~= strs(out).drop_last().push(name@));
            }
            j += 1;
        }
        assert(ps.skip(pieces.len() as int) =~= Seq::<Seq<char>>::empty());
        assert(all.skip(i - 1).skip(1) =~= all.skip(i as int));
        i += 1;
    }
    assert(all.skip(i - 1) =~= Seq::<Seq<char>>::empty());
    out
}

} // verus!
