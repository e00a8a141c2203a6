//! Checks of a linked module: reading the symbol tables that `objdump -T`
//! prints, the disassembly that `objdump -d` prints, finding the symbols the
//! module needs but nothing provides, and the instructions it must not use.
use vstd::prelude::*;

use crate::config::contains_string;
use crate::order::StringSet;
use crate::flags::strs;
use crate::text::{find_char_from, first_of, push_str, str_eq, sub_string, to_chars};
use crate::utf8::{byte_prefix_chars, chars_before, is_char_boundary, utf8_len};

verus! {

/// Why a check could not be done
#[derive(Debug, Clone, PartialEq, Eq)]
pub enum CheckError {
    /// A line of the symbol table named by the string could not be read
    ParseSymbols(String),
    /// A pattern of disallowed instructions is not a valid regular expression
    ParseInstRegex,
}

/// Where the symbol names of a symbol table begin in a symbol table line.
pub open spec fn name_column() -> nat {
    25
}

/// What a line of a symbol table holds: `None` for a line too short to hold a
/// symbol, `Some(None)` for a line that cannot be read, else the symbol: what
/// follows the first space after the name column.
pub open spec fn symbol_in_line(line: Seq<char>) -> Option<Option<Seq<char>>> {
    if utf8_len(line) <= name_column() {
        None
    } else {
        let rest = line.skip(chars_before(line, name_column()));
        match first_of(rest, ' ') {
            Some(i) => Some(Some(rest.skip(i + 1))),
            None => Some(None),
        }
    }
}

/// The line that starts the symbol table in the output of `objdump -T`.
pub open spec fn table_header() -> Seq<char> {
    "DYNAMIC SYMBOL TABLE:"@
}

/// `i` is the first line that starts the symbol table.
pub open spec fn is_first_header(lines: Seq<Seq<char>>, i: int) -> bool {
    &&& 0 <= i < lines.len()
    &&& lines[i] == table_header()
    &&& forall|j: int| 0 <= j < i ==> lines[j] != table_header()
}

/// The first line after the line that starts the symbol table (the end when
/// there is no such line).
pub open spec fn table_start(lines: Seq<Seq<char>>) -> int {
    if exists|i: int| is_first_header(lines, i) {
        (choose|i: int| is_first_header(lines, i)) + 1
    } else {
        lines.len() as int
    }
}

/// The symbols of the lines of a symbol table, in order; `None` when a line
/// cannot be read.
pub open spec fn table_symbols(table: Seq<Seq<char>>) -> Option<Seq<Seq<char>>>
    decreases table.len(),
{
    if table.len() == 0 {
        Some(seq![])
    } else {
        match table_symbols(table.drop_last()) {
            None => None,
            Some(found) => match symbol_in_line(table.last()) {
                None => Some(found),
                Some(None) => None,
                Some(Some(s)) => Some(found.push(s)),
            },
        }
    }
}

/// Every line of the table long enough to hold a symbol can be cut at the name column.
pub open spec fn table_lines_cuttable(lines: Seq<Seq<char>>) -> bool {
    forall|i: int|
        table_start(lines) <= i < lines.len() && utf8_len(#[trigger] lines[i]) > name_column()
            ==> is_char_boundary(lines[i], name_column())
}

/// The symbol a line of a symbol table holds (see [`symbol_in_line`]).
pub fn symbol_of_line(line: &str) -> (r: Option<Option<String>>)
    requires
        utf8_len(line@) > name_column() ==> is_char_boundary(line@, name_column()),
    ensures
        match symbol_in_line(line@) {
            None => r is None,
            Some(None) => r == Some(None::<String>),
            Some(Some(s)) => r is Some && r->0 is Some && r->0->0@ == s,
        },
{
    let v = to_chars(line);
    let k = match byte_prefix_chars(&v, 25) {
        None => {
            return None;
        },
        Some(k) => k,
    };
    let ghost rest = line@.skip(k as int);
    match find_char_from(&v, ' ', k) {
        Some(i) => {
            let s = sub_string(&v, i + 1, v.len());
            proof {
                assert(first_of(rest, ' ') == Some(i - k));
                assert(s@ =~= rest.skip(i - k + 1));
            }
            Some(Some(s))
        },
        None => Some(None),
    }
}

/// A table whose first `k` lines cannot be read cannot be read.
proof fn lemma_table_fails_with_prefix(table: Seq<Seq<char>>, k: int)
    requires
        0 <= k <= table.len(),
        table_symbols(table.take(k)) is None,
    ensures
        table_symbols(table) is None,
    decreases table.len() - k,
{
    if k == table.len() {
        assert(table.take(k) =~= table);
    } else {
        assert(table.take(k + 1).drop_last() =~= table.take(k));
        lemma_table_fails_with_prefix(table, k + 1);
    }
}

/// The symbols listed in a symbol table printed by `objdump -T`: the lines
/// after the one that starts the table; fails, naming the listing `id`, on a
/// line that holds no symbol.
pub fn process_objdump_syms(id: &str, lines: &Vec<String>) -> (r: Result<Vec<String>, CheckError>)
    requires
        table_lines_cuttable(strs(*lines)),
    ensures
        match table_symbols(strs(*lines).skip(table_start(strs(*lines)))) {
            Some(syms) => r is Ok && strs(r->Ok_0) == syms,
            None => r is Err && (r->Err_0 matches CheckError::ParseSymbols(s) && s@ == id@),
        },
{
    let ghost ls = strs(*lines);
    let mut i: usize = 0;
    while i < lines.len() && !str_eq(lines[i].as_str(), "DYNAMIC SYMBOL TABLE:")
        invariant
            i <= lines@.len(),
            ls == strs(*lines),
            forall|j: int| 0 <= j < i ==> ls[j] != table_header(),
        decreases lines@.len() - i,
    {
        i += 1;
    }
    let start = if i < lines.len() {
        assert(is_first_header(ls, i as int));
        assert forall|k: int| is_first_header(ls, k) implies k == i by {
            if k < i {
            } else if k > i {
                assert(ls[i as int] == table_header());
            }
        }
        i + 1
    } else {
        assert(!exists|k: int| is_first_header(ls, k));
        i
    };
    assert(start == table_start(ls));
    let ghost table = ls.skip(start as int);
    let mut found: Vec<String> = Vec::new();
    let mut j: usize = start;
    assert(table.take(0) =~= seq![]);
    while j < lines.len()
        invariant
            start <= j <= lines@.len(),
            ls == strs(*lines),
            table == ls.skip(start as int),
            start == table_start(ls),
            table_lines_cuttable(ls),
            table_symbols(table.take(j - start)) == Some(strs(found)),
        decreases lines@.len() - j,
    {
        assert(ls[j as int] == lines@[j as int]@);
        let sym = symbol_of_line(lines[j].as_str());
        assert(table.take(j - start + 1).drop_last() =~= table.take(j - start));
        assert(table.take(j - start + 1).last() == ls[j as int]);
        let ghost before = strs(found);
        match sym {
            None => {},
            Some(None) => {
                proof {
                    lemma_table_fails_with_prefix(table, j - start + 1);
                }
                return Err(CheckError::ParseSymbols(id.to_owned()));
            },
            Some(Some(s)) => {
                found.push(s);
                assert(strs(found) =~= before.push(s@));
            },
        }
        j += 1;
    }
    assert(table.take(j - start) =~= table);
    Ok(found)
}

/// `i` is the first position of `s` where `a` is followed by `b`.
pub open spec fn is_first_pair(s: Seq<char>, a: char, b: char, i: int) -> bool {
    &&& 0 <= i && i + 1 < s.len()
    &&& s[i] == a && s[i + 1] == b
    &&& forall|j: int| 0 <= j < i ==> !(#[trigger] s[j] == a && s[j + 1] == b)
}

/// The first position of `s` where `a` is followed by `b`, if any.
pub open spec fn first_pair(s: Seq<char>, a: char, b: char) -> Option<int> {
    if exists|i: int| is_first_pair(s, a, b, i) {
        Some(choose|i: int| is_first_pair(s, a, b, i))
    } else {
        None
    }
}

/// The first position at or after `from` where `a` is followed by `b`.
fn find_pair(v: &Vec<char>, from: usize, a: char, b: char) -> (r: Option<usize>)
    requires
        from <= v.len(),
    ensures
        first_pair(v@.skip(from as int), a, b) == (match r { Some(i) => Some(i - from), None => None::<int> }),
        r is Some ==> from <= r->0 && r->0 + 1 < v@.len(),
{
    let ghost t = v@.skip(from as int);
    let mut i = from;
    while v.len() > 0 && i < v.len() - 1
        invariant
            from <= i <= v.len(),
            t == v@.skip(from as int),
            forall|j: int| 0 <= j < i - from ==> !(#[trigger] t[j] == a && t[j + 1] == b),
        decreases v.len() - i,
    {
        if v[i] == a && v[i + 1] == b {
            assert(t[i - from] == v@[i as int] && t[i - from + 1] == v@[i + 1]);
            assert(is_first_pair(t, a, b, i - from));
            assert forall|k: int| is_first_pair(t, a, b, k) implies k == i - from by {
                if k > i - from {
                    assert(t[i - from] == a && t[i - from + 1] == b);
                }
            }
            return Some(i);
        }
        assert(t[i - from] == v@[i as int] && t[i - from + 1] == v@[i + 1]);
        i += 1;
    }
    assert(!exists|k: int| is_first_pair(t, a, b, k)) by {
        assert forall|k: int| !is_first_pair(t, a, b, k) by {
            if 0 <= k && k + 1 < t.len() && k >= i - from {
                assert(false);
            }
        }
    }
    None
}

/// The address and the instruction a line of `objdump -d` output shows: the
/// text before the first colon and tab, and the text after the first space and
/// tab that follows them.
pub open spec fn instruction_in_line(line: Seq<char>) -> Option<(Seq<char>, Seq<char>)> {
    match first_pair(line, ':', '\t') {
        None => None,
        Some(i) => {
            let rest = line.skip(i + 2);
            match first_pair(rest, ' ', '\t') {
                None => None,
                Some(j) => Some((line.take(i), rest.skip(j + 2))),
            }
        },
    }
}

/// The instructions shown by the lines of `objdump -d` output, in order.
pub open spec fn listing_instructions(lines: Seq<Seq<char>>) -> Seq<(Seq<char>, Seq<char>)>
    decreases lines.len(),
{
    if lines.len() == 0 {
        seq![]
    } else {
        let before = listing_instructions(lines.drop_last());
        match instruction_in_line(lines.last()) {
            Some(inst) => before.push(inst),
            None => before,
        }
    }
}

/// Address and instruction pairs, as character sequences.
pub open spec fn inst_views(v: Seq<(String, String)>) -> Seq<(Seq<char>, Seq<char>)> {
    v.map_values(|p: (String, String)| (p.0@, p.1@))
}

/// The instruction a line of `objdump -d` output shows.
pub fn instruction_of_line(line: &str) -> (r: Option<(String, String)>)
    ensures
        match instruction_in_line(line@) {
            None => r is None,
            Some(inst) => match r {
                Some(p) => p.0@ == inst.0 && p.1@ == inst.1,
                None => false,
            },
        },
{
    let v = to_chars(line);
    assert(v@.skip(0) =~= v@);
    let i = match find_pair(&v, 0, ':', '\t') {
        Some(i) => i,
        None => {
            return None;
        },
    };
    let ghost rest = v@.skip(i + 2);
    let j = match find_pair(&v, i + 2, ' ', '\t') {
        Some(j) => j,
        None => {
            return None;
        },
    };
    assert(first_pair(line@, ':', '\t') == Some(i as int));
    assert(first_pair(rest, ' ', '\t') == Some(j - (i + 2)));
    let addr = sub_string(&v, 0, i);
    let inst = sub_string(&v, j + 2, v.len());
    assert(addr@ =~= v@.take(i as int));
    assert(inst@ =~= rest.skip(j - (i + 2) + 2));
    Some((addr, inst))
}

/// The address and instruction pairs shown in the output of `objdump -d`.
pub fn process_objdump_insts(lines: &Vec<String>) -> (r: Vec<(String, String)>)
    ensures
        inst_views(r@) == listing_instructions(strs(*lines)),
{
    let ghost ls = strs(*lines);
    let mut r: Vec<(String, String)> = Vec::new();
    let mut i: usize = 0;
    assert(ls.take(0) =~= seq![]);
    while i < lines.len()
        invariant
            i <= lines@.len(),
            ls == strs(*lines),
            inst_views(r@) == listing_instructions(ls.take(i as int)),
        decreases lines@.len() - i,
    {
        assert(ls.take(i + 1).drop_last() =~= ls.take(i as int));
        assert(ls.take(i + 1).last() == lines@[i as int]@);
        let ghost before = inst_views(r@);
        match instruction_of_line(lines[i].as_str()) {
            Some(inst) => {
                r.push(inst);
                assert(inst_views(r@) =~= before.push((r@.last().0@, r@.last().1@)));
            },
            None => {},
        }
        i += 1;
    }
    assert(ls.take(i as int) =~= ls);
    r
}

/// The symbols of `elf` that are neither in `ignore` nor in `loaded`, in order.
pub open spec fn missing_from(loaded: Seq<Seq<char>>, elf: Seq<Seq<char>>, ignore: Seq<Seq<char>>) -> Seq<Seq<char>>
    decreases elf.len(),
{
    if elf.len() == 0 {
        seq![]
    } else {
        let before = missing_from(loaded, elf.drop_last(), ignore);
        if ignore.contains(elf.last()) || loaded.contains(elf.last()) {
            before
        } else {
            before.push(elf.last())
        }
    }
}

/// The symbols the linked module needs (`elf`) that no symbol file provides
/// (`loaded`) and that are not ignored, in the order the module lists them.
pub fn find_missing_symbols(loaded: &Vec<String>, elf: &Vec<String>, ignore: &Vec<String>) -> (r: Vec<String>)
    ensures
        strs(r) == missing_from(strs(*loaded), strs(*elf), strs(*ignore)),
{
    let ghost es = strs(*elf);
    let provided = StringSet::from_strings(loaded);
    let mut r: Vec<String> = Vec::new();
    let mut i: usize = 0;
    assert(es.take(0) =~= seq![]);
    while i < elf.len()
        invariant
            i <= elf@.len(),
            es == strs(*elf),
            provided.wf(),
            forall|s: Seq<char>| #[trigger] provided.contents().contains(s) <==> strs(*loaded).contains(s),
            strs(r) == missing_from(strs(*loaded), es.take(i as int), strs(*ignore)),
        decreases elf@.len() - i,
    {
        assert(es.take(i + 1).drop_last() =~= es.take(i as int));
        assert(es.take(i + 1).last() == elf@[i as int]@);
        let s = elf[i].as_str();
        if !contains_string(ignore, s) && !provided.contains(s) {
            let ghost before = strs(r);
            r.push(elf[i].clone());
            assert(strs(r) =~= before.push(elf@[i as int]@));
        }
        i += 1;
    }
    assert(es.take(i as int) =~= es);
    r
}

#[verifier::external_type_specification]
#[verifier::external_body]
pub struct ExRegex(regex::Regex);

#[verifier::external_type_specification]
#[verifier::external_body]
pub struct ExRegexError(regex::Error);

/// Whether `regex::Regex::new` accepts `pattern`.
pub uninterp spec fn regex_compiles(pattern: Seq<char>) -> bool;

/// Whether `regex::Regex::is_match` finds a match of the regular expression
/// `pattern` in `text`.
pub uninterp spec fn regex_matches(pattern: Seq<char>, text: Seq<char>) -> bool;

/// A compiled regular expression, with the pattern it was compiled from
pub struct Pattern {
    regex: regex::Regex,
    source: String,
}

impl Pattern {
    /// The pattern this was compiled from.
    pub closed spec fn source(&self) -> Seq<char> {
        self.source@
    }

    /// The pattern this was compiled from.
    pub fn as_str(&self) -> (r: &str)
        ensures
            r@ == self.source(),
    {
        self.source.as_str()
    }
}

/// Compiles `pattern` with `regex::Regex::new`: trusted to succeed exactly when
/// [`regex_compiles`] holds of the pattern, and to keep the pattern.
#[verifier::external_body]
fn compile_regex(pattern: &str) -> (r: Result<Pattern, regex::Error>)
    ensures
        r is Ok <==> regex_compiles(pattern@),
        r is Ok ==> r->Ok_0.source() == pattern@,
{
    match regex::Regex::new(pattern) {
        Ok(regex) => Ok(Pattern { regex, source: pattern.to_string() }),
        Err(e) => Err(e),
    }
}

/// Searches `text` with `regex::Regex::is_match`: trusted to give
/// [`regex_matches`] of the compiled pattern and the text.
#[verifier::external_body]
fn regex_is_match(pattern: &Pattern, text: &str) -> (r: bool)
    ensures
        r == regex_matches(pattern.source(), text@),
{
    pattern.regex.is_match(text)
}

/// The default patterns of disallowed instructions, those that make the
/// console abort. The two `mrs` patterns hold `\.*`, a run of literal dots,
/// so they match text such as `mrsdaif` but not objdump's `mrs x0, daif`.
pub open spec fn default_disallowed() -> Seq<Seq<char>> {
    seq![
        "^msr\\s*spsel"@,
        "^msr\\s*daifset"@,
        "^mrs\\.*daif"@,
        "^mrs\\.*tpidr_el1"@,
        "^msr\\s*tpidr_el1"@,
        "^hlt"@,
    ]
}

/// The patterns of disallowed instructions: the default ones, then `extra`.
pub fn disallowed_patterns(extra: &Vec<String>) -> (r: Vec<String>)
    ensures
        strs(r) == default_disallowed() + strs(*extra),
{
    let mut r: Vec<String> = Vec::new();
    r.push("^msr\\s*spsel".to_owned());
    r.push("^msr\\s*daifset".to_owned());
    r.push("^mrs\\.*daif".to_owned());
    r.push("^mrs\\.*tpidr_el1".to_owned());
    r.push("^msr\\s*tpidr_el1".to_owned());
    r.push("^hlt".to_owned());
    let ghost d = strs(r);
    assert(d =~= default_disallowed());
    let mut i: usize = 0;
    while i < extra.len()
        invariant
            i <= extra@.len(),
            strs(r) == d + strs(*extra).take(i as int),
        decreases extra@.len() - i,
    {
        let ghost before = strs(r);
        r.push(extra[i].clone());
        assert(strs(r) =~= before.push(extra@[i as int]@));
        assert(strs(*extra).take(i + 1) =~= strs(*extra).take(i as int).push(extra@[i as int]@));
        i += 1;
    }
    assert(strs(*extra).take(i as int) =~= strs(*extra));
    r
}

/// The patterns compiled, in order; fails when one is not a valid regular expression.
pub fn compile_patterns(patterns: &Vec<String>) -> (r: Result<Vec<Pattern>, CheckError>)
    ensures
        r is Ok <==> forall|i: int| 0 <= i < patterns@.len() ==> regex_compiles(#[trigger] patterns@[i]@),
        r is Ok ==> r->Ok_0@.len() == patterns@.len() && forall|i: int|
            0 <= i < patterns@.len() ==> (#[trigger] r->Ok_0@[i]).source() == patterns@[i]@,
        r is Err ==> r->Err_0 == CheckError::ParseInstRegex,
{
    let mut r: Vec<Pattern> = Vec::new();
    let mut i: usize = 0;
    while i < patterns.len()
        invariant
            i <= patterns@.len(),
            r@.len() == i,
            forall|k: int| 0 <= k < i ==> regex_compiles(#[trigger] patterns@[k]@),
            forall|k: int| 0 <= k < i ==> (#[trigger] r@[k]).source() == patterns@[k]@,
        decreases patterns@.len() - i,
    {
        match compile_regex(patterns[i].as_str()) {
            Ok(p) => r.push(p),
            Err(_) => {
                return Err(CheckError::ParseInstRegex);
            },
        }
        i += 1;
    }
    Ok(r)
}

/// The report line of each flagged instruction (`address: instruction`), in order.
pub open spec fn flagged_lines(insts: Seq<(Seq<char>, Seq<char>)>, flagged: Seq<bool>) -> Seq<Seq<char>>
    decreases insts.len(),
{
    if insts.len() == 0 {
        seq![]
    } else {
        let before = flagged_lines(insts.drop_last(), flagged.take(insts.len() - 1));
        if flagged[insts.len() - 1] {
            before.push(insts.last().0 + ": "@ + insts.last().1)
        } else {
            before
        }
    }
}

/// The report lines of the instructions that are flagged.
pub fn flagged_instructions(insts: &Vec<(String, String)>, flagged: &Vec<bool>) -> (r: Vec<String>)
    requires
        flagged@.len() == insts@.len(),
    ensures
        strs(r) == flagged_lines(inst_views(insts@), flagged@),
{
    let ghost iv = inst_views(insts@);
    let mut r: Vec<String> = Vec::new();
    let mut i: usize = 0;
    assert(iv.take(0) =~= seq![]);
    while i < insts.len()
        invariant
            i <= insts@.len(),
            flagged@.len() == insts@.len(),
            iv == inst_views(insts@),
            strs(r) == flagged_lines(iv.take(i as int), flagged@.take(i as int)),
        decreases insts@.len() - i,
    {
        assert(iv.take(i + 1).drop_last() =~= iv.take(i as int));
        assert(flagged@.take(i + 1).take(i as int) =~= flagged@.take(i as int));
        assert(iv.take(i + 1).last() == iv[i as int]);
        if flagged[i] {
            let mut line = insts[i].0.clone();
            push_str(&mut line, ": ");
            push_str(&mut line, insts[i].1.as_str());
            let ghost before = strs(r);
            r.push(line);
            assert(strs(r) =~= before.push(iv[i as int].0 + ": "@ + iv[i as int].1));
        }
        i += 1;
    }
    assert(iv.take(i as int) =~= iv);
    assert(flagged@.take(i as int) =~= flagged@);
    r
}

/// Whether some pattern of `patterns` matches `text`.
pub open spec fn matches_any(patterns: Seq<Pattern>, text: Seq<char>) -> bool {
    exists|j: int| 0 <= j < patterns.len() && regex_matches(#[trigger] patterns[j].source(), text)
}

/// The report lines of the instructions that some pattern matches.
pub fn find_disallowed(insts: &Vec<(String, String)>, patterns: &Vec<Pattern>) -> (r: Vec<String>)
    ensures
        strs(r) == flagged_lines(
            inst_views(insts@),
            Seq::new(insts@.len(), |i: int| matches_any(patterns@, insts@[i].1@)),
        ),
{
    let mut flagged: Vec<bool> = Vec::new();
    let mut i: usize = 0;
    while i < insts.len()
        invariant
            i <= insts@.len(),
            flagged@.len() == i,
            forall|k: int| 0 <= k < i ==> #[trigger] flagged@[k] == matches_any(patterns@, insts@[k].1@),
        decreases insts@.len() - i,
    {
        let mut hit = false;
        let mut j: usize = 0;
        while j < patterns.len()
            invariant
                i < insts@.len(),
                j <= patterns@.len(),
                flagged@.len() == i,
                forall|k: int| 0 <= k < i ==> #[trigger] flagged@[k] == matches_any(patterns@, insts@[k].1@),
                hit == exists|k: int| 0 <= k < j && regex_matches(#[trigger] patterns@[k].source(), insts@[i as int].1@),
            decreases patterns@.len() - j,
        {
            if !hit && regex_is_match(&patterns[j], insts[i].1.as_str()) {
                hit = true;
            }
            j += 1;
        }
        flagged.push(hit);
        i += 1;
    }
    assert(flagged@ =~= Seq::new(insts@.len(), |i: int| matches_any(patterns@, insts@[i].1@)));
    flagged_instructions(insts, &flagged)
}


/// A symbol is reported missing exactly when the module needs it, nothing
/// provides it, and it is not ignored.
pub proof fn lemma_missing_exactly(
    loaded: Seq<Seq<char>>,
    elf: Seq<Seq<char>>,
    ignore: Seq<Seq<char>>,
    s: Seq<char>,
)
    ensures
        missing_from(loaded, elf, ignore).contains(s) <==> (elf.contains(s) && !ignore.contains(s)
            && !loaded.contains(s)),
    decreases elf.len(),
{
    if elf.len() > 0 {
        let dl = elf.drop_last();
        let x = elf.last();
        lemma_missing_exactly(loaded, dl, ignore, s);
        let before = missing_from(loaded, dl, ignore);
        assert(elf =~= dl.push(x));
        assert(elf.contains(s) <==> (dl.contains(s) || x == s)) by {
            if elf.contains(s) {
                let k = choose|k: int| 0 <= k < elf.len() && elf[k] == s;
                if k < dl.len() {
                    assert(dl[k] == s);
                }
            }
            if dl.contains(s) {
                let k = choose|k: int| 0 <= k < dl.len() && dl[k] == s;
                assert(elf[k] == s);
            }
            if x == s {
                assert(elf[elf.len() - 1] == s);
            }
        }
        assert(before.push(x).contains(s) <==> (before.contains(s) || x == s)) by {
            let bp = before.push(x);
            if bp.contains(s) {
                let k = choose|k: int| 0 <= k < bp.len() && bp[k] == s;
                if k < before.len() {
                    assert(before[k] == s);
                }
            }
            if before.contains(s) {
                let k = choose|k: int| 0 <= k < before.len() && before[k] == s;
                assert(bp[k] == s);
            }
            if x == s {
                assert(bp[bp.len() - 1] == s);
            }
        }
    }
}

} // verus!
