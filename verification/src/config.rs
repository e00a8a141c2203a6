//! Config structures of Megaton.toml and the rules that select and merge profiles
use vstd::prelude::*;

use crate::flags::{copy_strings, extend_strings, opt_strs, strs, FlagConfig, FlagConfigView, Unused};
use crate::hex::{hex16, to_hex16};
use crate::text::str_eq;

use crate::env::{lines_of, say, Diagnostic, Line, Tone};

verus! {

// ---------------------------------------------------------------------------
// merging flag lists
// ---------------------------------------------------------------------------

/// `dst` followed by each flag of `src` that is not already present
/// (checked against the list as it grows).
pub open spec fn merge_unique(dst: Seq<Seq<char>>, src: Seq<Seq<char>>) -> Seq<Seq<char>>
    decreases src.len(),
{
    if src.len() == 0 {
        dst
    } else {
        let m = merge_unique(dst, src.drop_last());
        if m.contains(src.last()) {
            m
        } else {
            m.push(src.last())
        }
    }
}

/// The flag list of a base profile after it is extended with the list of another.
///
/// An absent base list stands for `["<default>"]`, so the marker is added to an
/// extending list that lacks it.
pub open spec fn extended_flags(dst: Option<Seq<Seq<char>>>, src: Option<Seq<Seq<char>>>) -> Option<Seq<Seq<char>>> {
    match src {
        None => dst,
        Some(f) => match dst {
            None => Some(
                if f.contains("<default>"@) {
                    f
                } else {
                    f.push("<default>"@)
                },
            ),
            Some(d) => Some(merge_unique(d, f)),
        },
    }
}

/// The value of a configuration switch that is on unless set.
pub fn default_true() -> (r: bool)
    ensures
        r,
{
    true
}

/// `v` holds a string equal to `s`.
pub fn contains_string(v: &Vec<String>, s: &str) -> (r: bool)
    ensures
        r == strs(*v).contains(s@),
{
    let mut i: usize = 0;
    while i < v.len()
        invariant
            i <= v.len(),
            forall|j: int| 0 <= j < i ==> strs(*v)[j] != s@,
        decreases v.len() - i,
    {
        if str_eq(v[i].as_str(), s) {
            assert(strs(*v)[i as int] == s@);
            return true;
        }
        i += 1;
    }
    false
}

/// Extend the flag list `dst` of a base profile with the list `src` of another profile
pub fn extend_flags(dst: &mut Option<Vec<String>>, src: &Option<Vec<String>>)
    ensures
        opt_strs(*final(dst)) == extended_flags(opt_strs(*old(dst)), opt_strs(*src)),
{
    match src {
        None => {},
        Some(src_flags) => {
            let merged = match &*dst {
                None => {
                    let mut new_flags = copy_strings(src_flags);
                    if !contains_string(&new_flags, "<default>") {
                        new_flags.push("<default>".to_owned());
                        assert(strs(new_flags) =~= strs(*src_flags).push("<default>"@));
                    }
                    new_flags
                },
                Some(dst_flags) => {
                    let mut out = copy_strings(dst_flags);
                    let mut i: usize = 0;
                    while i < src_flags.len()
                        invariant
                            i <= src_flags.len(),
                            strs(out) == merge_unique(strs(*dst_flags), strs(*src_flags).take(i as int)),
                        decreases src_flags.len() - i,
                    {
                        let ghost before = strs(out);
                        assert(strs(*src_flags).take(i + 1).drop_last() == strs(*src_flags).take(i as int));
                        assert(strs(*src_flags).take(i + 1).last() == src_flags@[i as int]@);
                        if !contains_string(&out, src_flags[i].as_str()) {
                            out.push(src_flags[i].clone());
                            assert(strs(out) =~= before.push(src_flags@[i as int]@));
                        }
                        i += 1;
                    }
                    assert(strs(*src_flags).take(src_flags.len() as int) == strs(*src_flags));
                    out
                },
            };
            *dst = Some(merged);
        },
    }
}

/// Merging keeps the base list in front: it only ever appends.
pub proof fn lemma_merge_unique_prefix(dst: Seq<Seq<char>>, src: Seq<Seq<char>>)
    ensures
        merge_unique(dst, src).len() >= dst.len(),
        merge_unique(dst, src).take(dst.len() as int) == dst,
    decreases src.len(),
{
    if src.len() > 0 {
        lemma_merge_unique_prefix(dst, src.drop_last());
        let m = merge_unique(dst, src.drop_last());
        assert(m.push(src.last()).take(dst.len() as int) =~= m.take(dst.len() as int));
    } else {
        assert(dst.take(dst.len() as int) =~= dst);
    }
}

/// After merging, every flag of either list is present.
pub proof fn lemma_merge_unique_covers(dst: Seq<Seq<char>>, src: Seq<Seq<char>>, f: Seq<char>)
    requires
        dst.contains(f) || src.contains(f),
    ensures
        merge_unique(dst, src).contains(f),
    decreases src.len(),
{
    if src.len() > 0 {
        let m = merge_unique(dst, src.drop_last());
        if dst.contains(f) || src.drop_last().contains(f) {
            lemma_merge_unique_covers(dst, src.drop_last(), f);
            if !m.contains(src.last()) {
                let k = choose|k: int| 0 <= k < m.len() && m[k] == f;
                assert(m.push(src.last())[k] == f);
            }
        } else {
            let k = choose|k: int| 0 <= k < src.len() && src[k] == f;
            if k < src.len() - 1 {
                assert(src.drop_last()[k] == f);
            }
            assert(src.last() == f);
            if !m.contains(src.last()) {
                assert(m.push(src.last())[m.len() as int] == f);
            }
        }
    }
}

/// Merging only adds flags taken from one of the two lists.
pub proof fn lemma_merge_unique_within(dst: Seq<Seq<char>>, src: Seq<Seq<char>>, f: Seq<char>)
    requires
        merge_unique(dst, src).contains(f),
    ensures
        dst.contains(f) || src.contains(f),
    decreases src.len(),
{
    if src.len() > 0 {
        let m = merge_unique(dst, src.drop_last());
        if m.contains(f) {
            lemma_merge_unique_within(dst, src.drop_last(), f);
            if src.drop_last().contains(f) {
                let k = choose|k: int| 0 <= k < src.drop_last().len() && src.drop_last()[k] == f;
                assert(src[k] == f);
            }
        } else {
            assert(src[src.len() - 1] == f);
        }
    }
}

/// Merging a base list without repeated flags gives a list without repeated flags.
pub proof fn lemma_merge_unique_no_duplicates(dst: Seq<Seq<char>>, src: Seq<Seq<char>>)
    requires
        dst.no_duplicates(),
    ensures
        merge_unique(dst, src).no_duplicates(),
    decreases src.len(),
{
    if src.len() > 0 {
        lemma_merge_unique_no_duplicates(dst, src.drop_last());
        let m = merge_unique(dst, src.drop_last());
        if !m.contains(src.last()) {
            let n = m.push(src.last());
            assert forall|i: int, j: int| 0 <= i < n.len() && 0 <= j < n.len() && i != j implies n[i] != n[j] by {
                if i == m.len() {
                    assert(m[j] == n[j]);
                } else if j == m.len() {
                    assert(m[i] == n[i]);
                }
            }
        }
    }
}

/// Merging a list a second time changes nothing: once a profile's flags are
/// merged in, they are all present.
pub proof fn lemma_merge_unique_idempotent(dst: Seq<Seq<char>>, src: Seq<Seq<char>>)
    ensures
        merge_unique(merge_unique(dst, src), src) == merge_unique(dst, src),
{
    let m = merge_unique(dst, src);
    assert forall|f: Seq<char>| src.contains(f) implies m.contains(f) by {
        lemma_merge_unique_covers(dst, src, f);
    }
    lemma_merge_unique_absorbs(m, src);
}

/// Merging flags that are all present already changes nothing.
pub proof fn lemma_merge_unique_absorbs(m: Seq<Seq<char>>, src: Seq<Seq<char>>)
    requires
        forall|f: Seq<char>| src.contains(f) ==> m.contains(f),
    ensures
        merge_unique(m, src) == m,
    decreases src.len(),
{
    if src.len() > 0 {
        assert forall|f: Seq<char>| src.drop_last().contains(f) implies m.contains(f) by {
            let k = choose|k: int| 0 <= k < src.drop_last().len() && src.drop_last()[k] == f;
            assert(src[k] == f);
        }
        lemma_merge_unique_absorbs(m, src.drop_last());
        assert(src[src.len() - 1] == src.last());
        assert(src.contains(src.last()));
    }
}

// ---------------------------------------------------------------------------
// profiles
// ---------------------------------------------------------------------------

/// A trait for extending a config section with a profile
pub trait Profilable: Sized + View {
    /// The content of a section after it is extended with another.
    spec fn extended(base: Self::V, other: Self::V) -> Self::V;

    /// Extend this config section with another
    fn extend(&mut self, other: &Self)
        ensures
            final(self)@ == Self::extended(old(self)@, other@),
    ;

    /// An equal copy of this section
    fn duplicate(&self) -> (r: Self)
        ensures
            r@ == self@,
    ;
}

/// The content of a flag configuration after it is extended with another:
/// each flag list is merged, unknown keys stay those of the base.
pub open spec fn extended_flag_config(a: FlagConfigView, b: FlagConfigView) -> FlagConfigView {
    FlagConfigView {
        common: extended_flags(a.common, b.common),
        c: extended_flags(a.c, b.c),
        cxx: extended_flags(a.cxx, b.cxx),
        as_: extended_flags(a.as_, b.as_),
        ld: extended_flags(a.ld, b.ld),
        unused: a.unused,
    }
}

impl Profilable for FlagConfig {
    open spec fn extended(base: FlagConfigView, other: FlagConfigView) -> FlagConfigView {
        extended_flag_config(base, other)
    }

    fn extend(&mut self, other: &Self) {
        extend_flags(&mut self.common, &other.common);
        extend_flags(&mut self.c, &other.c);
        extend_flags(&mut self.cxx, &other.cxx);
        extend_flags(&mut self.as_, &other.as_);
        extend_flags(&mut self.ld, &other.ld);
    }

    fn duplicate(&self) -> (r: Self) {
        self.clone()
    }
}

/// Config in the `[build]` section
#[derive(Debug, Default)]
pub struct Build {
    /// Whether to use libmegaton (default is true)
    ///
    /// If false, the module won't link with libmegaton
    /// and you won't be able to use megaton's runtime features.
    /// If libmegaton is not used, you also must set [`entry`](Self::entry) to the
    /// name of the entrypoint function
    pub libmegaton: bool,
    /// Entry point symbol for the module. Only used if `libmegaton` is false
    pub entry: Option<String>,
    /// C/C++ Source directories, relative to Megaton.toml
    pub sources: Vec<String>,
    /// C/C++ Include directories, relative to Megaton.toml
    pub includes: Vec<String>,
    /// Additional Library paths
    pub libpaths: Vec<String>,
    /// Additional Libraries to link with
    pub libraries: Vec<String>,
    /// Additional Linker scripts
    pub ldscripts: Vec<String>,
    /// Compiler and linker flags
    pub flags: FlagConfig,
    /// Unknown keys of the section
    pub unused: Unused,
}

/// The content of a `[build]` section
pub struct BuildView {
    pub libmegaton: bool,
    pub entry: Option<Seq<char>>,
    pub sources: Seq<Seq<char>>,
    pub includes: Seq<Seq<char>>,
    pub libpaths: Seq<Seq<char>>,
    pub libraries: Seq<Seq<char>>,
    pub ldscripts: Seq<Seq<char>>,
    pub flags: FlagConfigView,
    pub unused: Seq<Seq<char>>,
}

/// An optional string, as characters.
pub open spec fn opt_str(s: Option<String>) -> Option<Seq<char>> {
    match s {
        Some(s) => Some(s@),
        None => None,
    }
}

impl View for Build {
    type V = BuildView;

    open spec fn view(&self) -> BuildView {
        BuildView {
            libmegaton: self.libmegaton,
            entry: opt_str(self.entry),
            sources: strs(self.sources),
            includes: strs(self.includes),
            libpaths: strs(self.libpaths),
            libraries: strs(self.libraries),
            ldscripts: strs(self.ldscripts),
            flags: self.flags@,
            unused: self.unused@,
        }
    }
}

/// A copy of an optional string.
pub fn copy_opt_string(s: &Option<String>) -> (r: Option<String>)
    ensures
        opt_str(r) == opt_str(*s),
{
    match s {
        Some(x) => Some(x.clone()),
        None => None,
    }
}

impl Clone for Build {
    fn clone(&self) -> (r: Self)
        ensures
            r@ == self@,
    {
        Build {
            libmegaton: self.libmegaton,
            entry: copy_opt_string(&self.entry),
            sources: copy_strings(&self.sources),
            includes: copy_strings(&self.includes),
            libpaths: copy_strings(&self.libpaths),
            libraries: copy_strings(&self.libraries),
            ldscripts: copy_strings(&self.ldscripts),
            flags: self.flags.clone(),
            unused: self.unused.clone(),
        }
    }
}

/// Why a `[build]` section is rejected
#[derive(Debug, Clone, Copy, PartialEq, Eq, Structural)]
pub enum BuildConfigError {
    /// An entry point is given while libmegaton provides the runtime
    EntryWithLibmegaton,
    /// Neither libmegaton nor an entry point is given
    MissingEntry,
}

/// The entry symbol of a build: the configured one, else libmegaton's.
pub open spec fn entry_point_of(b: BuildView) -> Seq<char> {
    match b.entry {
        Some(e) => e,
        None => "__megaton_module_entry"@,
    }
}

/// Warnings about unused keys, as `Unused::check_prefixed` words them.
pub open spec fn unused_warnings(prefix: Seq<char>, keys: Seq<Seq<char>>) -> Seq<Seq<char>> {
    keys.map_values(|k: Seq<char>| "config `"@ + prefix + "."@ + k + "` is unused"@)
}

impl Build {
    /// Validate config values; on success, return the warnings about unused keys
    pub fn check(&self) -> (r: Result<Vec<String>, BuildConfigError>)
        ensures
            self.libmegaton && self.entry is Some <==> r == Err::<Vec<String>, _>(BuildConfigError::EntryWithLibmegaton),
            !self.libmegaton && self.entry is None <==> r == Err::<Vec<String>, _>(BuildConfigError::MissingEntry),
            r matches Ok(w) ==> strs(w) == unused_warnings("build"@, self.unused@)
                + unused_warnings("build.flags"@, self.flags.unused@),
    {
        if self.libmegaton {
            if self.entry.is_some() {
                return Err(BuildConfigError::EntryWithLibmegaton);
            }
        } else if self.entry.is_none() {
            return Err(BuildConfigError::MissingEntry);
        }
        let mut w = self.unused.check_prefixed("build");
        let w2 = self.flags.unused.check_prefixed("build.flags");
        extend_strings(&mut w, &w2);
        Ok(w)
    }

    /// The entry point symbol of the module
    pub fn entry_point(&self) -> (r: String)
        ensures
            r@ == entry_point_of(self@),
    {
        match &self.entry {
            Some(entry) => entry.clone(),
            None => "__megaton_module_entry".to_owned(),
        }
    }
}

/// The content of a `[build]` section extended with a profile: a given entry
/// point replaces the base one, lists are appended and flags merged.
pub open spec fn extended_build(a: BuildView, b: BuildView) -> BuildView {
    BuildView {
        libmegaton: a.libmegaton,
        entry: if b.entry is Some { b.entry } else { a.entry },
        sources: a.sources + b.sources,
        includes: a.includes + b.includes,
        libpaths: a.libpaths + b.libpaths,
        libraries: a.libraries + b.libraries,
        ldscripts: a.ldscripts + b.ldscripts,
        flags: extended_flag_config(a.flags, b.flags),
        unused: a.unused,
    }
}

impl Profilable for Build {
    open spec fn extended(base: BuildView, other: BuildView) -> BuildView {
        extended_build(base, other)
    }

    fn extend(&mut self, other: &Self) {
        if other.entry.is_some() {
            self.entry = copy_opt_string(&other.entry);
        }
        extend_strings(&mut self.sources, &other.sources);
        extend_strings(&mut self.includes, &other.includes);
        extend_strings(&mut self.libpaths, &other.libpaths);
        extend_strings(&mut self.libraries, &other.libraries);
        extend_strings(&mut self.ldscripts, &other.ldscripts);
        self.flags.extend(&other.flags);
    }

    fn duplicate(&self) -> (r: Self) {
        self.clone()
    }
}

/// The `check` section
#[derive(Debug, Default)]
pub struct Check {
    /// Symbols to ignore
    pub ignore: Vec<String>,
    /// Paths to *.syms file (output of objdump) that contains dynamic symbols accessible by the module
    pub symbols: Vec<String>,
    /// Extra instructions to disallow (like `"msr"`). Values are regular expressions.
    pub disallowed_instructions: Vec<String>,
    /// Unknown keys of the section
    pub unused: Unused,
}

/// The content of a `[check]` section
pub struct CheckView {
    pub ignore: Seq<Seq<char>>,
    pub symbols: Seq<Seq<char>>,
    pub disallowed_instructions: Seq<Seq<char>>,
    pub unused: Seq<Seq<char>>,
}

impl View for Check {
    type V = CheckView;

    open spec fn view(&self) -> CheckView {
        CheckView {
            ignore: strs(self.ignore),
            symbols: strs(self.symbols),
            disallowed_instructions: strs(self.disallowed_instructions),
            unused: self.unused@,
        }
    }
}

impl Clone for Check {
    fn clone(&self) -> (r: Self)
        ensures
            r@ == self@,
    {
        Check {
            ignore: copy_strings(&self.ignore),
            symbols: copy_strings(&self.symbols),
            disallowed_instructions: copy_strings(&self.disallowed_instructions),
            unused: self.unused.clone(),
        }
    }
}

impl Check {
    /// The warnings about unused keys of the section
    pub fn check(&self) -> (r: Vec<String>)
        ensures
            strs(r) == unused_warnings("check"@, self.unused@),
    {
        self.unused.check_prefixed("check")
    }
}

/// The content of a `[check]` section extended with a profile: all lists are appended.
pub open spec fn extended_check(a: CheckView, b: CheckView) -> CheckView {
    CheckView {
        ignore: a.ignore + b.ignore,
        symbols: a.symbols + b.symbols,
        disallowed_instructions: a.disallowed_instructions + b.disallowed_instructions,
        unused: a.unused,
    }
}

impl Profilable for Check {
    open spec fn extended(base: CheckView, other: CheckView) -> CheckView {
        extended_check(base, other)
    }

    fn extend(&mut self, other: &Self) {
        extend_strings(&mut self.ignore, &other.ignore);
        extend_strings(&mut self.symbols, &other.symbols);
        extend_strings(&mut self.disallowed_instructions, &other.disallowed_instructions);
    }

    fn duplicate(&self) -> (r: Self) {
        self.clone()
    }
}

/// The view of the first profile in `ps` named `name`.
pub open spec fn profile_lookup<T: View>(ps: Seq<(String, T)>, name: Seq<char>) -> Option<T::V>
    decreases ps.len(),
{
    if ps.len() == 0 {
        None
    } else if ps[0].0@ == name {
        Some(ps[0].1@)
    } else {
        profile_lookup(ps.skip(1), name)
    }
}

/// The content of the profile `name` of a section: the base when the name is
/// `none` or unknown, the base extended with the named profile otherwise.
pub open spec fn profile_view<T: Profilable>(base: T::V, ps: Seq<(String, T)>, name: Seq<char>) -> T::V {
    if name == "none"@ {
        base
    } else {
        match profile_lookup(ps, name) {
            Some(p) => T::extended(base, p),
            None => base,
        }
    }
}

/// Generic config section that can be extended with profiles
///
/// For example, the `[build]` section can have profiles with `[build.profiles.<name>]`
pub struct ProfileContainer<T: Profilable> {
    /// The base profile
    pub base: T,
    /// The extended profiles, by name
    pub profiles: Vec<(String, T)>,
}

/// No two profiles of `ps` have the same name.
pub open spec fn distinct_names<T>(ps: Seq<(String, T)>) -> bool {
    forall|i: int, j: int|
        0 <= i < ps.len() && 0 <= j < ps.len() && i != j ==> (#[trigger] ps[i]).0@ != (#[trigger] ps[j]).0@
}

/// Whether no two profiles of `ps` have the same name.
fn names_distinct<T>(ps: &Vec<(String, T)>) -> (r: bool)
    ensures
        r == distinct_names(ps@),
{
    let mut i: usize = 0;
    while i < ps.len()
        invariant
            i <= ps@.len(),
            forall|a: int, b: int| 0 <= a < i && 0 <= b < i && a != b ==> (#[trigger] ps@[a]).0@ != (#[trigger] ps@[b]).0@,
        decreases ps@.len() - i,
    {
        let mut j: usize = 0;
        while j < i
            invariant
                j <= i < ps@.len(),
                forall|b: int| 0 <= b < j ==> (#[trigger] ps@[b]).0@ != ps@[i as int].0@,
            decreases i - j,
        {
            if str_eq(ps[j].0.as_str(), ps[i].0.as_str()) {
                assert(!distinct_names(ps@)) by {
                    assert(ps@[j as int].0@ == ps@[i as int].0@);
                }
                return false;
            }
            j += 1;
        }
        assert forall|a: int, b: int| 0 <= a < i + 1 && 0 <= b < i + 1 && a != b implies (#[trigger] ps@[a]).0@ != (#[trigger] ps@[b]).0@ by {
            if a == i as int {
                assert(ps@[b].0@ != ps@[i as int].0@);
            } else if b == i as int {
                assert(ps@[a].0@ != ps@[i as int].0@);
            }
        }
        i += 1;
    }
    true
}

impl<T: Profilable> ProfileContainer<T> {
    /// Every profile name occurs once.
    pub open spec fn wf(&self) -> bool {
        distinct_names(self.profiles@)
    }

    /// A section with its base and its named profiles; `None` when two
    /// profiles have the same name.
    pub fn new(base: T, profiles: Vec<(String, T)>) -> (r: Option<Self>)
        ensures
            r is Some <==> distinct_names(profiles@),
            r matches Some(c) ==> c.base == base && c.profiles == profiles && c.wf(),
    {
        if names_distinct(&profiles) {
            Some(ProfileContainer { base, profiles })
        } else {
            None
        }
    }

    /// Index of the first profile named `name`
    fn find(&self, name: &str) -> (r: Option<usize>)
        ensures
            match r {
                Some(i) => i < self.profiles@.len() && profile_lookup(self.profiles@, name@) == Some(
                    self.profiles@[i as int].1@,
                ),
                None => profile_lookup(self.profiles@, name@) is None,
            },
    {
        let mut i: usize = 0;
        assert(self.profiles@.skip(0) =~= self.profiles@);
        while i < self.profiles.len()
            invariant
                i <= self.profiles@.len(),
                profile_lookup(self.profiles@, name@) == profile_lookup(self.profiles@.skip(i as int), name@),
            decreases self.profiles@.len() - i,
        {
            let ghost rest = self.profiles@.skip(i as int);
            assert(rest[0] == self.profiles@[i as int]);
            if str_eq(self.profiles[i].0.as_str(), name) {
                return Some(i);
            }
            assert(rest.skip(1) =~= self.profiles@.skip(i + 1));
            i += 1;
        }
        None
    }

    /// Get a profile by name
    ///
    /// If the name is "none", or there is no profile with that name,
    /// the base profile will be returned. Otherwise, returns the base profile
    /// extended with the profile with the given name.
    pub fn get_profile(&self, name: &str) -> (r: T)
        requires
            self.wf(),
        ensures
            r@ == profile_view(self.base@, self.profiles@, name@),
            forall|i: int|
                0 <= i < self.profiles@.len() && (#[trigger] self.profiles@[i]).0@ == name@ && name@ != "none"@
                    ==> r@ == T::extended(self.base@, self.profiles@[i].1@),
    {
        proof {
            assert forall|i: int|
                0 <= i < self.profiles@.len() && (#[trigger] self.profiles@[i]).0@ == name@ && name@ != "none"@
                    implies profile_view(self.base@, self.profiles@, name@) == T::extended(self.base@, self.profiles@[i].1@) by {
                assert forall|j: int| 0 <= j < i implies self.profiles@[j].0@ != self.profiles@[i].0@ by {
                    assert(self.profiles@[j].0@ != self.profiles@[i].0@);
                }
                lemma_defined_profile(self.base@, self.profiles@, i);
            }
        }
        let mut base = self.base.duplicate();
        if !str_eq(name, "none") {
            match self.find(name) {
                Some(i) => {
                    base.extend(&self.profiles[i].1);
                },
                None => {},
            }
        }
        base
    }
}

// ---------------------------------------------------------------------------
// module and profile selection
// ---------------------------------------------------------------------------

/// Why no profile can be selected
#[derive(Debug, Clone, Copy, PartialEq, Eq, Structural)]
pub enum ProfileError {
    /// The base profile was asked for and the configured default is empty,
    /// which means a profile must be named on the command line
    NoProfileSpecified,
    /// The selection ends on the base profile, which is disallowed
    BaseProfileDisallowed,
}

/// The lines reported when no profile can be selected.
pub open spec fn profile_error_lines(e: ProfileError) -> Seq<Line> {
    match e {
        ProfileError::NoProfileSpecified => seq![
            (Tone::Error, "Error"@, "No profile specified"@),
            (Tone::Hint, "Consider"@, "Specify a profile with `--profile`"@),
        ],
        ProfileError::BaseProfileDisallowed => seq![
            (Tone::Error, "Error"@, "Base profile is disallowed"@),
            (Tone::Hint, "Consider"@, "Set `module.default-profile` in config or specify a profile with `--profile`"@),
        ],
    }
}

impl ProfileError {
    /// What is reported when no profile can be selected.
    pub fn report(&self) -> (r: Vec<Diagnostic>)
        ensures
            lines_of(r) == profile_error_lines(*self),
    {
        let mut out: Vec<Diagnostic> = Vec::new();
        match self {
            ProfileError::NoProfileSpecified => {
                say(&mut out, Tone::Error, "Error", "No profile specified");
                say(&mut out, Tone::Hint, "Consider", "Specify a profile with `--profile`");
            },
            ProfileError::BaseProfileDisallowed => {
                say(&mut out, Tone::Error, "Error", "Base profile is disallowed");
                say(
                    &mut out,
                    Tone::Hint,
                    "Consider",
                    "Set `module.default-profile` in config or specify a profile with `--profile`",
                );
            },
        }
        assert(lines_of(out) =~= profile_error_lines(*self));
        out
    }
}

/// The profile selected from the command line value `cli` (`none` when not given),
/// the configured default and whether the base (`none`) profile may be used.
pub open spec fn chosen_profile(cli: Seq<char>, default: Option<Seq<char>>, base_allowed: bool) -> Result<Seq<char>, ProfileError> {
    if cli == "none"@ && default is Some && default->0.len() == 0 {
        Err(ProfileError::NoProfileSpecified)
    } else {
        let p = if cli == "none"@ {
            match default {
                Some(d) => d,
                None => "none"@,
            }
        } else {
            cli
        };
        if !base_allowed && p == "none"@ {
            Err(ProfileError::BaseProfileDisallowed)
        } else {
            Ok(p)
        }
    }
}

/// The selection as characters.
pub open spec fn chosen_view(r: Result<String, ProfileError>) -> Result<Seq<char>, ProfileError> {
    match r {
        Ok(s) => Ok(s@),
        Err(e) => Err(e),
    }
}

fn choose_profile(cli: &str, default: &Option<String>, base_allowed: bool) -> (r: Result<String, ProfileError>)
    ensures
        chosen_view(r) == chosen_profile(cli@, opt_str(*default), base_allowed),
{
    let is_none = str_eq(cli, "none");
    let profile = if is_none {
        match default {
            Some(p) => {
                if p.as_str().unicode_len() == 0 {
                    return Err(ProfileError::NoProfileSpecified);
                }
                p.clone()
            },
            None => "none".to_owned(),
        }
    } else {
        cli.to_owned()
    };
    if !base_allowed && str_eq(profile.as_str(), "none") {
        return Err(ProfileError::BaseProfileDisallowed);
    }
    Ok(profile)
}

/// Config in the `[module]` section
#[derive(Debug, Default)]
pub struct Module {
    /// The name of the module, used as the target name of the final binary.
    pub name: String,
    /// The title ID as a 64-bit integer, used for generating the npdm file.
    pub title_id: u64,
    /// Set the profile to use when profile is "none"
    ///
    /// If `Some("")`, a profile must be specified in command line or megaton will error
    pub default_profile: Option<String>,
    /// Disable the base (`none`) profile from being used
    pub disallow_base_profile: bool,
    /// Unknown keys of the section
    pub unused: Unused,
}

impl Module {
    /// Get the title ID as a lower-case hex string (without the `0x` prefix)
    pub fn title_id_hex(&self) -> (r: String)
        ensures
            r@ == hex16(self.title_id),
    {
        to_hex16(self.title_id)
    }

    /// Select profile based on command line and config
    pub fn select_profile(&self, cli_profile: &str) -> (r: Result<String, ProfileError>)
        ensures
            chosen_view(r) == chosen_profile(
                cli_profile@,
                opt_str(self.default_profile),
                !self.disallow_base_profile,
            ),
    {
        choose_profile(cli_profile, &self.default_profile, !self.disallow_base_profile)
    }
}

/// Configure behavior when selecting profile from command line
#[derive(Debug)]
pub struct ProfileConfig {
    /// Set the profile to use when profile is "none"
    ///
    /// If `Some("")`, a profile must be specified in command line or megaton will error
    pub default: Option<String>,
    /// Allow the base (`none`) profile to be used
    pub allow_base: bool,
    /// Unknown keys of the section
    pub unused: Unused,
}

impl Default for ProfileConfig {
    fn default() -> (r: Self)
        ensures
            r.default is None,
            r.allow_base,
            r.unused.keys@.len() == 0,
    {
        ProfileConfig { default: None, allow_base: true, unused: Unused { keys: Vec::new() } }
    }
}

impl ProfileConfig {
    /// Select profile based on command line and config
    pub fn resolve(&self, cli_profile: &str) -> (r: Result<String, ProfileError>)
        ensures
            chosen_view(r) == chosen_profile(cli_profile@, opt_str(self.default), self.allow_base),
    {
        choose_profile(cli_profile, &self.default, self.allow_base)
    }
}

/// Config data read from Megaton.toml
pub struct Config {
    /// The `[module]` section
    pub module: Module,
    /// The `[profile]` section
    pub profile: ProfileConfig,
    /// The `[build]` section
    pub build: ProfileContainer<Build>,
    /// The `[check]` section (for checking unresolved dynamic symbols)
    pub check: Option<ProfileContainer<Check>>,
    /// Unknown top-level keys
    pub unused: Unused,
}

impl Config {
    /// The warnings about unknown keys of the top level, `[module]` and `[profile]`,
    /// in that order (issued when the config is loaded)
    pub fn unused_warnings(&self) -> (r: Vec<String>)
        ensures
            strs(r) == self.unused@.map_values(|k: Seq<char>| "config `"@ + k + "` is unused"@)
                + unused_warnings("module"@, self.module.unused@) + unused_warnings(
                "profile"@,
                self.profile.unused@,
            ),
    {
        let mut r = self.unused.check();
        let m = self.module.unused.check_prefixed("module");
        extend_strings(&mut r, &m);
        let p = self.profile.unused.check_prefixed("profile");
        extend_strings(&mut r, &p);
        r
    }
}


/// The profile `none` is the base section, whatever profiles are defined.
pub proof fn lemma_base_profile<T: Profilable>(base: T::V, profiles: Seq<(String, T)>)
    ensures
        profile_view(base, profiles, "none"@) == base,
{
}

/// A profile that is not defined is the base section.
pub proof fn lemma_unknown_profile<T: Profilable>(base: T::V, profiles: Seq<(String, T)>, name: Seq<char>)
    requires
        profile_lookup(profiles, name) is None,
    ensures
        profile_view(base, profiles, name) == base,
{
}

/// A defined profile other than `none` is the base section extended with the
/// first profile of that name.
pub proof fn lemma_defined_profile<T: Profilable>(base: T::V, profiles: Seq<(String, T)>, i: int)
    requires
        0 <= i < profiles.len(),
        profiles[i].0@ != "none"@,
        forall|j: int| 0 <= j < i ==> profiles[j].0@ != profiles[i].0@,
    ensures
        profile_view(base, profiles, profiles[i].0@) == T::extended(base, profiles[i].1@),
    decreases i,
{
    lemma_lookup_first(profiles, i);
}

/// Extending a flag list with a profile's: with no list in the profile the
/// base list stays; with no list in the base (which stands for the defaults)
/// the profile's list is taken, with a `<default>` marker so the defaults are
/// kept; with both, the base list stays in front and the result holds exactly
/// the flags of the two lists.
pub proof fn lemma_extended_flags(dst: Option<Seq<Seq<char>>>, src: Option<Seq<Seq<char>>>, x: Seq<char>)
    ensures
        src is None ==> extended_flags(dst, src) == dst,
        src is Some ==> extended_flags(dst, src) is Some,
        src is Some && dst is None ==> extended_flags(dst, src)->0.contains("<default>"@),
        src is Some && dst is None ==> (extended_flags(dst, src)->0.contains(x) <==> (src->0.contains(x) || x
            == "<default>"@)),
        src is Some && dst is Some ==> extended_flags(dst, src)->0.take(dst->0.len() as int) == dst->0,
        src is Some && dst is Some ==> (extended_flags(dst, src)->0.contains(x) <==> (dst->0.contains(x)
            || src->0.contains(x))),
{
    match (dst, src) {
        (Some(d), Some(f)) => {
            lemma_merge_unique_prefix(d, f);
            if d.contains(x) || f.contains(x) {
                lemma_merge_unique_covers(d, f, x);
            }
            if merge_unique(d, f).contains(x) {
                lemma_merge_unique_within(d, f, x);
            }
        },
        (None, Some(f)) => {
            let m = "<default>"@;
            if !f.contains(m) {
                let r = f.push(m);
                assert(r[f.len() as int] == m);
                if f.contains(x) {
                    let k = choose|k: int| 0 <= k < f.len() && f[k] == x;
                    assert(r[k] == x);
                }
                if r.contains(x) {
                    let k = choose|k: int| 0 <= k < r.len() && r[k] == x;
                    if k < f.len() {
                        assert(f[k] == x);
                    }
                }
            }
        },
        _ => {},
    }
}

/// Extending a `[build]` section with a profile appends the profile's lists
/// to the base's (sources, includes, library paths, libraries, linker
/// scripts), keeps the base's libmegaton switch, takes the profile's entry
/// point when it gives one, and extends each flag list with the profile's
/// (see [`lemma_extended_flags`]). Selecting a defined profile other than
/// `none` gives exactly that.
pub proof fn lemma_build_profile_appends(base: BuildView, profiles: Seq<(String, Build)>, i: int)
    requires
        0 <= i < profiles.len(),
        profiles[i].0@ != "none"@,
        forall|j: int| 0 <= j < i ==> profiles[j].0@ != profiles[i].0@,
    ensures
        ({
            let p = profiles[i].1@;
            let r = profile_view::<Build>(base, profiles, profiles[i].0@);
            &&& r.sources == base.sources + p.sources
            &&& r.includes == base.includes + p.includes
            &&& r.libpaths == base.libpaths + p.libpaths
            &&& r.libraries == base.libraries + p.libraries
            &&& r.ldscripts == base.ldscripts + p.ldscripts
            &&& r.libmegaton == base.libmegaton
            &&& r.entry == (if p.entry is Some { p.entry } else { base.entry })
            &&& r.libraries.len() == base.libraries.len() + p.libraries.len()
            &&& r.flags.common == extended_flags(base.flags.common, p.flags.common)
            &&& r.flags.c == extended_flags(base.flags.c, p.flags.c)
            &&& r.flags.cxx == extended_flags(base.flags.cxx, p.flags.cxx)
            &&& r.flags.as_ == extended_flags(base.flags.as_, p.flags.as_)
            &&& r.flags.ld == extended_flags(base.flags.ld, p.flags.ld)
        }),
{
    lemma_defined_profile(base, profiles, i);
}

/// Extending a `[check]` section with a profile appends each of the
/// profile's lists (ignored symbols, symbol files, disallowed instructions)
/// to the base's. Selecting a defined profile other than `none` gives exactly
/// that.
pub proof fn lemma_check_profile_appends(base: CheckView, profiles: Seq<(String, Check)>, i: int)
    requires
        0 <= i < profiles.len(),
        profiles[i].0@ != "none"@,
        forall|j: int| 0 <= j < i ==> profiles[j].0@ != profiles[i].0@,
    ensures
        ({
            let p = profiles[i].1@;
            let r = profile_view::<Check>(base, profiles, profiles[i].0@);
            &&& r.ignore == base.ignore + p.ignore
            &&& r.symbols == base.symbols + p.symbols
            &&& r.disallowed_instructions == base.disallowed_instructions + p.disallowed_instructions
        }),
{
    lemma_defined_profile(base, profiles, i);
}

proof fn lemma_lookup_first<T: View>(profiles: Seq<(String, T)>, i: int)
    requires
        0 <= i < profiles.len(),
        forall|j: int| 0 <= j < i ==> profiles[j].0@ != profiles[i].0@,
    ensures
        profile_lookup(profiles, profiles[i].0@) == Some(profiles[i].1@),
    decreases i,
{
    if i > 0 {
        let rest = profiles.skip(1);
        assert(rest[i - 1] == profiles[i]);
        assert forall|j: int| 0 <= j < i - 1 implies #[trigger] rest[j].0@ != rest[i - 1].0@ by {
            assert(rest[j] == profiles[j + 1]);
        }
        lemma_lookup_first(rest, i - 1);
        assert(profiles[0].0@ != profiles[i].0@);
    }
}

} // verus!
