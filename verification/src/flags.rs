//! Build flags
//!
//! This is used for both building project source and megaton lib
use vstd::prelude::*;

use crate::print::{color_flag, color_flag_spec};
use crate::text::{push_str, str_eq};

verus! {

/// Strings of a vector, as character sequences.
pub open spec fn strs(v: Vec<String>) -> Seq<Seq<char>> {
    v@.map_values(|s: String| s@)
}

/// Optional strings, as character sequences.
pub open spec fn opt_strs(v: Option<Vec<String>>) -> Option<Seq<Seq<char>>> {
    match v {
        Some(v) => Some(strs(v)),
        None => None,
    }
}

/// Default flags for `build.flags.common` in Megaton.toml
pub open spec fn default_common() -> Seq<Seq<char>> {
    seq![
        "-march=armv8-a+crc+crypto"@,
        "-mtune=cortex-a57"@,
        "-mtp=soft"@,
        "-fPIC"@,
        "-fvisibility=hidden"@,
        "-g"@,
    ]
}

/// Default flags for `build.flags.c` in Megaton.toml
///
/// By default, also extends from `default_common`
pub open spec fn default_c() -> Seq<Seq<char>> {
    seq!["-Wall"@, "-Werror"@, "-ffunction-sections"@, "-fdata-sections"@, "-O3"@]
}

/// Default flags for `build.flags.cxx` in Megaton.toml
///
/// By default, also extends from `default_c` (which extends from common)
pub open spec fn default_cpp() -> Seq<Seq<char>> {
    seq![
        "-std=c++20"@,
        "-fno-rtti"@,
        "-fno-exceptions"@,
        "-fno-asynchronous-unwind-tables"@,
        "-fno-unwind-tables"@,
    ]
}

/// Default flags for `build.flags.as` in Megaton.toml (none)
///
/// By default, also extends from `default_cpp`
pub open spec fn default_as() -> Seq<Seq<char>> {
    seq![]
}

/// Default flags for `build.flags.ld` in Megaton.toml
///
/// By default, also extends from `default_common`
pub open spec fn default_ld() -> Seq<Seq<char>> {
    seq![
        "-nostartfiles"@,
        "-nodefaultlibs"@,
        "-Wl,--shared"@,
        "-Wl,--export-dynamic"@,
        "-Wl,-z,nodynamic-undefined-weak"@,
        "-Wl,--build-id=sha1"@,
        "-Wl,--gc-sections"@,
        "-Wl,--nx-module-name"@,
    ]
}

fn strings_of(lits: &[&str]) -> (v: Vec<String>)
    ensures
        strs(v) == lits@.map_values(|s: &str| s@),
{
    let mut v: Vec<String> = Vec::new();
    let mut i: usize = 0;
    while i < lits.len()
        invariant
            i <= lits.len(),
            v@.len() == i,
            forall|j: int| 0 <= j < i ==> #[trigger] v@[j]@ == lits@[j]@,
        decreases lits.len() - i,
    {
        let s: String = lits[i].to_owned();
        v.push(s);
        i += 1;
    }
    assert(strs(v) =~= lits@.map_values(|s: &str| s@));
    v
}

/// The default common flags
pub fn default_common_flags() -> (v: Vec<String>)
    ensures
        strs(v) == default_common(),
{
    let lits = [
        "-march=armv8-a+crc+crypto",
        "-mtune=cortex-a57",
        "-mtp=soft",
        "-fPIC",
        "-fvisibility=hidden",
        "-g",
    ];
    let v = strings_of(&lits);
    assert(strs(v) =~= default_common());
    v
}

/// The default C flags
pub fn default_c_flags() -> (v: Vec<String>)
    ensures
        strs(v) == default_c(),
{
    let lits = ["-Wall", "-Werror", "-ffunction-sections", "-fdata-sections", "-O3"];
    let v = strings_of(&lits);
    assert(strs(v) =~= default_c());
    v
}

/// The default C++ flags
pub fn default_cpp_flags() -> (v: Vec<String>)
    ensures
        strs(v) == default_cpp(),
{
    let lits = [
        "-std=c++20",
        "-fno-rtti",
        "-fno-exceptions",
        "-fno-asynchronous-unwind-tables",
        "-fno-unwind-tables",
    ];
    let v = strings_of(&lits);
    assert(strs(v) =~= default_cpp());
    v
}

/// The default linker flags
pub fn default_ld_flags() -> (v: Vec<String>)
    ensures
        strs(v) == default_ld(),
{
    let lits = [
        "-nostartfiles",
        "-nodefaultlibs",
        "-Wl,--shared",
        "-Wl,--export-dynamic",
        "-Wl,-z,nodynamic-undefined-weak",
        "-Wl,--build-id=sha1",
        "-Wl,--gc-sections",
        "-Wl,--nx-module-name",
    ];
    let v = strings_of(&lits);
    assert(strs(v) =~= default_ld());
    v
}

/// A configured flag list with each `<default>` marker replaced by the defaults.
pub open spec fn expand_listed(flags: Seq<Seq<char>>, default: Seq<Seq<char>>) -> Seq<Seq<char>>
    decreases flags.len(),
{
    if flags.len() == 0 {
        seq![]
    } else {
        expand_listed(flags.drop_last(), default) + if flags.last() == "<default>"@ {
            default
        } else {
            seq![flags.last()]
        }
    }
}

/// The flags of one configured list: the defaults when the list is absent,
/// the list with each `<default>` marker expanded otherwise.
pub open spec fn expand_flags(field: Option<Seq<Seq<char>>>, default: Seq<Seq<char>>) -> Seq<Seq<char>> {
    match field {
        None => default,
        Some(flags) => expand_listed(flags, default),
    }
}

/// Each string of `xs`, with `prefix` in front.
pub open spec fn prefixed(prefix: Seq<char>, xs: Seq<Seq<char>>) -> Seq<Seq<char>> {
    xs.map_values(|x: Seq<char>| prefix + x)
}

/// Appends copies of the strings of `src` to `dst`.
pub fn extend_strings(dst: &mut Vec<String>, src: &Vec<String>)
    ensures
        final(dst)@ == old(dst)@ + src@,
        strs(*final(dst)) == strs(*old(dst)) + strs(*src),
{
    let ghost d0 = dst@;
    let mut i: usize = 0;
    while i < src.len()
        invariant
            i <= src.len(),
            dst@ == d0 + src@.take(i as int),
        decreases src.len() - i,
    {
        let s = src[i].clone();
        dst.push(s);
        assert(src@.take(i + 1) == src@.take(i as int).push(src@[i as int]));
        i += 1;
    }
    assert(src@.take(src.len() as int) == src@);
    assert(strs(*dst) =~= strs(*old(dst)) + strs(*src));
}

/// Each string of `xs`, with `prefix` in front.
pub fn prefix_all(prefix: &str, xs: &Vec<String>) -> (r: Vec<String>)
    ensures
        strs(r) == prefixed(prefix@, strs(*xs)),
{
    let mut r: Vec<String> = Vec::new();
    let mut i: usize = 0;
    while i < xs.len()
        invariant
            i <= xs.len(),
            r@.len() == i,
            forall|j: int| 0 <= j < i ==> #[trigger] r@[j]@ == prefix@ + xs@[j]@,
        decreases xs.len() - i,
    {
        let mut s = prefix.to_owned();
        push_str(&mut s, xs[i].as_str());
        r.push(s);
        i += 1;
    }
    assert(strs(r) =~= prefixed(prefix@, strs(*xs)));
    r
}

/// `base` followed by the flags of one configured list.
pub fn create_flags(field: &Option<Vec<String>>, default: &Vec<String>, base: &Vec<String>) -> (r: Vec<String>)
    ensures
        strs(r) == strs(*base) + expand_flags(opt_strs(*field), strs(*default)),
{
    let mut v = base.clone();
    assert(strs(v) =~= strs(*base));
    match field {
        None => {
            extend_strings(&mut v, default);
        },
        Some(flags) => {
            let mut i: usize = 0;
            while i < flags.len()
                invariant
                    i <= flags.len(),
                    strs(v) == strs(*base) + expand_listed(strs(*flags).take(i as int), strs(*default)),
                decreases flags.len() - i,
            {
                let ghost before = strs(v);
                let ghost fl = strs(*flags);
                assert(fl.take(i + 1).drop_last() == fl.take(i as int));
                assert(fl.take(i + 1).last() == flags@[i as int]@);
                if str_eq(flags[i].as_str(), "<default>") {
                    extend_strings(&mut v, default);
                    assert(strs(v) == before + strs(*default));
                } else {
                    v.push(flags[i].clone());
                    assert(strs(v) =~= before + seq![flags@[i as int]@]);
                }
                assert(expand_listed(fl.take(i + 1), strs(*default)) == expand_listed(fl.take(i as int), strs(*default)) + if fl.take(i + 1).last() == "<default>"@ {
                    strs(*default)
                } else {
                    seq![fl.take(i + 1).last()]
                });
                assert(strs(v) =~= strs(*base) + expand_listed(strs(*flags).take(i + 1), strs(*default)));
                i += 1;
            }
            assert(strs(*flags).take(flags.len() as int) == strs(*flags));
        },
    }
    v
}

/// A copy of a list of strings.
pub fn copy_strings(v: &Vec<String>) -> (r: Vec<String>)
    ensures
        r@ == v@,
        strs(r) == strs(*v),
{
    let r = v.clone();
    assert(r@ =~= v@);
    r
}

/// A copy of an optional list of strings.
pub fn copy_opt_strings(v: &Option<Vec<String>>) -> (r: Option<Vec<String>>)
    ensures
        opt_strs(r) == opt_strs(*v),
{
    match v {
        Some(x) => Some(copy_strings(x)),
        None => None,
    }
}

/// Unknown keys found in a configuration table, kept to warn the user about them
#[derive(Debug, Default)]
pub struct Unused {
    /// The unknown keys, in the order they were found
    pub keys: Vec<String>,
}

impl View for Unused {
    type V = Seq<Seq<char>>;

    open spec fn view(&self) -> Seq<Seq<char>> {
        strs(self.keys)
    }
}

impl Clone for Unused {
    fn clone(&self) -> (r: Self)
        ensures
            r@ == self@,
    {
        Unused { keys: copy_strings(&self.keys) }
    }
}

/// The content of a flag configuration
pub struct FlagConfigView {
    pub common: Option<Seq<Seq<char>>>,
    pub c: Option<Seq<Seq<char>>>,
    pub cxx: Option<Seq<Seq<char>>>,
    pub as_: Option<Seq<Seq<char>>>,
    pub ld: Option<Seq<Seq<char>>>,
    pub unused: Seq<Seq<char>>,
}

impl View for FlagConfig {
    type V = FlagConfigView;

    open spec fn view(&self) -> FlagConfigView {
        FlagConfigView {
            common: opt_strs(self.common),
            c: opt_strs(self.c),
            cxx: opt_strs(self.cxx),
            as_: opt_strs(self.as_),
            ld: opt_strs(self.ld),
            unused: self.unused@,
        }
    }
}

impl Clone for FlagConfig {
    fn clone(&self) -> (r: Self)
        ensures
            r@ == self@,
    {
        FlagConfig {
            common: copy_opt_strings(&self.common),
            c: copy_opt_strings(&self.c),
            cxx: copy_opt_strings(&self.cxx),
            as_: copy_opt_strings(&self.as_),
            ld: copy_opt_strings(&self.ld),
            unused: self.unused.clone(),
        }
    }
}

impl Unused {
    /// The warnings about unused top-level configuration keys
    pub fn check(&self) -> (r: Vec<String>)
        ensures
            strs(r) == strs(self.keys).map_values(|k: Seq<char>| "config `"@ + k + "` is unused"@),
    {
        let mut r: Vec<String> = Vec::new();
        let mut i: usize = 0;
        while i < self.keys.len()
            invariant
                i <= self.keys.len(),
                r@.len() == i,
                forall|j: int| 0 <= j < i ==> #[trigger] r@[j]@ == "config `"@ + self.keys@[j]@ + "` is unused"@,
            decreases self.keys.len() - i,
        {
            let mut m = "config `".to_owned();
            push_str(&mut m, self.keys[i].as_str());
            push_str(&mut m, "` is unused");
            r.push(m);
            i += 1;
        }
        assert(strs(r) =~= strs(self.keys).map_values(|k: Seq<char>| "config `"@ + k + "` is unused"@));
        r
    }

    /// The warnings about unused configuration keys inside the table `prefix`
    pub fn check_prefixed(&self, prefix: &str) -> (r: Vec<String>)
        ensures
            strs(r) == strs(self.keys).map_values(
                |k: Seq<char>| "config `"@ + prefix@ + "."@ + k + "` is unused"@,
            ),
    {
        let mut r: Vec<String> = Vec::new();
        let mut i: usize = 0;
        while i < self.keys.len()
            invariant
                i <= self.keys.len(),
                r@.len() == i,
                forall|j: int|
                    0 <= j < i ==> #[trigger] r@[j]@ == "config `"@ + prefix@ + "."@ + self.keys@[j]@
                        + "` is unused"@,
            decreases self.keys.len() - i,
        {
            let mut m = "config `".to_owned();
            push_str(&mut m, prefix);
            push_str(&mut m, ".");
            push_str(&mut m, self.keys[i].as_str());
            push_str(&mut m, "` is unused");
            r.push(m);
            i += 1;
        }
        assert(strs(r) =~= strs(self.keys).map_values(
            |k: Seq<char>| "config `"@ + prefix@ + "."@ + k + "` is unused"@,
        ));
        r
    }
}

/// Flags from configuration
#[derive(Debug, Default)]
pub struct FlagConfig {
    pub common: Option<Vec<String>>,
    pub c: Option<Vec<String>>,
    pub cxx: Option<Vec<String>>,
    pub as_: Option<Vec<String>>,
    pub ld: Option<Vec<String>>,
    pub unused: Unused,
}

/// Flags resolved from configuration that can be passed to the compiler
#[derive(Debug, Clone)]
pub struct Flags {
    pub cflags: Vec<String>,
    pub cxxflags: Vec<String>,
    pub sflags: Vec<String>,
    pub ldflags: Vec<String>,
}

/// The resolved common flags of a configuration.
pub open spec fn resolved_common(config: FlagConfig) -> Seq<Seq<char>> {
    expand_flags(opt_strs(config.common), default_common())
}

/// The resolved C flags of a configuration.
pub open spec fn resolved_c(config: FlagConfig, colored: bool) -> Seq<Seq<char>> {
    resolved_common(config) + expand_flags(opt_strs(config.c), default_c()) + seq![
        "-fdiagnostics-color="@ + color_flag_spec(colored),
    ]
}

/// The resolved C++ flags of a configuration.
pub open spec fn resolved_cxx(config: FlagConfig, colored: bool) -> Seq<Seq<char>> {
    resolved_c(config, colored) + expand_flags(opt_strs(config.cxx), default_cpp())
}

/// The resolved assembler flags of a configuration.
pub open spec fn resolved_as(config: FlagConfig, colored: bool) -> Seq<Seq<char>> {
    resolved_cxx(config, colored) + expand_flags(opt_strs(config.as_), default_as())
}

/// The resolved linker flags of a configuration.
pub open spec fn resolved_ld(config: FlagConfig) -> Seq<Seq<char>> {
    resolved_common(config) + expand_flags(opt_strs(config.ld), default_ld())
}

impl Flags {
    /// Resolve the flags of a configuration; `colored` selects the
    /// `-fdiagnostics-color` value
    pub fn from_config(config: &FlagConfig, colored: bool) -> (r: Self)
        ensures
            strs(r.cflags) == resolved_c(*config, colored),
            strs(r.cxxflags) == resolved_cxx(*config, colored),
            strs(r.sflags) == resolved_as(*config, colored),
            strs(r.ldflags) == resolved_ld(*config),
    {
        let empty: Vec<String> = Vec::new();
        let common = create_flags(&config.common, &default_common_flags(), &empty);
        assert(strs(empty) =~= seq![]);
        assert(strs(common) =~= resolved_common(*config));
        let mut cflags = create_flags(&config.c, &default_c_flags(), &common);
        let mut color = "-fdiagnostics-color=".to_owned();
        push_str(&mut color, color_flag(colored));
        cflags.push(color);
        assert(strs(cflags) =~= resolved_c(*config, colored));
        let cxxflags = create_flags(&config.cxx, &default_cpp_flags(), &cflags);
        let no_defaults: Vec<String> = Vec::new();
        assert(strs(no_defaults) =~= default_as());
        let sflags = create_flags(&config.as_, &no_defaults, &cxxflags);
        let ldflags = create_flags(&config.ld, &default_ld_flags(), &common);
        Flags { cflags, cxxflags, sflags, ldflags }
    }

    /// Add define flags (`-D<name>`) for C and C++
    pub fn add_defines(&mut self, defines: &Vec<String>)
        ensures
            strs(final(self).cflags) == strs(old(self).cflags) + prefixed("-D"@, strs(*defines)),
            strs(final(self).cxxflags) == strs(old(self).cxxflags) + prefixed("-D"@, strs(*defines)),
            final(self).sflags == old(self).sflags,
            final(self).ldflags == old(self).ldflags,
    {
        let flags = prefix_all("-D", defines);
        extend_strings(&mut self.cflags, &flags);
        extend_strings(&mut self.cxxflags, &flags);
    }

    /// Add include flags (`-I<path>`) for C and C++
    pub fn add_includes(&mut self, includes: &Vec<String>)
        ensures
            strs(final(self).cflags) == strs(old(self).cflags) + prefixed("-I"@, strs(*includes)),
            strs(final(self).cxxflags) == strs(old(self).cxxflags) + prefixed("-I"@, strs(*includes)),
            final(self).sflags == old(self).sflags,
            final(self).ldflags == old(self).ldflags,
    {
        let flags = prefix_all("-I", includes);
        extend_strings(&mut self.cflags, &flags);
        extend_strings(&mut self.cxxflags, &flags);
    }

    /// Set `-Wl,-init=<symbol>` for the linker
    pub fn set_init(&mut self, symbol: &str)
        ensures
            strs(final(self).ldflags) == strs(old(self).ldflags).push("-Wl,-init="@ + symbol@),
            final(self).cflags == old(self).cflags,
            final(self).cxxflags == old(self).cxxflags,
            final(self).sflags == old(self).sflags,
    {
        let mut f = "-Wl,-init=".to_owned();
        push_str(&mut f, symbol);
        self.ldflags.push(f);
        assert(strs(self.ldflags) =~= strs(old(self).ldflags).push("-Wl,-init="@ + symbol@));
    }

    /// Set `-Wl,--version-script=<path>` for the linker
    pub fn set_version_script(&mut self, path: &str)
        ensures
            strs(final(self).ldflags) == strs(old(self).ldflags).push(
                "-Wl,--version-script="@ + path@,
            ),
            final(self).cflags == old(self).cflags,
            final(self).cxxflags == old(self).cxxflags,
            final(self).sflags == old(self).sflags,
    {
        let mut f = "-Wl,--version-script=".to_owned();
        push_str(&mut f, path);
        self.ldflags.push(f);
        assert(strs(self.ldflags) =~= strs(old(self).ldflags).push("-Wl,--version-script="@ + path@));
    }

    /// Add library paths (`-L<path>`) for the linker
    pub fn add_libpaths(&mut self, paths: &Vec<String>)
        ensures
            strs(final(self).ldflags) == strs(old(self).ldflags) + prefixed("-L"@, strs(*paths)),
            final(self).cflags == old(self).cflags,
            final(self).cxxflags == old(self).cxxflags,
            final(self).sflags == old(self).sflags,
    {
        let flags = prefix_all("-L", paths);
        extend_strings(&mut self.ldflags, &flags);
    }

    /// Add libraries (`-l<name>`) for the linker
    pub fn add_libraries(&mut self, libs: &Vec<String>)
        ensures
            strs(final(self).ldflags) == strs(old(self).ldflags) + prefixed("-l"@, strs(*libs)),
            final(self).cflags == old(self).cflags,
            final(self).cxxflags == old(self).cxxflags,
            final(self).sflags == old(self).sflags,
    {
        let flags = prefix_all("-l", libs);
        extend_strings(&mut self.ldflags, &flags);
    }

    /// Add linker scripts (`-Wl,-T<path>`) for the linker
    pub fn add_ldscripts(&mut self, scripts: &Vec<String>)
        ensures
            strs(final(self).ldflags) == strs(old(self).ldflags) + prefixed("-Wl,-T"@, strs(*scripts)),
            final(self).cflags == old(self).cflags,
            final(self).cxxflags == old(self).cxxflags,
            final(self).sflags == old(self).sflags,
    {
        let flags = prefix_all("-Wl,-T", scripts);
        extend_strings(&mut self.ldflags, &flags);
    }
}


/// The default flag lists of Megaton.toml, as documented.
pub proof fn lemma_default_flag_lists()
    ensures
        default_common() == seq![
            "-march=armv8-a+crc+crypto"@,
            "-mtune=cortex-a57"@,
            "-mtp=soft"@,
            "-fPIC"@,
            "-fvisibility=hidden"@,
            "-g"@,
        ],
        default_c() == seq!["-Wall"@, "-Werror"@, "-ffunction-sections"@, "-fdata-sections"@, "-O3"@],
        default_cpp() == seq![
            "-std=c++20"@,
            "-fno-rtti"@,
            "-fno-exceptions"@,
            "-fno-asynchronous-unwind-tables"@,
            "-fno-unwind-tables"@,
        ],
        default_as() == Seq::<Seq<char>>::empty(),
        default_ld() == seq![
            "-nostartfiles"@,
            "-nodefaultlibs"@,
            "-Wl,--shared"@,
            "-Wl,--export-dynamic"@,
            "-Wl,-z,nodynamic-undefined-weak"@,
            "-Wl,--build-id=sha1"@,
            "-Wl,--gc-sections"@,
            "-Wl,--nx-module-name"@,
        ],
{
}

/// A configured list without a `<default>` marker is taken as it is; a
/// `<default>` marker stands for the whole default list, wherever it is.
pub proof fn lemma_default_marker(a: Seq<Seq<char>>, b: Seq<Seq<char>>, default: Seq<Seq<char>>)
    ensures
        !a.contains("<default>"@) ==> expand_listed(a, default) == a,
        expand_listed(a + seq!["<default>"@] + b, default) == expand_listed(a, default) + default + expand_listed(
            b,
            default,
        ),
    decreases b.len(),
{
    lemma_expand_without_marker(a, default);
    if b.len() == 0 {
        assert(a + seq!["<default>"@] + b =~= a.push("<default>"@));
        assert((a + seq!["<default>"@] + b).drop_last() =~= a);
    } else {
        lemma_default_marker(a, b.drop_last(), default);
        let x = a + seq!["<default>"@] + b;
        assert(x.drop_last() =~= a + seq!["<default>"@] + b.drop_last());
        assert(x.last() == b.last());
    }
}

proof fn lemma_expand_without_marker(a: Seq<Seq<char>>, default: Seq<Seq<char>>)
    ensures
        !a.contains("<default>"@) ==> expand_listed(a, default) == a,
    decreases a.len(),
{
    if a.len() > 0 && !a.contains("<default>"@) {
        assert forall|k: int| 0 <= k < a.drop_last().len() implies a.drop_last()[k] != "<default>"@ by {
            assert(a[k] == a.drop_last()[k]);
        }
        lemma_expand_without_marker(a.drop_last(), default);
        assert(a[a.len() - 1] != "<default>"@);
        assert(a.drop_last().push(a.last()) =~= a);
    }
}

/// The linker flags are the resolved common flags followed by the linker
/// list: with no `ld` list configured, the default linker flags, so an empty
/// Megaton.toml links with the default common flags then the default linker
/// flags; a configured list without a `<default>` marker is used as it is.
pub proof fn lemma_linker_flags(config: FlagConfig)
    ensures
        config.ld is None ==> resolved_ld(config) == resolved_common(config) + default_ld(),
        config.common is None ==> resolved_common(config) == default_common(),
        config.common is None && config.ld is None ==> resolved_ld(config) == default_common() + default_ld(),
        config.common is None && config.ld is None ==> resolved_ld(config).len() == 6 + 8,
        config.ld matches Some(l) ==> (!strs(l).contains("<default>"@) ==> resolved_ld(config) == resolved_common(
            config,
        ) + strs(l)),
{
    lemma_default_flag_lists();
    match config.ld {
        Some(l) => lemma_expand_without_marker(strs(l), default_ld()),
        None => {},
    }
}

/// With no flag lists configured, each kind of source gets the default flags
/// of every kind it extends: C gets the common and C defaults, C++ adds the
/// C++ defaults (`-std=c++20`, `-fno-rtti`, `-fno-exceptions`, ...), assembly
/// adds none, and the C flags end with the color switch.
pub proof fn lemma_default_compile_flags(config: FlagConfig, colored: bool)
    requires
        config.common is None,
        config.c is None,
        config.cxx is None,
        config.as_ is None,
    ensures
        resolved_c(config, colored) == default_common() + default_c() + seq![
            "-fdiagnostics-color="@ + color_flag_spec(colored),
        ],
        resolved_cxx(config, colored) == default_common() + default_c() + seq![
            "-fdiagnostics-color="@ + color_flag_spec(colored),
        ] + default_cpp(),
        resolved_as(config, colored) == resolved_cxx(config, colored),
{
    lemma_default_flag_lists();
    assert(resolved_as(config, colored) =~= resolved_cxx(config, colored));
}

/// The flags of each kind of source extend those of the kind before it: C
/// flags start with the common flags, C++ flags with the C flags, assembler
/// flags with the C++ flags, and linker flags with the common flags.
pub proof fn lemma_flag_inheritance(config: FlagConfig, colored: bool)
    ensures
        resolved_c(config, colored).take(resolved_common(config).len() as int) == resolved_common(config),
        resolved_cxx(config, colored).take(resolved_c(config, colored).len() as int) == resolved_c(config, colored),
        resolved_as(config, colored).take(resolved_cxx(config, colored).len() as int) == resolved_cxx(
            config,
            colored,
        ),
        resolved_ld(config).take(resolved_common(config).len() as int) == resolved_common(config),
{
    let common = resolved_common(config);
    assert(resolved_c(config, colored).take(common.len() as int) =~= common);
    assert(resolved_cxx(config, colored).take(resolved_c(config, colored).len() as int) =~= resolved_c(config, colored));
    assert(resolved_as(config, colored).take(resolved_cxx(config, colored).len() as int) =~= resolved_cxx(config, colored));
    assert(resolved_ld(config).take(common.len() as int) =~= common);
}

} // verus!
