//! Building libmegaton: where its files are, the flags it is compiled with,
//! where each object goes, and the progress lines of its build.
use vstd::prelude::*;

use crate::depfile::{is_whitespace, trim_start};
use crate::flags::{default_common, default_common_flags, default_cpp, default_cpp_flags, strs};
use crate::path::{ensure_path_sep, join_path, joined_path, with_sep};
use crate::ninjafile::{new_rule, ninja_rule_names, ninja_stmts, ninja_text, rule_parts, rule_variable, NinjaFile, NinjaStmt};
use crate::source::{SourceFile, SourceType};
use crate::text::{find_char_from, first_of, join_strings, joined, push_str, sub_string, to_chars};

verus! {

/// The places of libmegaton in the megaton repository
pub struct LibPaths {
    /// The sources: `<home>/lib/src`
    pub src: String,
    /// The headers: `<home>/lib/include`
    pub headers: String,
    /// The build output: `<home>/lib/build/bin`
    pub build: String,
    /// The objects, ending with a separator: `<home>/lib/build/bin/o/`
    pub build_o: String,
    /// The archive: `<home>/lib/build/bin/libmegaton.a`
    pub archive: String,
}

/// `<home>/lib`
pub open spec fn lib_root(home: Seq<char>) -> Seq<char> {
    joined_path(home, "lib"@)
}

/// `<home>/lib/build/bin`
pub open spec fn lib_build_root(home: Seq<char>) -> Seq<char> {
    joined_path(joined_path(lib_root(home), "build"@), "bin"@)
}

/// The places of libmegaton in the repository at `home`.
pub fn lib_paths(home: &str) -> (r: LibPaths)
    ensures
        r.src@ == joined_path(lib_root(home@), "src"@),
        r.headers@ == joined_path(lib_root(home@), "include"@),
        r.build@ == lib_build_root(home@),
        r.build_o@ == with_sep(joined_path(lib_build_root(home@), "o"@)),
        r.archive@ == joined_path(lib_build_root(home@), "libmegaton.a"@),
{
    let lib = join_path(home, "lib");
    let src = join_path(lib.as_str(), "src");
    let headers = join_path(lib.as_str(), "include");
    let b = join_path(lib.as_str(), "build");
    let build = join_path(b.as_str(), "bin");
    let mut build_o = join_path(build.as_str(), "o");
    ensure_path_sep(&mut build_o);
    let archive = join_path(build.as_str(), "libmegaton.a");
    LibPaths { src, headers, build, build_o, archive }
}

/// The flags libmegaton is compiled with, each set as one string
pub struct LibFlags {
    /// Flags for every source
    pub common: String,
    /// Flags for C sources
    pub c: String,
    /// Flags for C++ sources
    pub cxx: String,
    /// Flags for assembly sources
    pub assembly: String,
}

/// The flags shared by C and C++ sources: warnings as errors, optimized, the
/// library's define, and its two header directories.
pub open spec fn lib_base_flags(headers: Seq<char>, libnx_include: Seq<char>) -> Seq<char> {
    joined(
        seq!["-Wall"@, "-Werror"@, "-O3"@, "-DMEGATON_LIB"@, "-I"@ + headers + " "@ + "-I"@ + libnx_include],
        " "@,
    )
}

/// The flags libmegaton is compiled with, given its headers directory and
/// libnx's.
pub fn lib_flags(headers: &str, libnx_include: &str) -> (r: LibFlags)
    ensures
        r.common@ == joined(default_common(), " "@),
        r.c@ == lib_base_flags(headers@, libnx_include@) + " -xc"@,
        r.cxx@ == lib_base_flags(headers@, libnx_include@) + " "@ + joined(default_cpp(), " "@),
        r.assembly@ == "-x assembler-with-cpp "@ + lib_base_flags(headers@, libnx_include@) + " "@ + joined(
            default_cpp(),
            " "@,
        ),
{
    let common_list = default_common_flags();
    let common = join_strings(&common_list, " ");
    let mut include_flag = "-I".to_owned();
    push_str(&mut include_flag, headers);
    push_str(&mut include_flag, " -I");
    push_str(&mut include_flag, libnx_include);
    let mut base_list: Vec<String> = Vec::new();
    base_list.push("-Wall".to_owned());
    base_list.push("-Werror".to_owned());
    base_list.push("-O3".to_owned());
    base_list.push("-DMEGATON_LIB".to_owned());
    base_list.push(include_flag);
    proof {
        reveal_strlit(" -I");
        reveal_strlit(" ");
        reveal_strlit("-I");
        assert(" -I"@ =~= " "@ + "-I"@);
        assert(include_flag@ =~= "-I"@ + headers@ + " "@ + "-I"@ + libnx_include@);
    }
    assert(strs(base_list) =~= seq![
        "-Wall"@,
        "-Werror"@,
        "-O3"@,
        "-DMEGATON_LIB"@,
        "-I"@ + headers@ + " "@ + "-I"@ + libnx_include@,
    ]);
    let base = join_strings(&base_list, " ");
    let mut c = base.clone();
    push_str(&mut c, " -xc");
    let cpp_list = default_cpp_flags();
    let cpp = join_strings(&cpp_list, " ");
    let mut cxx = base;
    push_str(&mut cxx, " ");
    push_str(&mut cxx, cpp.as_str());
    let mut assembly = "-x assembler-with-cpp ".to_owned();
    push_str(&mut assembly, cxx.as_str());
    LibFlags { common, c, cxx, assembly }
}

/// The object a libmegaton source compiles to: its name hash with `.o`, in
/// the objects directory (which ends with a separator).
pub fn lib_object(build_o: &str, name_hash: &str) -> (r: String)
    ensures
        r@ == build_o@ + name_hash@ + ".o"@,
{
    let mut r = build_o.to_owned();
    push_str(&mut r, name_hash);
    push_str(&mut r, ".o");
    r
}

/// The name of the ninja rule that builds a source of type `t`.
pub open spec fn lib_rule_name(t: SourceType) -> Seq<char> {
    match t {
        SourceType::C => "cc"@,
        SourceType::Cpp => "cxx"@,
        SourceType::S => "as"@,
    }
}

/// The ninja rule that builds a source of type `t`.
pub fn lib_rule(t: SourceType) -> (r: &'static str)
    ensures
        r@ == lib_rule_name(t),
{
    match t {
        SourceType::C => "cc",
        SourceType::Cpp => "cxx",
        SourceType::S => "as",
    }
}

/// A rule that compiles with a dependency file in gcc's format.
pub open spec fn compile_rule(name: Seq<char>, command: Seq<char>, description: Seq<char>) -> NinjaStmt {
    NinjaStmt::Rule(
        name,
        seq![("command"@, command), ("depfile"@, "$out.d"@), ("deps"@, "gcc"@), ("description"@, description)],
    )
}

/// The object a libmegaton source compiles to (see [`lib_object`]).
pub open spec fn lib_object_of(build_o: Seq<char>, s: SourceFile) -> Seq<char> {
    build_o + s.name_hash@ + ".o"@
}

/// The objects of the sources, in order.
pub open spec fn lib_objects(build_o: Seq<char>, sources: Seq<SourceFile>) -> Seq<Seq<char>> {
    sources.map_values(|s: SourceFile| lib_object_of(build_o, s))
}

/// One edge per source: its object built from it by the rule of its type.
pub open spec fn source_edges(build_o: Seq<char>, sources: Seq<SourceFile>) -> Seq<NinjaStmt> {
    sources.map_values(
        |s: SourceFile| NinjaStmt::Build(lib_rule_name(s.typ), seq![lib_object_of(build_o, s)], seq![s.path@], seq![]),
    )
}

/// The statements of libmegaton's build.ninja: the compilers, archiver and
/// flags as variables; the rules for assembly, C, C++ and the archive; one
/// edge per source; the archive of all objects; the rule and edge that
/// regenerate the file `out`; and the archive as the default target.
pub open spec fn lib_ninja_plan(
    cc: Seq<char>,
    cxx: Seq<char>,
    ar: Seq<char>,
    flags: LibFlags,
    sources: Seq<SourceFile>,
    build_o: Seq<char>,
    archive: Seq<char>,
    out: Seq<char>,
) -> Seq<NinjaStmt> {
    seq![
        NinjaStmt::Comment("libmegaton build.ninja"@),
        NinjaStmt::Variable("common_flags"@, flags.common@),
        NinjaStmt::Variable("c_flags"@, flags.c@),
        NinjaStmt::Variable("cxx_flags"@, flags.cxx@),
        NinjaStmt::Variable("as_flags"@, flags.assembly@),
        NinjaStmt::Variable("cc"@, cc),
        NinjaStmt::Variable("cxx"@, cxx),
        NinjaStmt::Variable("ar"@, ar),
        compile_rule("as"@, "$cxx -MD -MP -MF $out.d $common_flags $as_flags -c $in -o $out"@, "Assembling $out"@),
        compile_rule("cc"@, "$cc -MD -MP -MF $out.d $common_flags $c_flags -c $in -o $out"@, "Compiling $out"@),
        compile_rule("cxx"@, "$cxx -MD -MP -MF $out.d $common_flags $cxx_flags -c $in -o $out"@, "Compiling $out"@),
        NinjaStmt::Rule("ar"@, seq![("command"@, "$ar rcs $out $in"@), ("description"@, "Linking $out"@)]),
    ] + source_edges(build_o, sources) + seq![
        NinjaStmt::Build("ar"@, seq![archive], lib_objects(build_o, sources), seq![]),
        NinjaStmt::Rule(
            "configure"@,
            seq![
                ("command"@, "cargo run --quiet --bin megaton-lib-configure -- -o $out"@),
                ("description"@, "Configuring build.ninja"@),
                ("generator"@, "1"@),
            ],
        ),
        NinjaStmt::Build("configure"@, seq![out], seq![], seq!["configure.rs"@]),
        NinjaStmt::Default(seq![archive]),
    ]
}

/// A rule of `name` that runs `command`, writes a dependency file in gcc's
/// format and shows `description`.
fn new_compile_rule(name: &str, command: &str, description: &str) -> (r: ninja_writer::Rule)
    ensures
        NinjaStmt::Rule(rule_parts(r).0, rule_parts(r).1) == compile_rule(name@, command@, description@),
{
    let r = new_rule(name, command);
    let r = rule_variable(r, "depfile", "$out.d");
    let r = rule_variable(r, "deps", "gcc");
    let r = rule_variable(r, "description", description);
    assert(rule_parts(r).1 =~= seq![("command"@, command@), ("depfile"@, "$out.d"@), ("deps"@, "gcc"@), ("description"@, description@)]);
    r
}

/// A list of one string.
fn single(s: String) -> (r: Vec<String>)
    ensures
        strs(r) == seq![s@],
{
    let mut r: Vec<String> = Vec::new();
    r.push(s);
    assert(strs(r) =~= seq![s@]);
    r
}

/// The text of libmegaton's build.ninja (see [`lib_ninja_plan`]): `cc`, `cxx`
/// and `ar` are the tools, `sources` the library's sources, `build_o` the
/// objects directory (ending with a separator), `archive` the library and
/// `out` the file itself.
pub fn lib_build_ninja(
    cc: &str,
    cxx: &str,
    ar: &str,
    flags: &LibFlags,
    sources: &Vec<SourceFile>,
    build_o: &str,
    archive: &str,
    out: &str,
) -> (r: String)
    ensures
        r@ == ninja_text(lib_ninja_plan(cc@, cxx@, ar@, *flags, sources@, build_o@, archive@, out@)),
{
    let mut f = NinjaFile::new();
    f.comment("libmegaton build.ninja");
    f.variable("common_flags", flags.common.as_str());
    f.variable("c_flags", flags.c.as_str());
    f.variable("cxx_flags", flags.cxx.as_str());
    f.variable("as_flags", flags.assembly.as_str());
    f.variable("cc", cc);
    f.variable("cxx", cxx);
    f.variable("ar", ar);
    f.add_rule(new_compile_rule("as", "$cxx -MD -MP -MF $out.d $common_flags $as_flags -c $in -o $out", "Assembling $out"));
    f.add_rule(new_compile_rule("cc", "$cc -MD -MP -MF $out.d $common_flags $c_flags -c $in -o $out", "Compiling $out"));
    f.add_rule(new_compile_rule("cxx", "$cxx -MD -MP -MF $out.d $common_flags $cxx_flags -c $in -o $out", "Compiling $out"));
    let r = new_rule("ar", "$ar rcs $out $in");
    let r = rule_variable(r, "description", "Linking $out");
    assert(rule_parts(r).1 =~= seq![("command"@, "$ar rcs $out $in"@), ("description"@, "Linking $out"@)]);
    f.add_rule(r);
    let ghost head = ninja_stmts(f);
    assert(ninja_rule_names(f) =~= seq!["as"@, "cc"@, "cxx"@, "ar"@]);
    let mut objects: Vec<String> = Vec::new();
    let mut i: usize = 0;
    while i < sources.len()
        invariant
            i <= sources@.len(),
            ninja_stmts(f) == head + source_edges(build_o@, sources@.take(i as int)),
            ninja_rule_names(f) == seq!["as"@, "cc"@, "cxx"@, "ar"@],
            strs(objects) == lib_objects(build_o@, sources@.take(i as int)),
        decreases sources@.len() - i,
    {
        let s = &sources[i];
        let object = lib_object(build_o, s.name_hash.as_str());
        let rule: usize = match s.typ {
            SourceType::S => 0,
            SourceType::C => 1,
            SourceType::Cpp => 2,
        };
        let outs = single(object.clone());
        let ins = single(s.path.clone());
        let none: Vec<String> = Vec::new();
        assert(strs(none) =~= Seq::<Seq<char>>::empty());
        f.edge(rule, &outs, &ins, &none);
        let ghost before = strs(objects);
        objects.push(object);
        assert(strs(objects) =~= before.push(lib_object_of(build_o@, *s)));
        assert(sources@.take(i + 1).drop_last() =~= sources@.take(i as int));
        assert(sources@.take(i + 1) =~= sources@.take(i as int).push(*s));
        assert(source_edges(build_o@, sources@.take(i + 1)) =~= source_edges(build_o@, sources@.take(i as int)).push(
            NinjaStmt::Build(lib_rule_name(s.typ), seq![lib_object_of(build_o@, *s)], seq![s.path@], seq![]),
        ));
        assert(strs(objects) =~= lib_objects(build_o@, sources@.take(i + 1)));
        i += 1;
    }
    assert(sources@.take(sources@.len() as int) =~= sources@);
    let archive_out = single(archive.to_owned());
    let no_inputs: Vec<String> = Vec::new();
    assert(strs(no_inputs) =~= Seq::<Seq<char>>::empty());
    f.edge(3, &archive_out, &objects, &no_inputs);
    let g = new_rule("configure", "cargo run --quiet --bin megaton-lib-configure -- -o $out");
    let g = rule_variable(g, "description", "Configuring build.ninja");
    let g = rule_variable(g, "generator", "1");
    assert(rule_parts(g).1 =~= seq![
        ("command"@, "cargo run --quiet --bin megaton-lib-configure -- -o $out"@),
        ("description"@, "Configuring build.ninja"@),
        ("generator"@, "1"@),
    ]);
    f.add_rule(g);
    let generated = single(out.to_owned());
    let implicit = single("configure.rs".to_owned());
    f.edge(4, &generated, &no_inputs, &implicit);
    f.defaults(&archive_out);
    assert(ninja_stmts(f) =~= lib_ninja_plan(cc@, cxx@, ar@, *flags, sources@, build_o@, archive@, out@));
    f.render()
}

/// What a progress line of ninja shows: after the first `]` and the white
/// space that follows, the status up to the first space, and the path after it.
pub open spec fn ninja_progress(line: Seq<char>) -> Option<(Seq<char>, Seq<char>)> {
    match first_of(line, ']') {
        None => None,
        Some(i) => {
            let rest = trim_start(line.skip(i + 1));
            match first_of(rest, ' ') {
                None => None,
                Some(s) => Some((rest.take(s), rest.skip(s + 1))),
            }
        },
    }
}

/// The status and the path a progress line of ninja shows (see [`ninja_progress`]).
#[verifier::spinoff_prover]
pub fn ninja_status(line: &str) -> (r: Option<(String, String)>)
    ensures
        match ninja_progress(line@) {
            None => r is None,
            Some(p) => match r {
                Some(q) => q.0@ == p.0 && q.1@ == p.1,
                None => false,
            },
        },
{
    let v = to_chars(line);
    assert(v@.skip(0) =~= v@);
    let i = match find_char_from(&v, ']', 0) {
        None => {
            return None;
        },
        Some(i) => i,
    };
    let mut a: usize = i + 1;
    assert(v@.skip(a as int) =~= line@.skip(i + 1));
    while a < v.len() && is_whitespace(v[a])
        invariant
            i + 1 <= a <= v@.len(),
            trim_start(v@.skip(a as int)) == trim_start(line@.skip(i + 1)),
        decreases v@.len() - a,
    {
        assert(v@.skip(a as int).skip(1) =~= v@.skip(a + 1));
        a += 1;
    }
    let ghost rest = v@.skip(a as int);
    assert(trim_start(rest) == rest);
    let s = match find_char_from(&v, ' ', a) {
        None => {
            return None;
        },
        Some(s) => s,
    };
    let status = sub_string(&v, a, s);
    let path = sub_string(&v, s + 1, v.len());
    assert(status@ =~= rest.take(s - a));
    assert(path@ =~= rest.skip(s - a + 1));
    Some((status, path))
}

} // verus!
