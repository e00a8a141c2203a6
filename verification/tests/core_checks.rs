use megaton::builder::{up_to_date, Builder, MTime, MTimeProbe, ObjectState, SourceResult};
use megaton::compdb::{escape_json, inject_system_headers, CompileCommand, CompileDB, CompileDBEntry};
use megaton::config::{Build, Module};
use megaton::depfile::depfile_dependencies;
use megaton::env::{Env, ProjectEnv, SystemHeaderPaths};
use megaton::flags::{default_c_flags, default_common_flags, prefix_all, FlagConfig, Flags, Unused};
use megaton::hex::{to_decimal, to_hex16};
use megaton::outmap::OutputMap;
use megaton::source::{SourceFile, SourceType};

fn strings(v: &[&str]) -> Vec<String> {
    v.iter().map(|s| s.to_string()).collect()
}

fn headers() -> SystemHeaderPaths {
    SystemHeaderPaths { c: strings(&["/c1", "/c2"]), cxx: strings(&["/x1"]) }
}

#[test]
fn hex_and_decimal() {
    assert_eq!(to_hex16(0), "0000000000000000");
    assert_eq!(to_hex16(0x0100_0000_0000_abcd), "010000000000abcd");
    assert_eq!(to_hex16(u64::MAX), "ffffffffffffffff");
    assert_eq!(to_decimal(0), "0");
    assert_eq!(to_decimal(1234567890), "1234567890");
}

#[test]
fn source_types_by_extension() {
    assert_eq!(SourceType::from_ext("c"), Some(SourceType::C));
    for e in ["cpp", "cc", "cxx", "c++"] {
        assert_eq!(SourceType::from_ext(e), Some(SourceType::Cpp));
    }
    assert_eq!(SourceType::from_ext("s"), Some(SourceType::S));
    assert_eq!(SourceType::from_ext("asm"), Some(SourceType::S));
    assert_eq!(SourceType::from_ext("h"), None);
    assert_eq!(SourceType::from_ext("C"), None);
    assert_eq!(SourceType::from_file("/a/b.cpp"), Some(SourceType::Cpp));
    assert_eq!(SourceType::from_file("/a/b"), None);
    assert_eq!(SourceType::parse_path("/a/b.cpp"), Some((SourceType::Cpp, "b", "cpp")));
    assert_eq!(SourceType::parse_path("src/main.c"), Some((SourceType::C, "main", "c")));
    assert_eq!(SourceType::parse_path("main.s"), Some((SourceType::S, "main", "s")));
    assert_eq!(SourceType::parse_path("a\\b.asm"), Some((SourceType::S, "b", "asm")));
    assert_eq!(SourceType::parse_path("/a/.c"), None);
    assert_eq!(SourceType::parse_path("/a/b.h"), None);
    assert_eq!(SourceType::parse_path("/a/b"), None);
}

#[test]
fn source_file_names() {
    let f = SourceFile::with_hash("/p/src/main.cpp", 0xabc).unwrap();
    assert_eq!(f.typ, SourceType::Cpp);
    assert_eq!(f.path, "/p/src/main.cpp");
    assert_eq!(f.name_hash, "main-0000000000000abc.cpp");
    assert!(SourceFile::with_hash("/p/src/readme.md", 1).is_none());
    assert!(SourceFile::with_hash("/p/src/.c", 1).is_none());
    let g = SourceFile::from_path("/p/src/x.s").unwrap();
    assert_eq!(g.typ, SourceType::S);
    assert!(g.name_hash.starts_with("x-") && g.name_hash.ends_with(".s") && g.name_hash.len() == 2 + 16 + 2);
    // same name in another directory: another object; same path: the same object
    let h = SourceFile::from_path("/p/other/x.s").unwrap();
    assert_ne!(g.name_hash, h.name_hash);
    assert_eq!(SourceFile::from_path("/p/src/x.s").unwrap().name_hash, g.name_hash);
    assert!(SourceFile::from_path("/p/src/x.txt").is_none());
}

#[test]
fn flags_resolution_defaults() {
    let f = Flags::from_config(&FlagConfig::default(), true);
    let mut c = default_common_flags();
    c.extend(default_c_flags());
    c.push("-fdiagnostics-color=always".to_string());
    assert_eq!(f.cflags, c);
    assert!(f.cxxflags.starts_with(&f.cflags));
    assert!(f.sflags.starts_with(&f.cxxflags));
    assert!(f.ldflags.starts_with(&default_common_flags()));
    let custom = FlagConfig {
        common: Some(strings(&["-g0"])),
        c: Some(strings(&["<default>", "-DX"])),
        cxx: None,
        as_: None,
        ld: Some(vec![]),
        unused: Unused::default(),
    };
    let f = Flags::from_config(&custom, false);
    let mut c = strings(&["-g0"]);
    c.extend(default_c_flags());
    c.push("-DX".to_string());
    c.push("-fdiagnostics-color=never".to_string());
    assert_eq!(f.cflags, c);
    assert_eq!(f.ldflags, strings(&["-g0"]));
}

#[test]
fn flags_additions() {
    let mut f = Flags { cflags: vec![], cxxflags: vec![], sflags: vec![], ldflags: vec![] };
    f.add_defines(&strings(&["A=1"]));
    f.add_includes(&strings(&["/inc"]));
    f.set_init("entry");
    f.set_version_script("/v");
    f.add_libpaths(&strings(&["/l"]));
    f.add_libraries(&strings(&["m"]));
    f.add_ldscripts(&strings(&["/s.ld"]));
    assert_eq!(f.cflags, strings(&["-DA=1", "-I/inc"]));
    assert_eq!(f.cxxflags, strings(&["-DA=1", "-I/inc"]));
    assert_eq!(f.ldflags, strings(&["-Wl,-init=entry", "-Wl,--version-script=/v", "-L/l", "-lm", "-Wl,-T/s.ld"]));
    assert_eq!(prefix_all("-I", &strings(&["a", "b"])), strings(&["-Ia", "-Ib"]));
}

#[test]
fn unused_key_warnings() {
    let u = Unused { keys: strings(&["a", "b"]) };
    assert_eq!(u.check(), strings(&["config `a` is unused", "config `b` is unused"]));
    assert_eq!(u.check_prefixed("build"), strings(&["config `build.a` is unused", "config `build.b` is unused"]));
}

#[test]
fn header_flags_injected_before_first_include() {
    let sh = headers();
    let mut cmd = strings(&["g++", "-O2", "-Ifoo", "-c", "a.cpp"]);
    sh.add_to_command_vec("a.cpp", &mut cmd);
    assert_eq!(cmd, strings(&["g++", "-O2", "-I/x1", "-I/c1", "-I/c2", "-Ifoo", "-c", "a.cpp"]));
    let mut c_cmd = strings(&["gcc", "-O2"]);
    sh.add_to_command_vec("a.c", &mut c_cmd);
    assert_eq!(c_cmd, strings(&["gcc", "-O2", "-I/c1", "-I/c2"]));
    let mut other = strings(&["as", "-c"]);
    sh.add_to_command_vec("a.txt", &mut other);
    assert_eq!(other, strings(&["as", "-c"]));
    let mut s = "gcc -O2 -c a.c -o a.o".to_string();
    sh.add_to_command_str("a.c", &mut s);
    assert_eq!(s, "gcc -O2 -I/c1 -I/c2 -c a.c -o a.o");
    let mut late = strings(&["gcc", "-I/a", "-I/b", "-c", "/src/a.c"]);
    sh.add_to_command_vec("/src/a.c", &mut late);
    assert_eq!(late, strings(&["gcc", "-I/c1", "-I/c2", "-I/a", "-I/b", "-c", "/src/a.c"]));
    let mut twice = "gcc -I/a -I/b -c /src/a.c".to_string();
    sh.add_to_command_str("/src/a.c", &mut twice);
    assert_eq!(twice, "gcc -I/c1 -I/c2 -I/a -I/b -c /src/a.c");
    let mut no_marks = "gcc a.c".to_string();
    sh.add_to_command_str("a.c", &mut no_marks);
    assert_eq!(no_marks, "gcc a.c -I/c1 -I/c2");
    assert_eq!(sh.write("a.c", true), " -I/c1 -I/c2 ");
    assert_eq!(sh.write("a.c", false), "-I/c1 -I/c2 ");
}

#[test]
fn header_flags_go_before_include_after_output() {
    let sh = SystemHeaderPaths { c: strings(&["/c1"]), cxx: strings(&["/x1"]) };
    let mut cmd = strings(&["g++", "-o", "a.o", "-Ia", "/src/a.cpp"]);
    sh.add_to_command_vec("/src/a.cpp", &mut cmd);
    assert_eq!(cmd, strings(&["g++", "-o", "a.o", "-I/x1", "-I/c1", "-Ia", "/src/a.cpp"]));
    let mut out_first = strings(&["g++", "-o", "a.o", "-c", "/src/a.cpp"]);
    sh.add_to_command_vec("/src/a.cpp", &mut out_first);
    assert_eq!(out_first, strings(&["g++", "-I/x1", "-I/c1", "-o", "a.o", "-c", "/src/a.cpp"]));
    let mut s = "gcc -I/a -I/b -c /src/a.c".to_string();
    let c_only = SystemHeaderPaths { c: strings(&["/c1"]), cxx: vec![] };
    c_only.add_to_command_str("/src/a.c", &mut s);
    assert_eq!(s, "gcc -I/c1 -I/a -I/b -c /src/a.c");
}

#[test]
fn compile_commands_are_injected() {
    let sh = headers();
    let mut cmds = vec![CompileCommand {
        directory: "/".to_string(),
        arguments: None,
        command: Some("gcc -c a.c".to_string()),
        file: "a.c".to_string(),
        output: "a.o".to_string(),
    }];
    inject_system_headers(&sh, &mut cmds);
    assert_eq!(cmds[0].command, Some("gcc -I/c1 -I/c2 -c a.c".to_string()));
    assert_eq!(cmds[0].arguments, None);
}

#[test]
fn compile_db_json() {
    assert_eq!(escape_json("a\\b\"c"), "a\\\\b\\\"c");
    assert_eq!(escape_json("a\nb\tc\r\u{8}\u{c}"), "a\\nb\\tc\\r\\b\\f");
    assert_eq!(escape_json("\u{1}\u{1f}é"), "\\u0001\\u001fé");
    let odd = CompileDBEntry { args: strings(&["g\"cc"]), file: "/s/a\n.c".to_string() };
    let odd_sh = SystemHeaderPaths { c: strings(&["/c\"q"]), cxx: vec![] };
    assert_eq!(
        odd.write_as_compile_command(&odd_sh, "/o/a.o"),
        "{\"directory\":\"/\",\n\"file\":\"/s/a\\n.c\",\n\"output\":\"/o/a.o\",\n\"command\":\"g\\\"cc -I/c\\\"q -c -o /o/a.o /s/a\\n.c\"}"
    );
    let sh = SystemHeaderPaths { c: strings(&["/c"]), cxx: vec![] };
    let e = CompileDBEntry::new("gcc", "/s/a.c", "/o/a.d".to_string(), &strings(&["-O2"]));
    assert_eq!(e.args, strings(&["gcc", "-MMD", "-MP", "-MF", "/o/a.d", "-O2"]));
    let (program, rest) = e.command_line("/o/a.o");
    assert_eq!(program, "gcc");
    assert_eq!(rest, strings(&["-MMD", "-MP", "-MF", "/o/a.d", "-O2", "-c", "-o", "/o/a.o", "/s/a.c"]));
    let json = e.write_as_compile_command(&sh, "/o/a.o");
    assert_eq!(
        json,
        "{\"directory\":\"/\",\n\"file\":\"/s/a.c\",\n\"output\":\"/o/a.o\",\n\"command\":\"gcc -MMD -MP -MF /o/a.d -O2 -I/c -c -o /o/a.o /s/a.c\"}"
    );
    let mut db: CompileDB = OutputMap::new();
    assert_eq!(db.write_as_compile_commands(&sh), "[]\n");
    db.insert("/o/a.o".to_string(), e);
    assert_eq!(db.write_as_compile_commands(&sh), format!("[{},\n{}]\n", json, json));
    let b = CompileDBEntry::new("gcc", "/s/b.c", "/o/b.d".to_string(), &vec![]);
    let json_b = b.write_as_compile_command(&sh, "/o/b.o");
    db.insert("/o/b.o".to_string(), b);
    let all = db.write_as_compile_commands(&sh);
    assert!(
        all == format!("[{},\n{},\n{}]\n", json, json, json_b) || all == format!("[{},\n{},\n{}]\n", json_b, json_b, json)
    );
}

#[test]
fn output_map_operations() {
    let mut m: OutputMap<CompileDBEntry> = OutputMap::new();
    m.insert("a".to_string(), CompileDBEntry { args: strings(&["1"]), file: "f".to_string() });
    m.insert("b".to_string(), CompileDBEntry { args: strings(&["2"]), file: "g".to_string() });
    m.insert("a".to_string(), CompileDBEntry { args: strings(&["3"]), file: "h".to_string() });
    assert_eq!(m.len(), 2);
    assert_eq!(m.get("a").unwrap().file, "h");
    let mut old: OutputMap<CompileDBEntry> = OutputMap::new();
    old.insert("a".to_string(), CompileDBEntry { args: vec![], file: "old-a".to_string() });
    old.insert("c".to_string(), CompileDBEntry { args: vec![], file: "old-c".to_string() });
    m.merge_old(old);
    assert_eq!(m.len(), 3);
    assert_eq!(m.get("a").unwrap().file, "h");
    assert_eq!(m.get("c").unwrap().file, "old-c");
    assert_eq!(m.remove("b").unwrap().file, "g");
    assert!(m.get("b").is_none());
}

#[test]
fn depfile_lists_dependencies() {
    let lines = strings(&[
        "/o/a.o: /s/a.c \\",
        "  /s/a.h /s/my\\ file.h \\",
        "  /s/b.h",
        "/s/a.h:",
        "/s/never.h",
    ]);
    assert_eq!(depfile_dependencies(&lines), strings(&["/s/a.h", "/s/my file.h", "/s/b.h"]));
    assert_eq!(depfile_dependencies(&vec![]), Vec::<String>::new());
}

#[test]
fn up_to_date_edges() {
    let t = |s| Some(MTime { seconds: s, nanos: 0 });
    assert!(!up_to_date(t(1), t(1)));
    assert!(up_to_date(t(1), t(2)));
    assert!(!up_to_date(t(2), t(1)));
    assert!(!up_to_date(None, t(1)));
    assert!(!up_to_date(t(1), None));
    assert!(up_to_date(Some(MTime { seconds: 1, nanos: 5 }), Some(MTime { seconds: 1, nanos: 6 })));
    assert!(!up_to_date(Some(MTime { seconds: 1, nanos: 6 }), Some(MTime { seconds: 1, nanos: 6 })));
    assert!(!up_to_date(Some(MTime { seconds: 1, nanos: 7 }), Some(MTime { seconds: 1, nanos: 6 })));
}

fn env() -> ProjectEnv {
    let e = Env {
        megaton_home: "/h".to_string(),
        devkitpro: "/dkp".to_string(),
        system_headers: SystemHeaderPaths { c: vec![], cxx: vec![] },
        rustup: String::new(),
        rustc: String::new(),
        cargo: String::new(),
        git: String::new(),
        ninja: String::new(),
        cmake: String::new(),
    };
    ProjectEnv::load(e, "/p".to_string(), "none", "mod")
}

fn module() -> Module {
    Module { name: "mod".to_string(), title_id: 1, default_profile: None, disallow_base_profile: false, unused: Unused::default() }
}

fn plain_build() -> Build {
    Build {
        libmegaton: false,
        entry: Some("main".to_string()),
        sources: strings(&["src"]),
        includes: vec![],
        libpaths: strings(&["lib"]),
        libraries: strings(&["m"]),
        ldscripts: vec![],
        flags: FlagConfig::default(),
        unused: Unused::default(),
    }
}

#[test]
fn builder_sources_and_commands() {
    let env = env();
    let b = Builder::new(&env, &module(), &plain_build(), false, &strings(&["inc"])).ok().unwrap();
    assert_eq!(b.source_dirs, strings(&["/p/src"]));
    let mut with_lib = plain_build();
    with_lib.libmegaton = true;
    assert!(Builder::new(&env, &module(), &with_lib, false, &vec![]).is_err());
    let f = SourceFile::with_hash("/p/src/a.c", 1).unwrap();
    let mut map = OutputMap::new();
    match b.process_source(Some(f), ObjectState::Missing, false, &mut map) {
        SourceResult::NeedCompile(c) => {
            assert_eq!(c.output, "/p/target/megaton/none/o/a-0000000000000001.c.o");
            assert_eq!(c.arguments[0], env.env.cc);
            assert_eq!(c.arguments[1..5].to_vec(), strings(&["-MMD", "-MP", "-MF", "/p/target/megaton/none/o/a-0000000000000001.c.d"]));
            assert_eq!(c.arguments[c.arguments.len() - 4..].to_vec(), strings(&["-c", "-o", &c.output, "/p/src/a.c"]));
        }
        _ => panic!("expected a compile"),
    }
    let f = SourceFile::with_hash("/p/src/a.c", 1).unwrap();
    match b.process_source(Some(f), ObjectState::DepsCurrent, false, &mut map) {
        SourceResult::UpToDate(o) => assert_eq!(o, "/p/target/megaton/none/o/a-0000000000000001.c.o"),
        _ => panic!("expected up to date"),
    }
    assert!(matches!(b.process_source(None, ObjectState::Missing, false, &mut map), SourceResult::NotSource));
}

#[test]
fn library_changes_force_linking() {
    let env = env();
    let build = plain_build();
    let b = Builder::new(&env, &module(), &build, false, &vec![]).ok().unwrap();
    assert_eq!(b.library_candidates(&build), strings(&["/p/lib/libm.a"]));
    let elf = Some(MTime { seconds: 10, nanos: 0 });
    let newer = MTimeProbe::Found(Some(MTime { seconds: 11, nanos: 0 }));
    assert_eq!(b.check_lib_changed(&build, elf, MTimeProbe::NotFound, &vec![MTimeProbe::NotFound]), Ok(false));
    assert_eq!(b.check_lib_changed(&build, elf, MTimeProbe::NotFound, &vec![newer]), Ok(true));
    assert_eq!(b.check_lib_changed(&build, elf, MTimeProbe::NotFound, &vec![MTimeProbe::Failed]), Ok(true));
    let same = MTimeProbe::Found(Some(MTime { seconds: 10, nanos: 0 }));
    assert_eq!(b.check_lib_changed(&build, elf, MTimeProbe::NotFound, &vec![same]), Ok(true));
    let older = MTimeProbe::Found(Some(MTime { seconds: 9, nanos: 999 }));
    assert_eq!(b.check_lib_changed(&build, elf, MTimeProbe::NotFound, &vec![older]), Ok(false));
}

#[test]
fn linker_configuration() {
    let env = env();
    let build = plain_build();
    let mut b = Builder::new(&env, &module(), &build, false, &vec![]).ok().unwrap();
    let before = b.flags.ldflags.len();
    assert!(b.configure_linker(&build, false).is_ok());
    assert_eq!(
        b.flags.ldflags[before..].to_vec(),
        strings(&["-Wl,-init=main", "-Wl,--version-script=/p/target/megaton/none/verfile", "-L/p/lib", "-lm"])
    );
    let (program, args) = b.link_command(&strings(&["/o/a.o"]));
    assert_eq!(program, env.env.cxx);
    assert!(args.contains(&"/o/a.o".to_string()));
}
