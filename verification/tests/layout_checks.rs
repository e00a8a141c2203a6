use megaton::config::Module;
use megaton::env::{dkp_probe_paths, Env, EnvError, EnvProbe, ProjectEnv, SystemHeaderPaths, Tone, ToolProbe};
use megaton::flags::Unused;
use megaton::hammer::{self, Make, MakeError, MegatonConfig};
use megaton::libbuild::{lib_build_ninja, lib_flags, lib_object, lib_paths, lib_rule, ninja_status, LibFlags};
use megaton::path::{rebase, try_rebase};
use megaton::source::{SourceFile, SourceType};

fn env(home: &str) -> Env {
    Env {
        megaton_home: home.to_string(),
        devkitpro: "/opt/devkitpro".to_string(),
        system_headers: SystemHeaderPaths { c: vec![], cxx: vec![] },
        rustup: "rustup".to_string(),
        rustc: "rustc".to_string(),
        cargo: "cargo".to_string(),
        git: "git".to_string(),
        ninja: "ninja".to_string(),
        cmake: "cmake".to_string(),
    }
}

#[test]
fn lib_paths_under_home() {
    let p = lib_paths("/h");
    assert_eq!(p.src, "/h/lib/src");
    assert_eq!(p.headers, "/h/lib/include");
    assert_eq!(p.build, "/h/lib/build/bin");
    assert_eq!(p.build_o, "/h/lib/build/bin/o/");
    assert_eq!(p.archive, "/h/lib/build/bin/libmegaton.a");
}

#[test]
fn lib_flag_strings() {
    let f = lib_flags("/h/lib/include", "/dkp/libnx/include");
    assert_eq!(f.common, "-march=armv8-a+crc+crypto -mtune=cortex-a57 -mtp=soft -fPIC -fvisibility=hidden -g");
    assert_eq!(f.c, "-Wall -Werror -O3 -DMEGATON_LIB -I/h/lib/include -I/dkp/libnx/include -xc");
    assert_eq!(
        f.cxx,
        "-Wall -Werror -O3 -DMEGATON_LIB -I/h/lib/include -I/dkp/libnx/include -std=c++20 -fno-rtti -fno-exceptions -fno-asynchronous-unwind-tables -fno-unwind-tables"
    );
    assert_eq!(f.assembly, format!("-x assembler-with-cpp {}", f.cxx));
}

#[test]
fn lib_objects_and_rules() {
    assert_eq!(lib_object("/o/", "main-0123456789abcdef.cpp"), "/o/main-0123456789abcdef.cpp.o");
    assert_eq!(lib_rule(SourceType::C), "cc");
    assert_eq!(lib_rule(SourceType::Cpp), "cxx");
    assert_eq!(lib_rule(SourceType::S), "as");
}

#[test]
fn ninja_progress_lines() {
    assert_eq!(
        ninja_status("[3/10] Compiling bin/o/a.o"),
        Some(("Compiling".to_string(), "bin/o/a.o".to_string()))
    );
    assert_eq!(ninja_status("[1/1]   Linking bin/libmegaton.a"), Some(("Linking".to_string(), "bin/libmegaton.a".to_string())));
    assert_eq!(ninja_status("ninja: no work to do."), None);
    assert_eq!(ninja_status("[1/1] done"), None);
}

#[test]
fn rebase_paths() {
    assert_eq!(rebase("/p/target/megaton", "/p"), "target/megaton");
    assert_eq!(rebase("/a/b", "/a/c"), "../b");
    assert_eq!(try_rebase("rel", "/p"), None);
    assert_eq!(try_rebase("/p/x", "/p"), Some("x".to_string()));
}

#[test]
fn project_paths_from_root() {
    let p = ProjectEnv::load(env("/h"), "/p".to_string(), "dev", "mod");
    assert_eq!(p.target, "/p/target/megaton/dev");
    assert_eq!(p.elf, "/p/target/megaton/dev/mod.elf");
    assert_eq!(p.from_root("/p/src/a.c"), "src/a.c");
    assert_eq!(p.display_from_root("src/a.c"), None);
}

fn probe(found: bool) -> EnvProbe {
    let t = |name: &str| if found { Some(format!("/usr/bin/{}", name)) } else { None };
    EnvProbe {
        home: "/h".to_string(),
        devkitpro_var: "/opt/devkitpro".to_string(),
        devkitpro_canonical: Some("/opt/devkitpro".to_string()),
        tools: ToolProbe {
            rustup: t("rustup"),
            rustc: t("rustc"),
            cargo: t("cargo"),
            git: t("git"),
            ninja: t("ninja"),
            cmake: t("cmake"),
        },
        system_headers: SystemHeaderPaths { c: vec!["/c".to_string()], cxx: vec!["/x".to_string()] },
        header_paths_exist: vec![true, true],
    }
}

#[test]
fn env_from_cache_and_load() {
    let e = Env::from_cache(env("/old"), "/new");
    assert_eq!(e.megaton_home, "/new");
    assert_eq!(e.git, "git");
    let (r, out) = Env::load(&probe(true), true, vec![true; 7]);
    let e = r.ok().unwrap();
    assert_eq!(e.megaton_home, "/h");
    assert_eq!(e.git, "/usr/bin/git");
    assert_eq!(out.len(), 1 + 1 + 6 + 1 + 1 + 7);
    let (r, out) = Env::load(&probe(true), true, vec![true, true, true, true, true, true, false]);
    assert_eq!(r.err(), Some(EnvError::InitEnv));
    let n = out.len();
    assert_eq!(out[n - 2].tone, Tone::Error);
    assert_eq!(out[n - 2].message, "Cannot initialize environment");
    assert_eq!(out[n - 4].status, "Missing");
    assert_eq!(out[n - 4].message, "npdmtool");
}

#[test]
fn full_check_includes_devkitpro_root() {
    let (r, out) = Env::check_probe(&probe(true), &None);
    assert!(r.is_some());
    assert_eq!(out.len(), 9);
    let (r, out) = Env::check(&probe(true), false, vec![true; 7]);
    assert!(r.is_none());
    assert_eq!(out[9].status, "Missing");
    assert_eq!(out[9].message, "libnx/include");
    assert_eq!(out.len(), 9 + 2 + 7);
    let (r, _) = Env::check_probe(&probe(true), &Some((true, vec![true; 7])));
    assert_eq!(r.unwrap().devkitpro, "/opt/devkitpro");
    let (r, _) = Env::check(&probe(false), true, vec![true; 7]);
    assert!(r.is_none());
}

#[test]
fn devkitpro_probe_paths() {
    let (libnx, tools) = dkp_probe_paths("/opt/devkitpro");
    assert_eq!(libnx, "/opt/devkitpro/libnx/include");
    assert_eq!(tools.len(), 7);
    assert_eq!(tools[0], "/opt/devkitpro/devkitA64/bin/aarch64-none-elf-gcc");
    assert_eq!(tools[3], "/opt/devkitpro/devkitA64/bin/aarch64-none-elf-ar");
    assert_eq!(tools[6], "/opt/devkitpro/tools/bin/npdmtool");
}

#[test]
fn gcc_version_directory() {
    let one = Some(Some("/c/13.2.0".to_string()));
    assert_eq!(SystemHeaderPaths::join_gcc_version("/c", &one, false, &None), Some("/c/13.2.0".to_string()));
    assert_eq!(
        SystemHeaderPaths::join_gcc_version("/c", &one, true, &Some("14.1.0".to_string())),
        Some("/c/14.1.0".to_string())
    );
    assert_eq!(SystemHeaderPaths::join_gcc_version("/c", &one, true, &None), None);
    assert_eq!(SystemHeaderPaths::join_gcc_version("/c", &Some(None), false, &None), None);
    assert_eq!(SystemHeaderPaths::join_gcc_version("/c", &None, false, &None), None);
}

#[test]
fn hammer_clean_target() {
    assert_eq!(hammer::clean("/p", "none"), "/p/target/megaton");
    assert_eq!(hammer::clean("/p", "dev"), "/p/target/megaton/dev");
}

fn config(entry: Option<&str>, no_default: Option<bool>) -> MegatonConfig {
    MegatonConfig {
        module: Module {
            name: "mymod".to_string(),
            title_id: 0x0100000000001000,
            default_profile: None,
            disallow_base_profile: false,
            unused: Unused { keys: vec![] },
        },
        make: Make {
            entry: entry.map(|e| e.to_string()),
            extra: vec![("A".to_string(), "1".to_string()), ("B".to_string(), "2".to_string())],
            sources: vec!["src".to_string(), "lib".to_string()],
            includes: vec!["include".to_string()],
            ld_scripts: vec!["link.ld".to_string()],
            defines: vec!["X=1".to_string()],
            no_default_flags: no_default,
        },
    }
}

#[test]
fn makefile_needs_entry() {
    assert_eq!(config(None, None).create_makefile(), Err(MakeError::NoEntryPoint));
}

#[test]
fn makefile_fields_in_place() {
    let text = config(Some("main"), None).create_makefile().unwrap();
    assert!(text.starts_with("\n# GENERATED BY MEGATON HAMMER\ninclude $(DEVKITPRO)/libnx/switch_rules\n"));
    assert!(text.contains("MEGATON_MODULE_NAME := mymod\n"));
    assert!(text.contains("MEGATON_MODULE_ENTRY := main\n"));
    assert!(text.contains("MEGATON_MODULE_TITLE_ID := 0x0100000000001000\n"));
    assert!(text.contains("\nA := 1\nB := 2\n"));
    assert!(text.contains("SOURCES          := $(SOURCES) $(MEGATON_ROOT)src $(MEGATON_ROOT)lib\n"));
    assert!(text.contains("INCLUDES         := $(INCLUDES) $(MEGATON_ROOT)include\n"));
    assert!(text.contains("DEFINES          := $(DEFINES) -DX=1\n"));
    assert!(text.contains("ARCH_FLAGS       := $(ARCH_FLAGS) $(DEFAULT_ARCH_FLAGS)\n"));
    assert!(text.contains("LD_SCRIPTS       := $(MEGATON_ROOT)link.ld\n"));
    assert!(text.contains("LIBS             := $(LIBS) $(DEFAULT_LIBS)\n"));
    assert!(text.ends_with("-include $(DFILES)\n\n"));
}

#[test]
fn makefile_without_default_flags() {
    let text = config(Some("main"), Some(true)).create_makefile().unwrap();
    assert!(text.contains("ARCH_FLAGS       := $(ARCH_FLAGS) \n"));
    assert!(text.contains("LIBS             := $(LIBS) \n"));
    let with_false = config(Some("main"), Some(false)).create_makefile().unwrap();
    assert!(with_false.contains("LIBS             := $(LIBS) $(DEFAULT_LIBS)\n"));
}

#[test]
fn lib_build_ninja_text() {
    let flags = LibFlags { common: "-g".to_string(), c: "-xc".to_string(), cxx: "-std".to_string(), assembly: "-x".to_string() };
    let sources = vec![
        SourceFile::with_hash("/h/lib/src/a.c", 1).unwrap(),
        SourceFile::with_hash("/h/lib/src/b.s", 2).unwrap(),
    ];
    let text = lib_build_ninja("gcc", "g++", "ar", &flags, &sources, "/o/", "/o/lib.a", "build.ninja");
    let expected = "\n# libmegaton build.ninja\n\
\ncommon_flags = -g\nc_flags = -xc\ncxx_flags = -std\nas_flags = -x\ncc = gcc\ncxx = g++\nar = ar\n\
\nrule as\n  command = $cxx -MD -MP -MF $out.d $common_flags $as_flags -c $in -o $out\n  depfile = $out.d\n  deps = gcc\n  description = Assembling $out\n\
\nrule cc\n  command = $cc -MD -MP -MF $out.d $common_flags $c_flags -c $in -o $out\n  depfile = $out.d\n  deps = gcc\n  description = Compiling $out\n\
\nrule cxx\n  command = $cxx -MD -MP -MF $out.d $common_flags $cxx_flags -c $in -o $out\n  depfile = $out.d\n  deps = gcc\n  description = Compiling $out\n\
\nrule ar\n  command = $ar rcs $out $in\n  description = Linking $out\n\
\nbuild /o/a-0000000000000001.c.o: cc /h/lib/src/a.c\n\
build /o/b-0000000000000002.s.o: as /h/lib/src/b.s\n\
build /o/lib.a: ar /o/a-0000000000000001.c.o /o/b-0000000000000002.s.o\n\
\nrule configure\n  command = cargo run --quiet --bin megaton-lib-configure -- -o $out\n  description = Configuring build.ninja\n  generator = 1\n\
\nbuild build.ninja: configure | configure.rs\n\
\ndefault /o/lib.a\n";
    assert_eq!(text, expected);
    let empty = lib_build_ninja("gcc", "g++", "ar", &flags, &vec![], "/o/", "/o/lib.a", "build.ninja");
    assert!(empty.contains("\nbuild /o/lib.a: ar\n"));
}
