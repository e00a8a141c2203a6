use megaton::builder::{CommandMap, CompileCommand, DependencyError, MTime, SourceResult};
use megaton::project::{
    are_deps_up_to_date, artifact_names, build_steps, compdb_after_scan, built_artifact, built_compdb, find_stale, listing_lines, needs_linking,
    needs_nso, npdm_title_id, objects_cache_text, verfile_data, LinkError, LinkFacts, MTimeLookup, NsoFacts,
    ObjectScan,
};

fn strings(v: &[&str]) -> Vec<String> {
    v.iter().map(|s| s.to_string()).collect()
}

fn t(seconds: i64) -> Option<MTime> {
    Some(MTime { seconds, nanos: 0 })
}

fn facts() -> LinkFacts {
    LinkFacts {
        objects_changed: false,
        config_changed: false,
        elf_exists: true,
        cached_objects: "1\na.o".to_string(),
        objects_cache: "1\na.o".to_string(),
        elf_mtime: Ok(t(100)),
        ldscript_mtimes: vec![Ok(t(10))],
        object_mtimes: vec![Ok(t(50))],
        libs_changed: Ok(false),
    }
}

#[test]
fn objects_cache_counts_then_lists() {
    assert_eq!(objects_cache_text(&strings(&["a.o", "b.o"])), "2\na.o\nb.o");
    assert_eq!(objects_cache_text(&vec![]), "0\n");
    assert_eq!(objects_cache_text(&strings(&["x.o"])), "1\nx.o");
}

#[test]
fn up_to_date_build_does_not_link() {
    assert_eq!(needs_linking(&facts()), Ok(false));
}

#[test]
fn changes_force_linking() {
    let mut f = facts();
    f.objects_changed = true;
    assert_eq!(needs_linking(&f), Ok(true));
    let mut f = facts();
    f.config_changed = true;
    assert_eq!(needs_linking(&f), Ok(true));
    let mut f = facts();
    f.elf_exists = false;
    assert_eq!(needs_linking(&f), Ok(true));
    let mut f = facts();
    f.cached_objects = String::new();
    assert_eq!(needs_linking(&f), Ok(true));
    let mut f = facts();
    f.elf_mtime = Err(());
    assert_eq!(needs_linking(&f), Ok(true));
}

#[test]
fn newer_linker_script_or_object_links() {
    let mut f = facts();
    f.ldscript_mtimes = vec![Ok(t(10)), Ok(t(200))];
    assert_eq!(needs_linking(&f), Ok(true));
    let mut f = facts();
    f.object_mtimes = vec![Ok(t(50)), Err(())];
    assert_eq!(needs_linking(&f), Ok(true));
    let mut f = facts();
    f.object_mtimes = vec![Ok(t(100))];
    assert_eq!(needs_linking(&f), Ok(true));
    let mut f = facts();
    f.ldscript_mtimes = vec![Ok(t(100))];
    assert_eq!(needs_linking(&f), Ok(true));
    let mut f = facts();
    f.object_mtimes = vec![Ok(t(99))];
    assert_eq!(needs_linking(&f), Ok(false));
}

#[test]
fn unreadable_linker_script_fails() {
    let mut f = facts();
    f.ldscript_mtimes = vec![Err(())];
    assert_eq!(needs_linking(&f), Err(LinkError::Ldscript));
    // a newer script before it decides first
    let mut f = facts();
    f.ldscript_mtimes = vec![Ok(t(300)), Err(())];
    assert_eq!(needs_linking(&f), Ok(true));
}

#[test]
fn libraries_decide_last() {
    let mut f = facts();
    f.libs_changed = Ok(true);
    assert_eq!(needs_linking(&f), Ok(true));
    let mut f = facts();
    f.libs_changed = Err(DependencyError::LibmegatonNotBuilt);
    assert_eq!(needs_linking(&f), Err(LinkError::Dependency(DependencyError::LibmegatonNotBuilt)));
    f.objects_changed = true;
    assert_eq!(needs_linking(&f), Ok(true));
}

fn nso() -> NsoFacts {
    NsoFacts {
        needs_linking: false,
        nso_exists: true,
        checks: true,
        nso_mtime: Ok(t(100)),
        elf_mtime: Ok(t(90)),
        symbol_mtimes: vec![Ok(t(5))],
    }
}

#[test]
fn nso_decisions() {
    assert!(!needs_nso(&nso()));
    let mut f = nso();
    f.needs_linking = true;
    assert!(needs_nso(&f));
    let mut f = nso();
    f.nso_exists = false;
    assert!(needs_nso(&f));
    let mut f = nso();
    f.symbol_mtimes = vec![Ok(t(5)), Ok(t(101))];
    assert!(needs_nso(&f));
    f.checks = false;
    assert!(!needs_nso(&f));
    let mut f = nso();
    f.elf_mtime = Ok(t(101));
    assert!(needs_nso(&f));
    let mut f = nso();
    f.elf_mtime = Ok(t(100));
    assert!(needs_nso(&f));
    let mut f = nso();
    f.symbol_mtimes = vec![Ok(t(100))];
    assert!(needs_nso(&f));
    let mut f = nso();
    f.elf_mtime = Err(());
    assert!(needs_nso(&f));
}

#[test]
fn deps_up_to_date_cases() {
    assert_eq!(are_deps_up_to_date(false, Ok(t(10)), &vec![]), Ok(false));
    assert_eq!(are_deps_up_to_date(true, Err(()), &vec![]), Err(()));
    assert_eq!(are_deps_up_to_date(true, Ok(t(10)), &vec![Ok(t(1)), Ok(t(10))]), Ok(false));
    assert_eq!(are_deps_up_to_date(true, Ok(t(10)), &vec![Ok(t(1)), Ok(t(9))]), Ok(true));
    assert_eq!(are_deps_up_to_date(true, Ok(t(10)), &vec![Ok(t(11)), Err(())]), Ok(false));
    assert_eq!(are_deps_up_to_date(true, Ok(t(10)), &vec![Err(()), Ok(t(11))]), Err(()));
    assert_eq!(are_deps_up_to_date(true, Ok(t(10)), &vec![Ok(None)]), Ok(false));
    assert_eq!(are_deps_up_to_date(true, Ok(None), &vec![]), Ok(true));
}

#[test]
fn find_stale_gives_first() {
    let ps: Vec<MTimeLookup> = vec![Ok(t(1)), Ok(t(20)), Err(())];
    assert_eq!(find_stale(&ps, t(10)), Some(1));
    assert_eq!(find_stale(&ps[..1].to_vec(), t(10)), None);
}

#[test]
fn listing_shows_ten_and_counts_rest() {
    let few = strings(&["a", "b"]);
    assert_eq!(listing_lines(&few), strings(&["  a", "  b"]));
    let many: Vec<String> = (0..13).map(|i| format!("s{}", i)).collect();
    let lines = listing_lines(&many);
    assert_eq!(lines.len(), 11);
    assert_eq!(lines[0], "  s0");
    assert_eq!(lines[9], "  s9");
    assert_eq!(lines[10], "  ... (3 more)");
}

#[test]
fn artifact_texts() {
    assert_eq!(npdm_title_id("0100000000000000"), "0x0100000000000000");
    assert_eq!(verfile_data("{ global: ", "megaton_main", "; };"), "{ global: megaton_main; };");
    assert_eq!(built_artifact("mod", "dev"), "mod (profile `dev`)");
    assert_eq!(built_compdb("none"), "compdb for profile `none`");
    assert_eq!(artifact_names("mod"), ("mod.elf".to_string(), "mod.nso".to_string()));
}

fn command(output: &str) -> CompileCommand {
    CompileCommand {
        directory: "/".to_string(),
        arguments: strings(&["cc", "-c", "-o", output, "a.c"]),
        file: "a.c".to_string(),
        output: output.to_string(),
    }
}

#[test]
fn object_scan_records_results() {
    let mut scan = ObjectScan::new();
    let mut map = CommandMap::new();
    assert!(scan.record(SourceResult::NotSource, &mut map).is_none());
    assert!(scan.record(SourceResult::UpToDate("x.o".to_string()), &mut map).is_none());
    assert!(!scan.objects_changed);
    let run = scan.record(SourceResult::NeedCompile(command("y.o")), &mut map).unwrap();
    assert_eq!(run.output, "y.o");
    assert!(scan.objects_changed);
    assert_eq!(scan.objects, strings(&["x.o", "y.o"]));
    assert_eq!(map.len(), 1);
    assert_eq!(map.get("y.o").unwrap().arguments, command("y.o").arguments);
}

#[test]
fn compdb_only_build_steps() {
    for changed in [false, true] {
        let s = build_steps(changed, true);
        assert!(!s.run_compilers && !s.make_npdm && !s.write_verfile && !s.link_stage);
        assert!(s.check_compdb);
        assert_eq!(compdb_after_scan(s, true), (false, false));
    }
    let s = build_steps(true, false);
    assert!(s.run_compilers && s.make_npdm && s.write_verfile && s.link_stage && s.check_compdb);
    assert_eq!(compdb_after_scan(s, false), (true, false));
    let s = build_steps(false, false);
    assert!(s.run_compilers && !s.make_npdm && !s.write_verfile && s.link_stage && !s.check_compdb);
    assert_eq!(compdb_after_scan(s, true), (true, true));
    assert_eq!(compdb_after_scan(s, false), (false, false));
}
