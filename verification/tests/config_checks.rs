use megaton::config::{
    contains_string, default_true, extend_flags, Build, BuildConfigError, Check, Config, Module, ProfileConfig,
    ProfileContainer, ProfileError,
};
use megaton::flags::{FlagConfig, Unused};

fn strings(v: &[&str]) -> Vec<String> {
    v.iter().map(|s| s.to_string()).collect()
}

fn unused(keys: &[&str]) -> Unused {
    Unused { keys: strings(keys) }
}

fn build(libmegaton: bool, entry: Option<&str>, sources: &[&str]) -> Build {
    Build {
        libmegaton,
        entry: entry.map(|e| e.to_string()),
        sources: strings(sources),
        includes: vec![],
        libpaths: vec![],
        libraries: vec![],
        ldscripts: vec![],
        flags: FlagConfig::default(),
        unused: unused(&[]),
    }
}

fn module(default_profile: Option<&str>, disallow_base_profile: bool) -> Module {
    Module {
        name: "mod".to_string(),
        title_id: 0x0100aabbccddeeff,
        default_profile: default_profile.map(|p| p.to_string()),
        disallow_base_profile,
        unused: unused(&[]),
    }
}

#[test]
fn switches_default_on() {
    assert!(default_true());
}

#[test]
fn extend_flags_merges_without_duplicates() {
    let mut dst = Some(strings(&["-a", "-b"]));
    extend_flags(&mut dst, &Some(strings(&["-b", "-c", "-c"])));
    assert_eq!(dst, Some(strings(&["-a", "-b", "-c"])));
    let mut none = None;
    extend_flags(&mut none, &Some(strings(&["-x"])));
    assert_eq!(none, Some(strings(&["-x", "<default>"])));
    let mut marked = None;
    extend_flags(&mut marked, &Some(strings(&["<default>", "-y"])));
    assert_eq!(marked, Some(strings(&["<default>", "-y"])));
    let mut keep = Some(strings(&["-a"]));
    extend_flags(&mut keep, &None);
    assert_eq!(keep, Some(strings(&["-a"])));
    assert!(contains_string(&strings(&["a", "b"]), "b"));
    assert!(!contains_string(&strings(&["a", "b"]), "c"));
}

#[test]
fn build_check_rules() {
    assert_eq!(build(true, Some("main"), &[]).check(), Err(BuildConfigError::EntryWithLibmegaton));
    assert_eq!(build(false, None, &[]).check(), Err(BuildConfigError::MissingEntry));
    let mut b = build(true, None, &[]);
    b.unused = unused(&["foo"]);
    b.flags.unused = unused(&["bar"]);
    assert_eq!(b.check(), Ok(strings(&["config `build.foo` is unused", "config `build.flags.bar` is unused"])));
    assert_eq!(build(false, Some("main"), &[]).entry_point(), "main");
    assert_eq!(build(true, None, &[]).entry_point(), "__megaton_module_entry");
}

#[test]
fn profiles_extend_base() {
    let twice = ProfileContainer::new(
        build(true, None, &["src"]),
        vec![
            ("dev".to_string(), build(true, Some("dev_main"), &["dev"])),
            ("dev".to_string(), build(true, None, &["other"])),
        ],
    );
    assert!(twice.is_none());
    let c = ProfileContainer::new(
        build(true, None, &["src"]),
        vec![
            ("dev".to_string(), build(true, Some("dev_main"), &["dev"])),
            ("other".to_string(), build(true, None, &["other"])),
        ],
    )
    .unwrap();
    let none = c.get_profile("none");
    assert_eq!(none.sources, strings(&["src"]));
    assert_eq!(none.entry, None);
    let dev = c.get_profile("dev");
    assert_eq!(dev.sources, strings(&["src", "dev"]));
    assert_eq!(dev.entry, Some("dev_main".to_string()));
    let unknown = c.get_profile("release");
    assert_eq!(unknown.sources, strings(&["src"]));
}

#[test]
fn check_section_warnings_and_profiles() {
    let base = Check { ignore: strings(&["a"]), symbols: strings(&["x.syms"]), disallowed_instructions: vec![], unused: unused(&["k"]) };
    assert_eq!(base.check(), strings(&["config `check.k` is unused"]));
    let c = ProfileContainer {
        base,
        profiles: vec![(
            "dev".to_string(),
            Check { ignore: strings(&["b"]), symbols: vec![], disallowed_instructions: strings(&["^svc"]), unused: unused(&[]) },
        )],
    };
    let dev = c.get_profile("dev");
    assert_eq!(dev.ignore, strings(&["a", "b"]));
    assert_eq!(dev.symbols, strings(&["x.syms"]));
    assert_eq!(dev.disallowed_instructions, strings(&["^svc"]));
}

#[test]
fn profile_selection() {
    assert_eq!(module(None, false).select_profile("dev"), Ok("dev".to_string()));
    assert_eq!(module(None, false).select_profile("none"), Ok("none".to_string()));
    assert_eq!(module(Some("rel"), false).select_profile("none"), Ok("rel".to_string()));
    assert_eq!(module(Some(""), false).select_profile("none"), Err(ProfileError::NoProfileSpecified));
    assert_eq!(module(None, true).select_profile("none"), Err(ProfileError::BaseProfileDisallowed));
    assert_eq!(module(None, false).title_id_hex(), "0100aabbccddeeff");
    let p = ProfileConfig::default();
    assert!(p.allow_base);
    assert_eq!(p.resolve("none"), Ok("none".to_string()));
    let strict = ProfileConfig { default: Some("dev".to_string()), allow_base: false, unused: unused(&[]) };
    assert_eq!(strict.resolve("none"), Ok("dev".to_string()));
}

#[test]
fn config_warnings_in_order() {
    let mut m = module(None, false);
    m.unused = unused(&["m"]);
    let mut p = ProfileConfig::default();
    p.unused = unused(&["p"]);
    let c = Config {
        module: m,
        profile: p,
        build: ProfileContainer { base: build(true, None, &[]), profiles: vec![] },
        check: None,
        unused: unused(&["top"]),
    };
    assert_eq!(
        c.unused_warnings(),
        strings(&["config `top` is unused", "config `module.m` is unused", "config `profile.p` is unused"])
    );
}

#[test]
fn profile_errors_are_reported() {
    let r = ProfileError::NoProfileSpecified.report();
    assert_eq!(r.len(), 2);
    assert_eq!(r[0].message, "No profile specified");
    assert_eq!(r[1].message, "Specify a profile with `--profile`");
    let r = ProfileError::BaseProfileDisallowed.report();
    assert_eq!(r[0].message, "Base profile is disallowed");
    assert_eq!(r[1].status, "Consider");
}
