use megaton::checkenv::{self, EnvCheck};
use megaton::clean::{clean_output, lib_clean_paths, target_dir};
use megaton::cli::CommonOptions;
use megaton::env::Tone;
use megaton::executor::{worker_count, workers_for};
use megaton::init::{check_target, escape_module_name, fill_template, init_files, InitError};
use megaton::install::{self, copies_executable, executable_name, finish, installed_name, release_dir, shim_script, InstallError};

fn lines(v: &[megaton::env::Diagnostic]) -> Vec<(Tone, String, String)> {
    v.iter().map(|d| (d.tone, d.status.clone(), d.message.clone())).collect()
}

fn l(tone: Tone, status: &str, message: &str) -> (Tone, String, String) {
    (tone, status.to_string(), message.to_string())
}

#[test]
fn clean_targets() {
    assert_eq!(target_dir("/p"), "/p/target/megaton");
    assert_eq!(clean_output("/p", &None), "/p/target/megaton");
    assert_eq!(clean_output("/p", &Some("dev".to_string())), "/p/target/megaton/dev");
    let (dir, files) = lib_clean_paths("/h");
    assert_eq!(dir, "/h/lib/build/bin");
    assert_eq!(
        files,
        vec![
            "/h/lib/build/compile_commands.json".to_string(),
            "/h/lib/build/build.ninja".to_string(),
            "/h/lib/build/.ninja_log".to_string(),
            "/h/lib/build/.ninja_deps".to_string(),
        ]
    );
}

#[test]
fn checkenv_outcomes() {
    let (out, ok) = checkenv::run(EnvCheck::Valid);
    assert!(ok);
    assert_eq!(lines(&out), vec![l(Tone::Info, "Success", "Environment check OK")]);
    let (out, ok) = checkenv::run(EnvCheck::Invalid);
    assert!(!ok);
    assert_eq!(
        lines(&out),
        vec![l(Tone::Error, "Failed", "Environment check"), l(Tone::Hint, "Consider", "Fix the issues above and try again")]
    );
    let (out, ok) = checkenv::run(EnvCheck::Failed);
    assert!(!ok);
    assert_eq!(lines(&out), vec![l(Tone::Error, "Failed", "Error occured during environment check")]);
}

#[test]
fn workers_leave_one_cpu() {
    assert_eq!(workers_for(0), 1);
    assert_eq!(workers_for(1), 1);
    assert_eq!(workers_for(2), 1);
    assert_eq!(workers_for(8), 7);
    assert!(worker_count() >= 1);
}

#[test]
fn module_names_are_escaped() {
    assert_eq!(escape_module_name("my mod"), "my_mod");
    assert_eq!(escape_module_name("a\"b'c"), "a\\\"b\\'c");
    assert_eq!(escape_module_name("plain"), "plain");
}

#[test]
fn template_first_placeholder_is_filled() {
    let t = "[module]\nname = \"NAMEPLACEHOLDER\"\n# NAMEPLACEHOLDER\n";
    assert_eq!(fill_template(t, "my_mod"), "[module]\nname = \"my_mod\"\n# NAMEPLACEHOLDER\n");
    assert_eq!(fill_template("no placeholder", "x"), "no placeholder");
    assert_eq!(fill_template("NAMEPLACEHOLDER", "x"), "x");
}

#[test]
fn init_target_rules() {
    assert_eq!(check_target(false, false, false), Ok(true));
    assert_eq!(check_target(true, false, false), Ok(false));
    assert_eq!(check_target(true, true, false), Err(InitError::AlreadyExists));
    assert_eq!(check_target(true, false, true), Err(InitError::AlreadyExists));
    assert_eq!(init_files(), vec!["src/main.cpp", ".clang-format", ".clangd", ".gitignore"]);
}

fn options(update: bool) -> install::Options {
    install::Options { update, options: CommonOptions { verbose: false, trace: false, color: None } }
}

#[test]
fn install_failure_messages() {
    assert!(install::run(false, &options(true)).is_empty());
    assert_eq!(
        lines(&install::run(true, &options(true))),
        vec![l(Tone::Error, "Failed", "Update unsuccessful"), l(Tone::Hint, "Consider", "Perform a clean installation")]
    );
    assert_eq!(lines(&install::run(true, &options(false))), vec![l(Tone::Error, "Failed", "Install unsuccessful")]);
}

#[test]
fn install_names_and_places() {
    assert_eq!(executable_name("megaton", false), "megaton");
    assert_eq!(executable_name("megaton", true), "megaton.exe");
    assert_eq!(installed_name("megaton", false), "megaton-install");
    assert_eq!(installed_name("megaton", true), "megaton-install.exe");
    assert_eq!(release_dir("/h"), "/h/target/release");
    assert!(copies_executable(false, false));
    assert!(copies_executable(true, false));
    assert!(!copies_executable(true, true));
}

#[test]
fn shim_scripts() {
    let (text, path) = shim_script("/h/target/release/megaton-install", "/real/h", "/h", false);
    assert_eq!(text, "#!/usr/bin/bash\nexec \"/h/target/release/megaton-install\" -H \"/real/h\" \"$@\"");
    assert_eq!(path, "/h/bin/megaton");
    let (text, path) = shim_script("C:\\m.exe", "C:\\h", "C:\\h", true);
    assert_eq!(text, "@echo off\r\n\"C:\\m.exe\" -H \"C:\\h\"%*\r\n");
    assert!(path.ends_with("megaton.cmd"));
}

#[test]
fn install_closing_report() {
    let (out, r) = finish(false, true, "/h/bin");
    assert_eq!(r, Ok(()));
    assert_eq!(lines(&out), vec![l(Tone::Info, "Done", ""), l(Tone::Info, "Done", "Installation successful")]);
    let (out, r) = finish(false, false, "/h/bin");
    assert_eq!(r, Ok(()));
    assert_eq!(out.len(), 6);
    assert_eq!(lines(&out)[3], l(Tone::Hint, "Next", "Make sure scripts from '/h/bin' is callable from your shell"));
    let (out, r) = finish(true, true, "/h/bin");
    assert_eq!(r, Err(InstallError::NeedRerun));
    assert_eq!(out.len(), 9);
    assert_eq!(lines(&out)[3], l(Tone::Hint, "WARNING", ""));
    assert_eq!(lines(&out)[8], l(Tone::Hint, "Then", "Run `megaton install` to properly build the build tool and install it again"));
}
