use megaton::build_options::Options as BuildOptions;
use megaton::cli::{Cli, ColorChoice, ColorOption, Command, CommonOptions, TopLevelOptions};

fn common(verbose: bool, trace: bool, color: Option<ColorOption>) -> CommonOptions {
    CommonOptions { verbose, trace, color }
}

fn cli(command: Command, options: CommonOptions) -> Cli {
    Cli { top: TopLevelOptions { dir: ".".to_string(), home: None }, command, options }
}

fn build(compdb: bool, lib: bool) -> Command {
    Command::Build(BuildOptions { profile: "none".to_string(), compdb, lib, options: common(false, false, None) })
}

#[test]
fn verbose_and_trace_from_either_place() {
    let c = cli(Command::Fmt(common(true, false, None)), common(false, false, None));
    assert!(c.is_verbose_on());
    assert!(!c.is_trace_on());
    let c = cli(Command::Fmt(common(false, false, None)), common(false, true, None));
    assert!(!c.is_verbose_on());
    assert!(c.is_trace_on());
}

#[test]
fn subcommand_color_wins() {
    let c = cli(Command::Init(common(false, false, Some(ColorOption::Never))), common(false, false, Some(ColorOption::Always)));
    assert_eq!(c.color_choice(), ColorChoice::Off);
    let c = cli(Command::Init(common(false, false, Some(ColorOption::Always))), common(false, false, Some(ColorOption::Never)));
    assert_eq!(c.color_choice(), ColorChoice::On);
    let c = cli(Command::Init(common(false, false, None)), common(false, false, Some(ColorOption::Never)));
    assert_eq!(c.color_choice(), ColorChoice::Off);
    let c = cli(Command::Init(common(false, false, None)), common(false, false, None));
    assert_eq!(c.color_choice(), ColorChoice::Auto);
}

#[test]
fn fatal_error_shown_except_regular_build() {
    assert!(!build(false, false).show_fatal_error_message());
    assert!(build(true, false).show_fatal_error_message());
    assert!(build(false, true).show_fatal_error_message());
    assert!(Command::Checkenv(common(false, false, None)).show_fatal_error_message());
}

#[test]
fn common_options_of_each_command() {
    let o = common(true, true, Some(ColorOption::Never));
    assert_eq!(Command::Rustc(o).common(), o);
    assert_eq!(build(false, false).common(), common(false, false, None));
}
