use megaton::print::{color_flag, git_color_flag, PrintChange, PrintSettings, Progress, ProgressOutput, ProgressWriter};

fn feed_all(p: &mut Progress, text: &str) -> Vec<ProgressOutput> {
    let mut out = Vec::new();
    for b in text.bytes() {
        let r = p.feed(Some(b));
        if r != ProgressOutput::Nothing {
            out.push(r);
        }
    }
    out
}

#[test]
fn color_switches() {
    assert_eq!(color_flag(true), "always");
    assert_eq!(color_flag(false), "never");
    assert_eq!(git_color_flag(true), "color.ui=always");
    assert_eq!(git_color_flag(false), "color.ui=never");
}

#[test]
fn writer_is_terminal_from_width_eighteen() {
    let w = |term_width| ProgressWriter { tag: "Pull".to_string(), term_width };
    assert!(!w(0).is_terminal());
    assert!(!w(17).is_terminal());
    assert!(w(18).is_terminal());
    assert!(w(80).is_terminal());
}

#[test]
fn progress_message_is_cut_to_width() {
    let w = ProgressWriter { tag: "Pull".to_string(), term_width: 20 };
    // room for 20 - 12 - 2 = 6 bytes
    assert_eq!(w.progress_message("abcdef"), Some("abcdef".to_string()));
    assert_eq!(w.progress_message("abcdefg"), Some("abc...".to_string()));
    let narrow = ProgressWriter { tag: "Pull".to_string(), term_width: 10 };
    assert_eq!(narrow.progress_message("abcdefg"), None);
}

#[test]
fn progress_lines_from_stream() {
    let mut p = Progress::new("Pull", 80);
    assert_eq!(p.writer().tag, "Pull");
    let out = feed_all(&mut p, "Receiving 10%\rReceiving 100%\rdone\n\n\rtail");
    assert_eq!(
        out,
        vec![
            ProgressOutput::Progress("Receiving 10%".to_string()),
            ProgressOutput::Progress("Receiving 100%".to_string()),
            ProgressOutput::Perm("done".to_string()),
        ]
    );
    assert_eq!(p.finish(), Some("tail".to_string()));
}

#[test]
fn progress_replaces_non_ascii() {
    let mut p = Progress::new("Pull", 0);
    assert_eq!(p.feed(None), ProgressOutput::Nothing);
    assert_eq!(p.feed(Some(0xc3)), ProgressOutput::Nothing);
    assert_eq!(p.feed(Some(b'x')), ProgressOutput::Nothing);
    assert_eq!(p.feed(Some(b'\n')), ProgressOutput::Perm("?x".to_string()));
    assert_eq!(p.finish(), None);
}

#[test]
fn progress_and_perm_lines_are_formatted() {
    let w = ProgressWriter { tag: "Pull".to_string(), term_width: 18 };
    assert_eq!(w.progress_line("abcdef", false), Some("\x1b[1K\r       Pull> a...".to_string()));
    assert_eq!(w.progress_line("abcd", true), Some("\x1b[1K\r\x1b[1;36m       Pull\x1b[0m> abcd".to_string()));
    assert_eq!(w.perm_line("done", false), "\x1b[1K\r        Pull done\n");
    let narrow = ProgressWriter { tag: "Compiling-things".to_string(), term_width: 0 };
    assert_eq!(narrow.progress_line("x", false), None);
    assert_eq!(narrow.perm_line("x", true), "\x1b[1;32mCompiling-things\x1b[0m x\n");
}

#[test]
fn color_off_stays_off() {
    let mut s = PrintSettings::new();
    assert_eq!(s.color_flag(), "always");
    assert_eq!(s.git_color_flag(), "color.ui=always");
    s.auto_color(true);
    assert!(s.is_colored());
    s.color_off();
    for c in [PrintChange::AutoColor(true), PrintChange::VerboseOn, PrintChange::AutoColor(false)] {
        s.apply(c);
        assert_eq!(s.color_flag(), "never");
        assert_eq!(s.git_color_flag(), "color.ui=never");
    }
    assert!(s.is_verbose());
    let mut t = PrintSettings::new();
    t.auto_color(false);
    assert!(!t.is_colored());
}
