use megaton::checker::{
    compile_patterns, disallowed_patterns, find_disallowed, find_missing_symbols, flagged_instructions,
    instruction_of_line, process_objdump_insts, process_objdump_syms, symbol_of_line, CheckError,
};

fn strings(v: &[&str]) -> Vec<String> {
    v.iter().map(|s| s.to_string()).collect()
}

fn pair(a: &str, b: &str) -> (String, String) {
    (a.to_string(), b.to_string())
}

#[test]
fn symbol_line_takes_text_after_first_space_past_column() {
    let line = "0000000000000000      DF *UND*\t0000000000000000 nnsocketGetPeerName";
    assert_eq!(symbol_of_line(line), Some(Some("nnsocketGetPeerName".to_string())));
}

#[test]
fn symbol_line_short_lines_are_skipped() {
    assert_eq!(symbol_of_line(""), None);
    assert_eq!(symbol_of_line("0123456789012345678901234"), None);
}

#[test]
fn symbol_line_without_space_is_malformed() {
    assert_eq!(symbol_of_line("01234567890123456789012345abcdef"), Some(None));
}

#[test]
fn symbol_listing_starts_after_header() {
    let lines = strings(&[
        "lib.so:     file format elf64-littleaarch64",
        "",
        "DYNAMIC SYMBOL TABLE:",
        "0000000000000000      DF *UND*\t0000000000000000 first",
        "short",
        "0000000000000000      DO .bss\t0000000000000008 second symbol",
    ]);
    assert_eq!(process_objdump_syms("syms", &lines), Ok(strings(&["first", "second symbol"])));
}

#[test]
fn symbol_listing_without_header_is_empty() {
    let lines = strings(&["0000000000000000      DF *UND*\t0000000000000000 first"]);
    assert_eq!(process_objdump_syms("syms", &lines), Ok(vec![]));
}

#[test]
fn symbol_listing_with_bad_line_names_the_listing() {
    let lines = strings(&["DYNAMIC SYMBOL TABLE:", "01234567890123456789012345abcdef"]);
    assert_eq!(
        process_objdump_syms("symbols/main.syms", &lines),
        Err(CheckError::ParseSymbols("symbols/main.syms".to_string()))
    );
}

#[test]
fn instruction_line_parts() {
    assert_eq!(instruction_of_line("       0:\t14000008 \tb\t20 <entrypoint>"), Some(pair("       0", "b\t20 <entrypoint>")));
    assert_eq!(instruction_of_line("0000000000000000 <__code_start__>:"), None);
    assert_eq!(instruction_of_line("       8:\td503201f nop"), None);
}

#[test]
fn instruction_listing_keeps_order() {
    let lines = strings(&[
        "0000000000000000 <__code_start__>:",
        "       0:\t14000008 \tb\t20 <entrypoint>",
        "       4:\t0001a6e0 \t.word\t0x0001a6e0",
        "       8:\td503201f \tnop",
    ]);
    assert_eq!(
        process_objdump_insts(&lines),
        vec![pair("       0", "b\t20 <entrypoint>"), pair("       4", ".word\t0x0001a6e0"), pair("       8", "nop")]
    );
}

#[test]
fn missing_symbols_skip_loaded_and_ignored() {
    let loaded = strings(&["a", "b"]);
    let elf = strings(&["a", "c", "d", "b", "c"]);
    let ignore = strings(&["d"]);
    assert_eq!(find_missing_symbols(&loaded, &elf, &ignore), strings(&["c", "c"]));
}

#[test]
fn default_patterns_come_first() {
    let extra = strings(&["^svc"]);
    let p = disallowed_patterns(&extra);
    assert_eq!(p.len(), 7);
    assert_eq!(p[0], "^msr\\s*spsel");
    assert_eq!(p[2], "^mrs\\.*daif");
    assert_eq!(p[3], "^mrs\\.*tpidr_el1");
    assert_eq!(p[5], "^hlt");
    assert_eq!(p[6], "^svc");
}

#[test]
fn invalid_pattern_is_an_error() {
    let patterns = strings(&["^hlt", "(unclosed"]);
    assert!(matches!(compile_patterns(&patterns), Err(CheckError::ParseInstRegex)));
}

#[test]
fn disallowed_instructions_are_reported() {
    let patterns = compile_patterns(&disallowed_patterns(&vec![])).ok().unwrap();
    let insts = vec![
        pair("  10", "hlt\t#0x0"),
        pair("  14", "nop"),
        pair("  18", "msr\tspsel, #1"),
        pair("  1c", "mrs\tx0, tpidr_el0"),
        pair("  20", "msr daifset, #2"),
        pair("  24", "mrs\tx1, daif"),
        pair("  28", "mrs\tx2, tpidr_el1"),
    ];
    assert_eq!(
        find_disallowed(&insts, &patterns),
        strings(&["  10: hlt\t#0x0", "  18: msr\tspsel, #1", "  20: msr daifset, #2"])
    );
}

#[test]
fn flagged_lines_follow_flags() {
    let insts = vec![pair("0", "a"), pair("4", "b")];
    assert_eq!(flagged_instructions(&insts, &vec![false, true]), strings(&["4: b"]));
}
