use megaton::order::{chars_le, sort_missing_symbols, sort_strings, stable_order, unmangled_key, StringSet};

fn strings(v: &[&str]) -> Vec<String> {
    v.iter().map(|s| s.to_string()).collect()
}

fn chars(s: &str) -> Vec<char> {
    s.chars().collect()
}

#[test]
fn chars_le_follows_str_order() {
    let pairs = [("", ""), ("", "a"), ("a", "b"), ("ab", "a"), ("abc", "abd"), ("Z", "a"), ("é", "z")];
    for (a, b) in pairs {
        assert_eq!(chars_le(&chars(a), &chars(b)), a <= b, "{} <= {}", a, b);
        assert_eq!(chars_le(&chars(b), &chars(a)), b <= a, "{} <= {}", b, a);
    }
}

#[test]
fn sort_strings_matches_std_sort() {
    let input = strings(&["b.o", "a.o", "c/d.o", "a.o", "B.o", ""]);
    let mut expected = input.clone();
    expected.sort();
    assert_eq!(sort_strings(&input), expected);
}

#[test]
fn sort_strings_of_nothing() {
    assert_eq!(sort_strings(&Vec::new()), Vec::<String>::new());
}

#[test]
fn stable_order_keeps_ties_in_place() {
    let keys = vec![chars("b"), chars("a"), chars("b"), chars("a")];
    assert_eq!(stable_order(&keys), vec![1, 3, 0, 2]);
}

#[test]
fn unmangled_key_strips_mangling_prefix() {
    assert_eq!(unmangled_key("_Z3foov"), chars("foov"));
    assert_eq!(unmangled_key("_Z12barv"), chars("barv"));
    assert_eq!(unmangled_key("_Zfoo"), chars("foo"));
    assert_eq!(unmangled_key("_Z"), chars(""));
    assert_eq!(unmangled_key("foo"), chars("foo"));
    assert_eq!(unmangled_key("_z3foo"), chars("_z3foo"));
}

#[test]
fn missing_symbols_sorted_by_unmangled_name() {
    let input = strings(&["_Z5zebrav", "apple", "_Z3bobv", "_ZN3abc3defEv", "bob"]);
    let sorted = sort_missing_symbols(&input);
    // keys: zebrav, apple, bobv, N3abc3defEv, bob
    assert_eq!(sorted, strings(&["_ZN3abc3defEv", "apple", "bob", "_Z3bobv", "_Z5zebrav"]));
}

#[test]
fn missing_symbols_equal_keys_keep_order() {
    let input = strings(&["_Z3foo", "foo", "_Z1foo"]);
    assert_eq!(sort_missing_symbols(&input), input);
}

#[test]
fn string_set_membership() {
    let items = strings(&["delta", "alpha", "charlie", "bravo", "alpha", "", "éclair"]);
    let set = StringSet::from_strings(&items);
    for s in &items {
        assert!(set.contains(s), "{}", s);
    }
    for s in ["alph", "alphaa", "zulu", "Alpha", "eclair"] {
        assert!(!set.contains(s), "{}", s);
    }
    let empty = StringSet::from_strings(&vec![]);
    assert!(!empty.contains(""));
    let many: Vec<String> = (0..500).rev().map(|i| format!("sym{}", i)).collect();
    let big = StringSet::from_strings(&many);
    assert!(big.contains("sym0") && big.contains("sym499") && big.contains("sym250"));
    assert!(!big.contains("sym500"));
}

fn pseudo_random_names(n: usize) -> Vec<String> {
    let mut x: u64 = 0x2545f4914f6cdd1d;
    (0..n)
        .map(|_| {
            x ^= x << 13;
            x ^= x >> 7;
            x ^= x << 17;
            let prefix = if x % 3 == 0 { "_Z" } else { "" };
            let digits = if x % 5 == 0 { format!("{}", x % 100) } else { String::new() };
            format!("{}{}{}", prefix, digits, ["foo", "bar", "baz", "qux", "fo"][(x % 5) as usize])
        })
        .collect()
}

#[test]
fn large_sorts_match_std() {
    let names = pseudo_random_names(400);
    let mut expected = names.clone();
    expected.sort();
    assert_eq!(sort_strings(&names), expected);

    fn strip(s: &str) -> &str {
        s.strip_prefix("_Z").map(|s| s.trim_start_matches(|c: char| c.is_ascii_digit())).unwrap_or(s)
    }
    let mut expected = names.clone();
    expected.sort_by(|a, b| strip(a).cmp(strip(b)));
    assert_eq!(sort_missing_symbols(&names), expected);
}
