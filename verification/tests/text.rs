use git_scanline::file_map::{clone_names, find_name, unique_names, FileMap};
use git_scanline::order::sort_descending;
use git_scanline::patterns::Pattern;
use git_scanline::tally::{
    all_true, count_touches, largest, match_subjects, share_of, share_wide, shares_of_largest,
    tally, touches,
};
use git_scanline::text::{
    after_last, chars_of, collapse_slashes, copy_range, find_char, find_sub, has_char, has_prefix,
    has_suffix, holds_sub, is_whitespace, matches_at, read_count, read_number, read_time,
    same_chars, sorts_before, split, string_of, text_of, trim, trim_bounds, write_millionths,
};
use git_scanline::types::Commit;

fn chars(s: &str) -> Vec<char> {
    s.chars().collect()
}

fn text(v: &[char]) -> String {
    v.iter().collect()
}

fn commit(subject: &str, files: &[&str]) -> Commit {
    Commit {
        hash: "h".to_string(),
        author: "a".to_string(),
        timestamp: 0,
        subject: subject.to_string(),
        files: files.iter().map(|s| s.to_string()).collect(),
    }
}

#[test]
fn strings_and_characters_convert_both_ways() {
    for s in ["", "abc", "a b\tc", "grüße 日本 🔥"] {
        assert_eq!(chars_of(s), chars(s));
        assert_eq!(string_of(&chars(s)), s);
    }
    assert_eq!(text_of(&chars("hello"), 1, 4), "ell");
    assert_eq!(text_of(&chars("hello"), 2, 2), "");
    assert_eq!(copy_range(&chars("hello"), 0, 5), chars("hello"));
    assert_eq!(copy_range(&chars("héllo"), 1, 3), chars("él"));
}

#[test]
fn white_space_is_what_the_standard_says() {
    for code in 0u32..0x3100 {
        if let Some(c) = char::from_u32(code) {
            assert_eq!(is_whitespace(c), c.is_whitespace(), "U+{code:04X}");
        }
    }
    assert!(!is_whitespace('\u{200b}'));
    assert!(!is_whitespace('\u{feff}'));
}

#[test]
fn trimming_takes_white_space_from_both_ends() {
    for s in ["", " ", "   \t\r\n", "a", " a", "a ", "  a b  ", "\u{a0}x\u{3000}", "\ta\tb\t", "x\u{2028}"] {
        assert_eq!(text(&trim(&chars(s))), s.trim(), "{s:?}");
    }
    assert_eq!(trim_bounds(&chars("  ab ")), (2, 4));
    assert_eq!(trim_bounds(&chars("   ")), (3, 3));
    assert_eq!(trim_bounds(&chars("")), (0, 0));
}

#[test]
fn splitting_keeps_empty_pieces() {
    let pieces = |s: &str, sep: char| -> Vec<String> { split(&chars(s), sep).iter().map(|p| text(p)).collect() };
    for (s, sep) in [("a/b/c", '/'), ("", '/'), ("/", '/'), ("a//b/", '/'), ("abc", '/'), ("x\ny\n", '\n')] {
        let expected: Vec<String> = s.split(sep).map(|p| p.to_string()).collect();
        assert_eq!(pieces(s, sep), expected, "{s:?}");
    }
}

#[test]
fn searching_finds_the_first_occurrence() {
    let v = chars("a => b => c");
    assert_eq!(find_char(&v, '=', 0), 2);
    assert_eq!(find_char(&v, '=', 3), 7);
    assert_eq!(find_char(&v, 'z', 0), v.len());
    assert_eq!(find_char(&v, 'a', v.len()), v.len());
    assert!(has_char(&v, 'c'));
    assert!(!has_char(&v, '{'));
    assert_eq!(find_sub(&v, &chars(" => "), 0), Some(1));
    assert_eq!(find_sub(&v, &chars(" => "), 2), Some(6));
    assert_eq!(find_sub(&v, &chars(" => "), 7), None);
    assert_eq!(find_sub(&chars("ab"), &chars("abc"), 0), None);
    // an empty pattern stands where the search starts
    assert_eq!(find_sub(&v, &chars(""), 0), Some(0));
    assert_eq!(find_sub(&v, &chars(""), 5), Some(5));
    assert_eq!(find_sub(&v, &chars(""), v.len()), Some(v.len()));
    assert!(holds_sub(&v, &chars("")));
    assert!(holds_sub(&chars(""), &chars("")));
    assert_eq!(after_last(&v, &chars("")), v);
    assert!(holds_sub(&v, &chars("=>")));
    assert!(!holds_sub(&v, &chars("<=")));
    assert!(matches_at(&v, 2, &chars("=>")));
    assert!(!matches_at(&v, 3, &chars("=>")));
    assert!(!matches_at(&v, 10, &chars("cd")));
    assert!(matches_at(&v, 11, &chars("")));
    assert!(has_prefix(&v, &chars("a =")));
    assert!(!has_prefix(&v, &chars("b")));
    assert!(has_suffix(&v, &chars("> c")));
    assert!(!has_suffix(&chars("c"), &chars("> c")));
    assert!(same_chars(&chars("abc"), &chars("abc")));
    assert!(!same_chars(&chars("abc"), &chars("abd")));
    assert!(!same_chars(&chars("abc"), &chars("ab")));
}

#[test]
fn the_last_piece_follows_the_last_separator_of_a_scan_from_the_left() {
    let piece = |s: &str, sep: &str| text(&after_last(&chars(s), &chars(sep)));
    for (s, sep) in [
        ("old => new", " => "),
        ("a => b => c", " => "),
        ("no arrow", " => "),
        (" =>  =>  => x", " => "),
        (" => => ", " => "),
        ("aaa", "aa"),
        ("aaaa", "aa"),
        ("", " => "),
        ("x => ", " => "),
    ] {
        assert_eq!(piece(s, sep), s.split(sep).last().unwrap(), "{s:?}");
    }
}

#[test]
fn doubled_separators_collapse_once_per_pair() {
    for s in ["a/b", "a//b", "a///b", "a////b", "//", "/", "", "a//b//c", "///", "a/b//"] {
        assert_eq!(text(&collapse_slashes(&chars(s))), s.replace("//", "/"), "{s:?}");
    }
}

#[test]
fn numbers_are_read_as_the_standard_reads_them() {
    for s in ["0", "7", "007", "+5", "-5", "", "+", "-", "12a", " 12", "12 ", "18446744073709551615", "18446744073709551616", "99999999999999999999999999", "++1", "+-1", "1_000", "٣"] {
        assert_eq!(read_count(&chars(s)), s.parse::<usize>().ok(), "{s:?}");
    }
    for s in ["0", "-0", "+0", "42", "-42", "+42", "", "+", "-", "--1", "9223372036854775807", "9223372036854775808", "-9223372036854775808", "-9223372036854775809", "1.5", "1e3", "０"] {
        assert_eq!(read_time(&chars(s)), s.parse::<i64>().ok(), "{s:?}");
    }
    assert_eq!(read_number(&chars("x123"), 1, 200), Some(123));
    assert_eq!(read_number(&chars("x123"), 1, 122), None);
    assert_eq!(read_number(&chars("x123"), 4, 200), None);
    assert_eq!(read_number(&chars("000"), 0, 0), Some(0));
}

#[test]
fn strings_are_ordered_as_the_standard_orders_them() {
    let samples = ["", "a", "b", "ab", "abc", "abd", "B", "a.rs", "a/b", "ä", "z", "日本", "a\u{10ffff}", "src/main.rs", "src/lib.rs"];
    for a in samples {
        for b in samples {
            assert_eq!(sorts_before(&a.to_string(), &b.to_string()), a < b, "{a:?} {b:?}");
        }
    }
}

#[test]
fn patterns_compile_or_fail() {
    assert!(Pattern::new("a+b").is_ok());
    let e = match Pattern::new("a(b") {
        Err(e) => e,
        Ok(_) => panic!("an open group must not compile"),
    };
    assert_eq!(e.pattern, "a(b");
    let p = Pattern::new(r"(?i)\bfix\b").unwrap();
    assert!(p.matches("a FIX for it"));
    assert!(!p.matches("prefixed"));
    let p = Pattern::new(r"(\d+)-(\d+)").unwrap();
    assert_eq!(p.replace_first("from 10-20 to 30-40", "$2..$1"), "from 20..10 to 30-40");
    assert_eq!(p.replace_first("nothing here", "$2..$1"), "nothing here");
}

#[test]
fn subjects_are_matched_trimmed_or_as_they_are() {
    let p = Pattern::new("^x$").unwrap();
    let commits = vec![commit("x", &[]), commit(" x ", &[]), commit("y", &[])];
    assert_eq!(match_subjects(&p, &commits, false), vec![true, false, false]);
    assert_eq!(match_subjects(&p, &commits, true), vec![true, true, false]);
}

#[test]
fn commits_are_counted_once_per_file() {
    let commits = vec![
        commit("1", &["a", "b"]),
        commit("2", &["a", "a"]),
        commit("3", &["c"]),
        commit("4", &[]),
        commit("5", &["b", "a"]),
    ];
    assert!(touches(&commits[0], &"b".to_string()));
    assert!(!touches(&commits[0], &"c".to_string()));
    assert!(!touches(&commits[3], &"a".to_string()));
    let all = all_true(commits.len());
    assert_eq!(all, vec![true; 5]);
    assert_eq!(count_touches(&commits, &all, &"a".to_string()), 3);
    assert_eq!(count_touches(&commits, &vec![false, true, true, true, false], &"a".to_string()), 1);
    let files: Vec<String> = ["a", "b", "c", "d", "a"].iter().map(|s| s.to_string()).collect();
    assert_eq!(tally(&commits, &all, &files), vec![3, 2, 1, 0, 3]);
    assert_eq!(tally(&[], &Vec::new(), &files), vec![0; 5]);
}

#[test]
fn shares_are_rounded_up_and_stay_on_the_scale() {
    assert_eq!(largest(&vec![3, 9, 2]), 9);
    assert_eq!(largest(&Vec::new()), 0);
    assert_eq!(share_of(0, 0, 100), 0);
    assert_eq!(share_of(0, 7, 100), 0);
    assert_eq!(share_of(7, 7, 100), 100);
    assert_eq!(share_of(1, 3, 100), 34);
    assert_eq!(share_of(2, 3, 100), 67);
    assert_eq!(share_of(1, 1_000, 100), 1);
    assert_eq!(share_of(usize::MAX, usize::MAX, u64::MAX), u64::MAX);
    assert_eq!(share_wide(3, 6, 100_000_000), 50_000_000);
    assert_eq!(share_wide(usize::MAX, 2 * (usize::MAX as u128), 100), 50);
    assert_eq!(shares_of_largest(&vec![0, 1, 2, 4], 100), vec![0, 25, 50, 100]);
    assert_eq!(shares_of_largest(&vec![0, 0], 100), vec![0, 0]);
    assert_eq!(shares_of_largest(&Vec::new(), 100), Vec::<u64>::new());
}

#[test]
fn sorting_is_descending_and_keeps_the_order_of_equal_keys() {
    let items = vec!["a", "b", "c", "d", "e", "f"];
    let sorted = sort_descending(items, &vec![2, 9, 2, 5, 9, 0]);
    assert_eq!(sorted, vec!["b", "e", "d", "a", "c", "f"]);
    assert_eq!(sort_descending(Vec::<u8>::new(), &Vec::new()), Vec::<u8>::new());
}

#[test]
fn a_map_finds_the_record_of_the_first_key() {
    let keys: Vec<String> = ["x", "y", "x"].iter().map(|s| s.to_string()).collect();
    assert_eq!(find_name(&keys, &"x".to_string()), Some(0));
    assert_eq!(find_name(&keys, &"y".to_string()), Some(1));
    assert_eq!(find_name(&keys, &"z".to_string()), None);
    assert_eq!(clone_names(&keys), keys);
    assert_eq!(unique_names(&keys), vec!["x".to_string(), "y".to_string()]);
    assert_eq!(unique_names(&[]), Vec::<String>::new());
    let m = FileMap { keys: unique_names(&keys), values: vec![1, 2] };
    assert_eq!(m.get("x"), Some(&1));
    assert_eq!(m.get("y"), Some(&2));
    assert_eq!(m.get("z"), None);
    assert!(m.contains_key("y"));
    assert!(!m.contains_key(""));
    assert_eq!(m.len(), 2);
    assert!(!m.is_empty());
    assert!(FileMap::<u8>::new().is_empty());
}

#[test]
fn millionths_are_written_as_decimal_numbers() {
    for (v, text) in [
        (0i64, "0"),
        (1, "0.000001"),
        (-1, "-0.000001"),
        (500_000, "0.5"),
        (-500_000, "-0.5"),
        (270_000, "0.27"),
        (1_000_000, "1"),
        (-1_000_000, "-1"),
        (1_050_000, "1.05"),
        (123_456_789, "123.456789"),
        (5_000_000_000, "5000"),
        (10_000_010, "10.00001"),
        (i64::MAX, "9223372036854.775807"),
        (i64::MIN, "-9223372036854.775808"),
    ] {
        assert_eq!(write_millionths(v), text, "{v}");
    }
}
