use rusty_js_core::bultins::regex::{
    advance_string_index, collect_named_groups, letters_contain, parse_flags, search_step, RegExp,
    SearchStep,
};

#[test]
fn flag_letters_set_their_flags() {
    let f = parse_flags("gy");
    assert!(f.global());
    assert!(f.sticky());
    assert!(!f.ignore_case());
    assert!(!f.multiline());
    assert!(!f.dotall());
    assert!(!f.unicode());
    assert!(!f.has_indices());

    let all = parse_flags("dgimsuy");
    assert!(all.has_indices() && all.global() && all.ignore_case() && all.multiline());
    assert!(all.dotall() && all.unicode() && all.sticky());

    let none = parse_flags("xz");
    assert!(!none.global() && !none.sticky() && !none.unicode());
}

#[test]
fn flags_combine_with_or() {
    let a = parse_flags("g");
    let b = parse_flags("i");
    let c = a | b;
    assert!(c.global() && c.ignore_case() && !c.sticky());
    assert!(c & a);
    assert!(!(a & b));
    let mut d = a;
    d |= parse_flags("y");
    assert!(d.global() && d.sticky());
}

#[test]
fn letters_are_found() {
    assert!(letters_contain("abc", 'b'));
    assert!(!letters_contain("abc", 'd'));
    assert!(!letters_contain("", 'a'));
}

#[test]
fn advancing_steps_one_byte_or_one_character() {
    assert_eq!(advance_string_index("abc", 1, false), 2);
    assert_eq!(advance_string_index("abc", 1, true), 2);
    assert_eq!(advance_string_index("abc", 3, true), 4);
    assert_eq!(advance_string_index("é1", 0, true), 2);
    assert_eq!(advance_string_index("a€", 1, true), 4);
    assert_eq!(advance_string_index("é1", 0, false), 1);
    assert_eq!(advance_string_index("éa", 2, true), 3);
    assert_eq!(advance_string_index("éé", 2, true), 4);
    assert_eq!(advance_string_index("éé", 1, true), 2);
}

#[test]
fn search_steps() {
    assert!(matches!(search_step(false, false, "abc", 1, Some(1)), SearchStep::Found));
    assert!(matches!(search_step(false, false, "abc", 1, Some(2)), SearchStep::Retry(2)));
    assert!(matches!(search_step(false, false, "abc", 1, None), SearchStep::Retry(2)));
    assert!(matches!(search_step(true, false, "abc", 1, Some(2)), SearchStep::Fail));
    assert!(matches!(search_step(true, false, "abc", 1, None), SearchStep::Fail));
}

#[test]
fn named_groups_that_took_no_part_are_dropped() {
    let named = vec![
        ("a".to_string(), Some(0..2)),
        ("b".to_string(), None),
        ("c".to_string(), Some(3..4)),
    ];
    let r = collect_named_groups(&named);
    assert_eq!(r, vec![("a".to_string(), 0..2), ("c".to_string(), 3..4)]);
}

#[test]
fn an_invalid_pattern_is_refused() {
    assert!(RegExp::with_flags("(", "").is_err());
    assert!(RegExp::with_flags("a[", "g").is_err());
}

#[test]
fn a_plain_search_starts_at_zero() {
    let mut re = RegExp::with_flags("b+", "").unwrap();
    assert_eq!(re.last_index, 0);
    re.last_index = 5;
    let m = re.exec("abba").unwrap();
    assert_eq!(m.substr, 1..3);
    assert_eq!(re.last_index, 5);
    assert!(re.exec("xyz").is_none());
    assert_eq!(re.last_index, 5);
}

#[test]
fn a_global_search_resumes_after_the_last_match() {
    let mut re = RegExp::with_flags("a", "g").unwrap();
    assert!(re.flags.global());
    let m1 = re.exec("banana").unwrap();
    assert_eq!(m1.substr, 1..2);
    assert_eq!(re.last_index, 2);
    let m2 = re.exec("banana").unwrap();
    assert_eq!(m2.substr, 3..4);
    let m3 = re.exec("banana").unwrap();
    assert_eq!(m3.substr, 5..6);
    assert!(re.exec("banana").is_none());
    assert_eq!(re.last_index, 0);
}

#[test]
fn a_sticky_search_only_matches_at_last_index() {
    let mut re = RegExp::with_flags("a", "y").unwrap();
    assert!(re.exec("ba").is_none());
    assert_eq!(re.last_index, 0);
    re.last_index = 1;
    let m = re.exec("ba").unwrap();
    assert_eq!(m.substr, 1..2);
    assert_eq!(re.last_index, 2);
}

#[test]
fn a_global_search_past_the_end_fails_and_resets() {
    let mut re = RegExp::with_flags("a", "g").unwrap();
    re.last_index = 10;
    assert!(re.exec("aaa").is_none());
    assert_eq!(re.last_index, 0);
}

#[test]
fn captures_and_named_groups_are_reported() {
    let mut re = RegExp::with_flags("(?<x>a)(b)?", "").unwrap();
    let m = re.exec("ca").unwrap();
    assert_eq!(m.substr, 1..2);
    assert_eq!(m.captures, vec![Some(1..2), None]);
    assert_eq!(m.named_groups, vec![("x".to_string(), 1..2)]);
}

#[test]
fn case_is_ignored_with_the_flag() {
    let mut re = RegExp::with_flags("B", "i").unwrap();
    let m = re.exec("abc").unwrap();
    assert_eq!(m.substr, 1..2);
}

#[test]
fn non_ascii_text_is_searched_at_character_boundaries() {
    let mut re = RegExp::with_flags("a", "").unwrap();
    let m = re.exec("aé").unwrap();
    assert_eq!(m.substr, 0..1);
    let mut b = RegExp::with_flags("b", "").unwrap();
    assert_eq!(b.exec("éb").unwrap().substr, 2..3);
    let mut u = RegExp::with_flags("b", "gu").unwrap();
    assert_eq!(u.exec("ééb").unwrap().substr, 4..5);
    assert_eq!(u.last_index, 5);
    assert!(u.exec("ééb").is_none());
    assert_eq!(u.last_index, 0);
}
