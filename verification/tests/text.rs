use rbx_product::text::{
    canonical_name, char_is_whitespace, chars_of, collapse_chars, deserialize_regex_vec,
    format_name, is_censored, normalize, serialize_regex_vec, string_of, trim_chars, NameFilter,
};

fn trimmed(s: &str) -> String {
    string_of(&trim_chars(&chars_of(s)))
}

fn collapsed(s: &str) -> String {
    string_of(&collapse_chars(&chars_of(s)))
}

#[test]
fn slug_of_a_plain_name() {
    assert_eq!(format_name("Hello World!"), "hello-world");
}

#[test]
fn slug_is_lower_case() {
    assert_eq!(format_name("VIP"), "vip");
    assert_eq!(format_name("Mega PASS 2"), "mega-pass-2");
}

#[test]
fn slug_drops_what_is_no_letter_digit_or_space() {
    assert_eq!(format_name("50% off: gems!"), "50-off-gems");
    assert_eq!(format_name("caf\u{e9}"), "caf");
    assert_eq!(format_name("under_score"), "underscore");
}

#[test]
fn slug_is_trimmed_before_hyphens_are_set() {
    assert_eq!(format_name("  VIP Pass  "), "vip-pass");
    assert_eq!(format_name("! VIP !"), "vip");
}

#[test]
fn slug_sets_one_hyphen_for_each_run_of_spaces() {
    assert_eq!(format_name("a - b"), "a-b");
    assert_eq!(format_name("a   b"), "a-b");
    assert_eq!(format_name("a \t\u{a0} b"), "a-b");
    assert_eq!(format_name("a\tb\u{a0}c"), "a-b-c");
}

#[test]
fn slug_keeps_ascii_that_lower_casing_brings_about() {
    // The Kelvin sign lower-cases to an ASCII k.
    assert_eq!(format_name("\u{212A}"), "k");
    // A dotted capital I lower-cases to an ASCII i and a combining dot.
    assert_eq!(format_name("\u{130}"), "i");
}

#[test]
fn slug_of_nothing_is_empty() {
    assert_eq!(format_name(""), "");
    assert_eq!(format_name(" !? "), "");
}

#[test]
fn slug_holds_only_slug_characters() {
    let names = [
        "Hello World!",
        "  --  ",
        "A_B-C d",
        "\u{1F4B2}20% OFF\u{1F4B2} VIP",
        "\u{212A}elvin \u{3a3}",
        "tab\there",
        "-x-",
        " 9 lives ",
    ];
    for name in names {
        let slug = format_name(name);
        for c in slug.chars() {
            assert!(c.is_ascii_lowercase() || c.is_ascii_digit() || c == '-', "{:?}", slug);
        }
        assert!(!slug.starts_with('-'), "{:?}", slug);
        assert!(!slug.ends_with('-'), "{:?}", slug);
        assert!(!slug.contains("--"), "{:?}", slug);
    }
}

#[test]
fn censored_text_is_recognised() {
    assert!(is_censored("### ###"));
    assert!(is_censored("#"));
    assert!(is_censored("# #\t\n#"));
    assert!(is_censored(" "));
    assert!(!is_censored("## a ##"));
    assert!(!is_censored("A fine pass"));
}

#[test]
fn empty_text_counts_as_censored() {
    assert!(is_censored(""));
}

#[test]
fn white_space_is_what_std_calls_white_space() {
    for code in 0..=0x10FFFFu32 {
        if let Some(c) = char::from_u32(code) {
            assert_eq!(char_is_whitespace(c), c.is_whitespace(), "U+{:04X}", code);
        }
    }
}

#[test]
fn trimming_is_what_std_does() {
    let samples = ["", " ", "a", "  a  ", "\t a b \n", "\u{a0}x\u{3000}", "   ", "a  ", "  a"];
    for s in samples {
        assert_eq!(trimmed(s), s.trim(), "{:?}", s);
    }
}

#[test]
fn collapsing_leaves_one_space_for_each_run() {
    assert_eq!(collapsed("a  b"), "a b");
    assert_eq!(collapsed("a \t\n b"), "a b");
    assert_eq!(collapsed("  a"), " a");
    assert_eq!(collapsed("a\u{a0}"), "a ");
    assert_eq!(collapsed("\t"), " ");
    assert_eq!(collapsed(""), "");
    assert_eq!(collapsed("abc"), "abc");
}

#[test]
fn normalizing_collapses_and_trims() {
    assert_eq!(normalize("  a   b  "), "a b");
    assert_eq!(normalize("\n"), "");
    assert_eq!(normalize("a\tb"), "a b");
}

#[test]
fn normalizing_twice_changes_nothing() {
    let samples = ["  a   b  ", "", "x", " \t x \t y  z ", "\u{2003}wide\u{2003}"];
    for s in samples {
        let once = normalize(s);
        assert_eq!(normalize(&once), once);
    }
}

#[test]
fn canonical_name_strips_the_discount_mark() {
    assert_eq!(canonical_name("\u{1F4B2}20% OFF\u{1F4B2} VIP", &None), "VIP");
}

#[test]
fn canonical_name_strips_brackets_and_odd_characters() {
    assert_eq!(canonical_name("VIP [new]", &None), "VIP");
    assert_eq!(canonical_name("[a] Gems [b] x100", &None), "Gems x100");
    assert_eq!(canonical_name("Gems \u{2728} Pack", &None), "Gems Pack");
    assert_eq!(canonical_name("What?! No, really.", &None), "What?! No, really.");
    assert_eq!(canonical_name("semi-pro_tier", &None), "semi-pro tier");
}

#[test]
fn canonical_name_applies_all_default_filters_in_order() {
    assert_eq!(canonical_name("\u{1F4B2}20% OFF\u{1F4B2} VIP [new]!!", &None), "VIP !!");
}

#[test]
fn canonical_name_with_an_empty_list_uses_the_defaults() {
    assert_eq!(canonical_name("VIP [new]", &Some(vec![])), "VIP");
}

#[test]
fn canonical_name_with_configured_filters_uses_only_those() {
    let filters = Some(vec![NameFilter::new("foo+".to_string()).unwrap()]);
    assert_eq!(canonical_name("a fooo b [c]", &filters), "a b [c]");
}

#[test]
fn canonical_name_applies_configured_filters_in_order() {
    let filters = Some(vec![
        NameFilter::new("ab".to_string()).unwrap(),
        NameFilter::new("x y".to_string()).unwrap(),
    ]);
    // "xaby" -> "x y" -> " " -> ""
    assert_eq!(canonical_name("xaby", &filters), "");
}

#[test]
fn canonical_name_is_idempotent_under_the_default_filters() {
    let names = [
        "\u{1F4B2}20% OFF\u{1F4B2} VIP [new]!!",
        "  spaced   out  ",
        "plain",
        "[only brackets]",
        "a-b, c. d? e!",
    ];
    for name in names {
        let once = canonical_name(name, &None);
        assert_eq!(canonical_name(&once, &None), once);
    }
}

#[test]
fn canonical_name_need_not_be_idempotent_under_other_filters() {
    let filters = Some(vec![NameFilter::new("a b".to_string()).unwrap()]);
    let once = canonical_name("a  b", &filters);
    assert_eq!(once, "a b");
    assert_eq!(canonical_name(&once, &filters), "");
}

#[test]
fn a_filter_must_compile() {
    assert!(NameFilter::new("(".to_string()).is_none());
    assert!(NameFilter::new("[a-z".to_string()).is_none());
    let filter = NameFilter::new("[a-z]+".to_string()).unwrap();
    assert_eq!(filter.as_str(), "[a-z]+");
    assert_eq!(filter.clone().as_str(), "[a-z]+");
}

#[test]
fn a_missing_list_of_patterns_stays_missing() {
    assert!(matches!(deserialize_regex_vec(None), Ok(None)));
    assert!(serialize_regex_vec(&None).is_none());
}

#[test]
fn patterns_are_read_and_written_back() {
    let patterns = vec!["a+".to_string(), "\\[.*?\\]".to_string()];
    let filters = deserialize_regex_vec(Some(patterns.clone())).unwrap();
    assert_eq!(filters.as_ref().unwrap().len(), 2);
    assert_eq!(serialize_regex_vec(&filters), Some(patterns));
}

#[test]
fn the_first_bad_pattern_is_reported() {
    let patterns = vec!["ok".to_string(), "(".to_string(), "[".to_string()];
    let error = deserialize_regex_vec(Some(patterns)).unwrap_err();
    assert_eq!(error.index, 1);
    assert_eq!(error.pattern, "(");
}
