use account_pools::clock::{display_time, is_representable, minute_text, seconds_between};
use account_pools::digest::{hex_text, identity_key, login_digest, valid_key};
use account_pools::percent::{rounded_text, Percent};
use account_pools::ranking::lead;
use account_pools::rounding::sum_of;
use account_pools::text::{
    characters, count_numeral, is_before, is_blank, is_control, is_punctuation, is_white_space,
    join, literal, long_numeral, non_empty_path, numeral, split_words,
};

fn percent(value: f64) -> Percent {
    Percent::from_bits(value.to_bits())
}

fn number(percent: Percent) -> f64 {
    f64::from_bits(percent.bits)
}

fn numbers() -> Vec<f64> {
    let mut values = vec![
        0.0, -0.0, 0.5, 1.5, 2.5, 0.49999999999999994, 0.1, 12.0, 33.333333333333336, 49.5, 50.5,
        66.0, 66.66666666666667, 99.4999, 99.5, 99.99999999999999, 100.0, 100.00000000000001,
        101.0, -1.0, -0.5, -0.25, 1e-300, 5e-324, 123456.789, 1e15, 1e17, 4503599627370497.5,
    ];
    for i in 0..200 {
        values.push(i as f64 * 0.5);
        values.push(i as f64 / 7.0);
    }
    values
}

#[test]
fn percents_are_rounded_as_formatting_rounds_them() {
    for value in numbers() {
        assert_eq!(rounded_text(percent(value)), format!("{value:.0}"), "{value}");
    }
    assert_eq!(rounded_text(percent(f64::NAN)), format!("{:.0}", f64::NAN));
    assert_eq!(
        rounded_text(percent(f64::INFINITY)),
        format!("{:.0}", f64::INFINITY)
    );
    assert_eq!(
        rounded_text(percent(f64::NEG_INFINITY)),
        format!("{:.0}", f64::NEG_INFINITY)
    );
}

#[test]
fn percents_are_in_range_from_nothing_to_all() {
    for value in numbers() {
        assert_eq!(
            percent(value).is_in_range(),
            value.is_finite() && (0.0..=100.0).contains(&value),
            "{value}"
        );
        assert_eq!(percent(value).is_spent(), value <= 0.0, "{value}");
    }
    for value in [f64::NAN, f64::INFINITY, f64::NEG_INFINITY] {
        assert!(!percent(value).is_in_range());
    }
    assert!(!percent(f64::NAN).is_spent());
    assert!(percent(f64::NEG_INFINITY).is_spent());
}

#[test]
fn ranks_order_percents_as_numbers() {
    let values = numbers();
    for a in &values {
        for b in &values {
            assert_eq!(percent(*a).rank() < percent(*b).rank(), a < b, "{a} {b}");
            assert_eq!(
                percent(*a).total_rank() < percent(*b).total_rank(),
                a.total_cmp(b).is_lt(),
                "{a} {b}"
            );
        }
    }
}

#[test]
fn what_is_left_of_a_percent_is_its_exact_difference() {
    for value in numbers() {
        if (0.0..=100.0).contains(&value) {
            let left = percent(value).remaining();
            assert_eq!(number(left).to_bits(), (100.0 - value).to_bits(), "{value}");
            assert!(left.is_in_range());
        }
    }
    assert_eq!(number(percent(0.0).remaining()), 100.0);
    assert_eq!(number(percent(100.0).remaining()), 0.0);
}

#[test]
fn sums_of_percents_are_rounded_as_additions_are() {
    let values: Vec<f64> = numbers()
        .into_iter()
        .filter(|value| (0.0..=100.0).contains(value))
        .collect();
    for a in &values {
        for b in &values {
            assert_eq!(
                number(percent(*a).plus(percent(*b))).to_bits(),
                (a + b).to_bits(),
                "{a} {b}"
            );
        }
    }
    let list: Vec<f64> = vec![14.0, 0.0, 100.0, 33.333333333333336, 0.1];
    let expected: f64 = list.iter().sum();
    assert_eq!(
        number(sum_of(&list.iter().map(|value| percent(*value)).collect())),
        expected
    );
    for list in [vec![], vec![-0.0], vec![-0.0, -0.0], vec![-0.0, 0.0], vec![0.1, 0.2, 0.3]] {
        let expected: f64 = list.iter().sum();
        let sum = sum_of(&list.iter().map(|value| percent(*value)).collect());
        assert_eq!(number(sum).to_bits(), expected.to_bits(), "{list:?}");
    }
}

#[test]
fn integers_become_the_percents_they_name() {
    for value in [0i64, 1, 2, 3, 14, 50, 99, 100] {
        assert_eq!(number(Percent::from_integer(value)), value as f64);
    }
}

#[test]
fn the_first_of_the_largest_ranks_leads() {
    assert_eq!(lead(&vec![None, Some(1), Some(3), Some(3)]), Some(2));
    assert_eq!(lead(&vec![None, None]), None);
    assert_eq!(lead(&Vec::new()), None);
}

#[test]
fn times_are_written_with_their_offset() {
    assert_eq!(display_time(0), "1970-01-01T00:00:00+00:00");
    assert_eq!(display_time(1_800_000_000), "2027-01-15T08:00:00+00:00");
    assert_eq!(display_time(-1), "1969-12-31T23:59:59+00:00");
}

#[test]
fn times_outside_the_calendar_are_written_as_numbers() {
    assert_eq!(display_time(i64::MAX), "9223372036854775807");
    assert_eq!(display_time(i64::MIN), "-9223372036854775808");
    assert_eq!(display_time(8_210_266_876_799), "+262142-12-31T23:59:59+00:00");
    assert_eq!(display_time(8_210_266_876_800), "8210266876800");
    assert_eq!(display_time(-8_334_601_228_800), "-262143-01-01T00:00:00+00:00");
    assert_eq!(display_time(-8_334_601_228_801), "-8334601228801");
    assert!(is_representable(8_210_266_876_799));
    assert!(!is_representable(8_210_266_876_800));
    assert!(is_representable(-8_334_601_228_800));
    assert!(!is_representable(-8_334_601_228_801));
}

#[test]
fn minutes_are_written_with_their_zone() {
    assert_eq!(
        minute_text(1_800_000_000),
        Some("2027-01-15 08:00 UTC".to_owned())
    );
    assert_eq!(minute_text(i64::MAX), None);
}

#[test]
fn spans_do_not_overflow() {
    assert_eq!(seconds_between(10, 3), 7);
    assert_eq!(seconds_between(3, 10), -7);
}

#[test]
fn identities_are_named_by_the_digest_of_their_json() {
    // The digest of ["user-a","workspace-a"].
    let key = identity_key("user-a", "workspace-a");
    assert_eq!(key, login_digest(&b"[\"user-a\",\"workspace-a\"]".to_vec()));
    assert!(valid_key(&key));
    assert_ne!(key, identity_key("user-a", "workspace-b"));
    assert_ne!(key, identity_key("user-b", "workspace-a"));
    assert_ne!(identity_key("a", "bc"), identity_key("ab", "c"));
    assert_eq!(
        identity_key("quo\"te", "new\nline"),
        login_digest(&b"[\"quo\\\"te\",\"new\\nline\"]".to_vec())
    );
}

#[test]
fn logins_are_known_by_their_digest() {
    assert_eq!(
        login_digest(&Vec::new()),
        "e3b0c44298fc1c149afbf4c8996fb92427ae41e4649b934ca495991b7852b855"
    );
    assert_eq!(
        login_digest(&b"abc".to_vec()),
        "ba7816bf8f01cfea414140de5dae2223b00361a396177a9cb410ff61f20015ad"
    );
}

#[test]
fn bytes_are_written_in_lower_case_hexadecimal() {
    assert_eq!(hex_text(&vec![0x00, 0x0f, 0xa5, 0xff]), "000fa5ff");
    assert_eq!(hex_text(&Vec::new()), "");
}

#[test]
fn keys_are_sixty_four_hexadecimal_digits() {
    assert!(valid_key(&"0".repeat(64)));
    assert!(valid_key(&"aF".repeat(32)));
    assert!(!valid_key(&"0".repeat(63)));
    assert!(!valid_key(&"0".repeat(65)));
    assert!(!valid_key(&"g".repeat(64)));
    assert!(!valid_key(&format!("{}/", "0".repeat(63))));
    assert!(!valid_key(""));
}

#[test]
fn numbers_are_written_in_decimal() {
    for n in [0, 1, 9, 10, -1, -10, 12345, i64::MAX, i64::MIN] {
        assert_eq!(numeral(n), n.to_string());
    }
    for n in [0, 7, u64::MAX] {
        assert_eq!(long_numeral(n), n.to_string());
    }
    for n in [0, 42, usize::MAX] {
        assert_eq!(count_numeral(n), n.to_string());
    }
}

#[test]
fn texts_are_ordered_by_their_characters() {
    for (a, b) in [("", "a"), ("a", "b"), ("a", "ab"), ("Z", "a"), ("e", "\u{e9}"), ("a", "a")] {
        assert_eq!(is_before(a, b), a < b);
        assert_eq!(is_before(b, a), b < a);
    }
}

#[test]
fn texts_are_joined_and_split() {
    let words = vec!["a".to_owned(), "b".to_owned(), "c".to_owned()];
    assert_eq!(join(&words, ", "), "a, b, c");
    assert_eq!(join(&Vec::new(), ", "), "");
    assert_eq!(split_words("  add \t work\u{a0}x\n"), vec!["add", "work", "x"]);
    assert!(split_words(" \n ").is_empty());
    assert_eq!(characters("a\u{1f600}b"), vec!['a', '\u{1f600}', 'b']);
}

#[test]
fn characters_are_classed_as_the_language_classes_them() {
    for code in 0u32..0x11_0000 {
        if let Some(ch) = char::from_u32(code) {
            assert_eq!(is_control(ch), ch.is_control(), "{code:x}");
            assert_eq!(is_white_space(ch), ch.is_whitespace(), "{code:x}");
            assert_eq!(is_punctuation(ch), ch.is_ascii_punctuation(), "{code:x}");
        }
    }
    assert!(is_blank(" \u{2003}\n"));
    assert!(!is_blank(" a "));
    assert!(is_blank(""));
}

#[test]
fn labels_are_escaped_and_kept_on_one_line() {
    assert_eq!(literal("plain"), "plain");
    assert_eq!(literal("a|*b*"), "a\\|\\*b\\*");
    assert_eq!(literal("a\nb"), "a b");
}

#[test]
fn an_empty_path_is_no_path() {
    assert_eq!(non_empty_path(None), None);
    assert_eq!(non_empty_path(Some(String::new())), None);
    assert_eq!(non_empty_path(Some("/tmp".to_owned())), Some("/tmp".to_owned()));
}

#[test]
fn the_more_is_used_the_less_is_left() {
    let mut values: Vec<f64> = numbers()
        .into_iter()
        .filter(|value| (0.0..=100.0).contains(value))
        .collect();
    values.sort_by(f64::total_cmp);
    for pair in values.windows(2) {
        assert!(
            number(percent(pair[1]).remaining()) <= number(percent(pair[0]).remaining()),
            "{pair:?}"
        );
    }
}
