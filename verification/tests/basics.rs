//! Texts, numbers, sorted maps and spellings.
use rundelta::model::{bytes, CaptureCompleteness, CaptureState, Evidence};
use rundelta::numbers::{
    decimal_string, hexadecimal_string, optional_string, signed_number, signed_string,
    unsigned_number,
};
use rundelta::order::{place_text, sort_texts, Place};
use rundelta::sorted_map::{merged_keys, SortedMap};
use rundelta::text::{
    fitting, is_control, is_white_space, join, split_once_char, split_once_text, split_parts,
    strip_prefix, strip_suffix, trim, width_of, word, word_after,
};

#[test]
fn character_classes_are_those_of_the_standard_library() {
    for c in '\0'..=char::MAX {
        assert_eq!(is_white_space(c), c.is_whitespace(), "{c:?}");
        assert_eq!(is_control(c), c.is_control(), "{c:?}");
    }
}

#[test]
fn texts_are_measured_in_bytes_and_cut_between_characters() {
    assert_eq!(width_of("a\u{e9}\u{20ac}\u{1f600}"), 10);
    assert_eq!(fitting("a\u{e9}\u{20ac}", 3), 2);
    assert_eq!(fitting("a\u{e9}\u{20ac}", 5), 2);
    assert_eq!(fitting("a\u{e9}\u{20ac}", 6), 3);
    assert_eq!(fitting("\u{20ac}", 2), 0);
}

#[test]
fn texts_are_split_and_trimmed_as_by_the_standard_library() {
    for s in [
        "", " ", "a", " a b ", "\u{a0}x\u{2003}", "a-b-c", "-", "ab--", "\u{e9}-\u{e9}",
    ] {
        assert_eq!(trim(s), s.trim());
        assert_eq!(split_once_char(s, '-'), s.split_once('-'));
        assert_eq!(split_once_text(s, "b-"), s.split_once("b-"));
        assert_eq!(strip_prefix(s, "a"), s.strip_prefix("a"));
        assert_eq!(strip_suffix(s, "c"), s.strip_suffix("c"));
        assert_eq!(word(s), s.split_whitespace().next());
        assert_eq!(word_after("x"), None);
        assert_eq!(split_parts(s, '-'), s.split('-').collect::<Vec<_>>());
    }
    assert_eq!(join(&vec!["a".into(), "b".into()], ", "), "a, b");
    assert_eq!(join(&vec![], ", "), "");
}

#[test]
fn numbers_are_spelled_and_read_back() {
    for n in [0, 1, 9, 10, 4_294_967_296, u128::MAX] {
        assert_eq!(decimal_string(n), n.to_string());
        assert_eq!(hexadecimal_string(n), format!("{n:x}"));
        assert_eq!(unsigned_number(&decimal_string(n), 10, u128::MAX), Some(n));
        assert_eq!(
            unsigned_number(&hexadecimal_string(n), 16, u128::MAX),
            Some(n)
        );
    }
    for n in [i32::MIN, -1, 0, 7, i32::MAX] {
        assert_eq!(signed_string(n), n.to_string());
        assert_eq!(signed_number(&n.to_string()), Some(n));
    }
    for s in ["", "+", "-", "2147483648", "-2147483649", "1x", "+5", "-0", " 1"] {
        assert_eq!(signed_number(s), s.parse::<i32>().ok(), "{s:?}");
    }
    assert_eq!(unsigned_number("256", 10, 255), None);
    assert_eq!(optional_string(None), "None");
    assert_eq!(optional_string(Some(-3)), "Some(-3)");
}

#[test]
fn maps_keep_their_keys_sorted_and_unique() {
    let mut map: SortedMap<String, u8> = SortedMap::new();
    assert_eq!(map.insert("b".into(), 1), None);
    assert_eq!(map.insert("a".into(), 2), None);
    assert_eq!(map.insert("b".into(), 3), Some(1));
    assert_eq!(map.len(), 2);
    assert_eq!(
        (map.key_at(0).as_str(), *map.value_at(0)),
        ("a", 2)
    );
    assert_eq!(map.get(&"b".to_string()), Some(&3));
    assert!(!map.contains_key(&"c".to_string()));
    let mut other: SortedMap<String, ()> = SortedMap::new();
    other.insert("c".into(), ());
    other.insert("a".into(), ());
    assert_eq!(merged_keys(&map, &other), ["a", "b", "c"]);
    assert_eq!(map.remove(&"a".to_string()), Some(2));
    assert_eq!(map.remove(&"a".to_string()), None);
    assert_eq!(map.len(), 1);
}

#[test]
fn texts_are_ordered_as_by_the_standard_library() {
    let words = ["", "a", "ab", "b", "B", "10", "9", "\u{e9}", "\u{1f600}", "\u{ffff}"];
    for a in words {
        for b in words {
            let place = place_text(a, b);
            assert_eq!(matches!(place, Place::Before), a < b, "{a:?} {b:?}");
            assert_eq!(matches!(place, Place::Same), a == b, "{a:?} {b:?}");
        }
    }
    let mut expected = words.map(str::to_string).to_vec();
    let sorted = sort_texts(expected.clone());
    expected.sort();
    assert_eq!(sorted, expected);
}

#[test]
fn byte_spellings_tell_all_bytes_apart() {
    let all = (0..=255u8).collect::<Vec<_>>();
    let spelled = all.iter().map(|b| bytes(&[*b])).collect::<Vec<_>>();
    for (i, a) in spelled.iter().enumerate() {
        for b in &spelled[i + 1..] {
            assert_ne!(a, b);
        }
    }
    assert_eq!(bytes(b"a\\\x00\xff"), "a\\x5c\\x00\\xff");
}

#[test]
fn states_are_spelled_as_they_are_stored() {
    assert_eq!(CaptureState::Completed.as_text(), "completed");
    assert_eq!(CaptureState::Interrupted.as_text(), "interrupted");
    assert_eq!(CaptureState::CaptureFailed.as_text(), "capture_failed");
    assert_eq!(
        CaptureCompleteness::CompleteForSupportedEvents.as_text(),
        "complete_for_supported_events"
    );
    assert_eq!(CaptureCompleteness::Partial.as_text(), "partial");
    assert_eq!(CaptureCompleteness::Incomplete.as_text(), "incomplete");
    let evidence = Evidence {
        file: "raw/trace.log".into(),
        line: 1,
        end_line: 2,
    };
    assert!(evidence.same_as(&evidence.copy()));
}
