use edge_gateway::order::sorted_texts;
use edge_gateway::paths::{file_name_of, join_path, parent_path, path_with_file_name};
use edge_gateway::text::{
    append, append_decimal, before, byte_length, char_is_ascii_alphanumeric, char_is_control,
    char_is_whitespace, chars_of, contains_char, contains_control, contains_whitespace,
    copy_texts, decimal_text, ends_with, hexadecimal_text, holds_text, join2, join3, same_text,
    split_text, starts_with, text_between, text_is_ascii, to_ascii_lower, trimmed,
    trimmed_end_char,
};
use edge_gateway::time::{millis_u64, Duration};

const SAMPLES: [&str; 12] = [
    "",
    " ",
    "a",
    "A.b.C",
    "\u{e4}\u{20ac}\u{1f600}",
    "\t tabs\u{a0}and\u{3000}spaces \r\n",
    "no-dots",
    "trailing...",
    "...",
    "x\u{7f}y",
    "mixed \u{85} Case",
    "/a//b/",
];

#[test]
fn characters_are_classified_as_the_standard_library_does() {
    for code in 0..=0x10FFFF_u32 {
        if let Some(c) = char::from_u32(code) {
            assert_eq!(char_is_whitespace(c), c.is_whitespace(), "{code:x}");
            assert_eq!(char_is_control(c), c.is_control(), "{code:x}");
            assert_eq!(
                char_is_ascii_alphanumeric(c),
                c.is_ascii_alphanumeric(),
                "{code:x}"
            );
        }
    }
}

#[test]
fn text_functions_agree_with_the_standard_library() {
    for s in SAMPLES {
        assert_eq!(byte_length(s), s.len());
        assert_eq!(chars_of(s), s.chars().collect::<Vec<_>>());
        assert_eq!(contains_whitespace(s), s.chars().any(char::is_whitespace));
        assert_eq!(contains_control(s), s.chars().any(char::is_control));
        assert_eq!(text_is_ascii(s), s.is_ascii());
        assert_eq!(to_ascii_lower(s), s.to_ascii_lowercase());
        assert_eq!(trimmed(s), s.trim());
        assert_eq!(trimmed_end_char(s, '.'), s.trim_end_matches('.'));
        assert_eq!(
            split_text(s, '.'),
            s.split('.').map(str::to_owned).collect::<Vec<_>>()
        );
        assert_eq!(contains_char(s, '.'), s.contains('.'));
        for t in SAMPLES {
            assert_eq!(same_text(s, t), s == t);
            assert_eq!(starts_with(s, t), s.starts_with(t));
            assert_eq!(ends_with(s, t), s.ends_with(t));
            assert_eq!(before(s, t), s < t, "{s:?} {t:?}");
            assert_eq!(join2(s, t), format!("{s}{t}"));
            assert_eq!(join3(s, "-", t), format!("{s}-{t}"));
            let mut joined = s.to_owned();
            append(&mut joined, t);
            assert_eq!(joined, format!("{s}{t}"));
        }
    }
}

#[test]
fn numbers_are_written_as_the_standard_library_writes_them() {
    for n in [0, 1, 9, 10, 99, 100, 65535, u64::MAX as u128, u128::MAX] {
        assert_eq!(decimal_text(n), n.to_string());
        let mut s = "n=".to_owned();
        append_decimal(&mut s, n);
        assert_eq!(s, format!("n={n}"));
    }
    for n in [0_u16, 1, 9, 10, 15, 16, 255, 256, 4095, 4096, 0xabcd, u16::MAX] {
        assert_eq!(hexadecimal_text(n), format!("{n:x}"));
    }
}

#[test]
fn pieces_of_a_text() {
    let chars = chars_of("h\u{e4}llo");
    assert_eq!(text_between(&chars, 1, 3), "\u{e4}l");
    assert_eq!(text_between(&chars, 0, 5), "h\u{e4}llo");
    assert_eq!(text_between(&chars, 2, 2), "");
}

#[test]
fn lists_of_texts() {
    let list = vec!["b".to_owned(), "a".to_owned(), "b".to_owned(), "\u{e4}".to_owned()];
    assert_eq!(copy_texts(&list), list);
    assert!(holds_text(&list, "a"));
    assert!(!holds_text(&list, "c"));
    let mut expected = list.clone();
    expected.sort();
    assert_eq!(sorted_texts(list), expected);
    assert!(sorted_texts(Vec::new()).is_empty());
}

#[test]
fn paths_are_joined() {
    assert_eq!(join_path("/etc/gateway", "certs"), "/etc/gateway/certs");
    assert_eq!(join_path("/etc/gateway/", "certs"), "/etc/gateway/certs");
    assert_eq!(join_path("/etc/gateway", "/certs"), "/certs");
    assert_eq!(join_path("", "certs"), "certs");
    for base in ["", ".", "a", "a/", "/", "/a/b"] {
        for path in ["", "x", "/x", "x/y", "./x"] {
            assert_eq!(
                join_path(base, path),
                std::path::Path::new(base).join(path).to_str().unwrap(),
                "{base:?} {path:?}"
            );
        }
    }
}

#[test]
fn paths_have_parents_and_file_names() {
    assert_eq!(parent_path("/d//a"), Some("/d".to_owned()));
    assert_eq!(file_name_of("/d/a/."), Some("a".to_owned()));
    assert_eq!(path_with_file_name("/d/a", "b"), "/d/b");
    let pieces = ["", "/", "a", ".", "..", ".a", "b.c", "\u{e4}"];
    for first in pieces {
        for second in pieces {
            for third in pieces {
                for fourth in pieces {
                    for path in [
                        format!("{first}{second}{third}{fourth}"),
                        format!("{first}/{second}/{third}/{fourth}"),
                        format!("{first}/{second}//{third}{fourth}"),
                    ] {
                        let theirs = std::path::Path::new(&path);
                        assert_eq!(
                            parent_path(&path).as_deref(),
                            theirs.parent().and_then(|parent| parent.to_str()),
                            "{path:?}"
                        );
                        assert_eq!(
                            file_name_of(&path).as_deref(),
                            theirs.file_name().and_then(|name| name.to_str()),
                            "{path:?}"
                        );
                        for name in ["x", ".x.tmp-1-2"] {
                            assert_eq!(
                                Some(path_with_file_name(&path, name).as_str()),
                                theirs.with_file_name(name).to_str(),
                                "{path:?}"
                            );
                        }
                    }
                }
            }
        }
    }
}

#[test]
fn durations_agree_with_the_standard_library() {
    for (secs, nanos) in [(0, 0), (1, 999_999_999), (59, 1_500_000_000), (u64::MAX, 999_999_999)] {
        let ours = Duration::new(secs, nanos);
        let theirs = std::time::Duration::new(secs, nanos);
        assert_eq!(ours.as_secs(), theirs.as_secs());
        assert_eq!(ours.subsec_nanos(), theirs.subsec_nanos());
        assert_eq!(ours.as_millis(), theirs.as_millis());
        assert_eq!(
            millis_u64(&ours),
            u64::try_from(theirs.as_millis()).unwrap_or(u64::MAX)
        );
        for (other_secs, other_nanos) in [(0, 1), (1, 0), (2, 5)] {
            let other = Duration::new(other_secs, other_nanos);
            let their_other = std::time::Duration::new(other_secs, other_nanos);
            let difference = ours.saturating_sub(&other);
            let their_difference = theirs.saturating_sub(their_other);
            assert_eq!(difference.as_secs(), their_difference.as_secs());
            assert_eq!(difference.subsec_nanos(), their_difference.subsec_nanos());
            assert_eq!(ours.shorter_than(&other), theirs < their_other);
            assert_eq!(ours.min(other).as_secs(), theirs.min(their_other).as_secs());
        }
    }
}
