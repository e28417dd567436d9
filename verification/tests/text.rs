use podping_tray::text::{
    before, chars_of, contains, is_among, is_white_space, same_text, second_word, starts_with,
    strip_prefix, to_ascii_lowercase, trim, trim_end,
};

const SAMPLES: [&str; 14] = [
    "",
    " ",
    "plain",
    "  both ends \t",
    "\u{2003}wide\u{a0}",
    "a b  c\r\n",
    "\n\n",
    "HTTP/1.1 200 OK\r\n",
    "Content-Length: 12\r\n",
    "1f;name=value",
    ";",
    "Grüße — ÄÖ\u{85}",
    "one\u{200b}two",
    "😀 🎉",
];

#[test]
fn white_space_is_that_of_unicode() {
    for u in 0..=0x10ffffu32 {
        if let Some(c) = char::from_u32(u) {
            assert_eq!(is_white_space(c), c.is_whitespace(), "{:x}", u);
        }
    }
}

#[test]
fn trimming_matches_std() {
    for s in SAMPLES {
        assert_eq!(trim(s), s.trim());
        assert_eq!(trim_end(s), s.trim_end());
    }
}

#[test]
fn lower_case_matches_std() {
    for s in SAMPLES {
        assert_eq!(to_ascii_lowercase(s), s.to_ascii_lowercase());
    }
    assert_eq!(to_ascii_lowercase("@AZ[az{ÄÖ"), "@az[az{ÄÖ");
}

#[test]
fn second_word_matches_std() {
    for s in SAMPLES {
        assert_eq!(second_word(s), s.split_whitespace().nth(1).unwrap_or(""));
    }
}

#[test]
fn text_before_a_mark_matches_std() {
    for s in SAMPLES {
        assert_eq!(before(s, ';'), s.split(';').next().unwrap_or(""));
    }
}

#[test]
fn searching_matches_std() {
    for s in SAMPLES {
        for p in ["", " ", "a", "12", "Ö", "plain", "OK\r\n", "not there at all, it is too long"] {
            assert_eq!(contains(s, p), s.contains(p), "{:?} {:?}", s, p);
            assert_eq!(starts_with(s, p), s.starts_with(p));
            assert_eq!(strip_prefix(s, p), s.strip_prefix(p).map(|r| r.to_string()));
        }
    }
    assert!(contains("aab", "ab"));
    assert!(!contains("aba", "bb"));
}

#[test]
fn equality_and_characters() {
    assert!(same_text("OK", "OK"));
    assert!(!same_text("OK", "ok"));
    assert!(!same_text("OK", "OK "));
    assert_eq!(chars_of("aé😀"), vec!['a', 'é', '😀']);
}

#[test]
fn membership_of_a_list() {
    let list = vec!["a".to_string(), "b".to_string()];
    assert!(is_among(&list, "b"));
    assert!(!is_among(&list, "c"));
    assert!(!is_among(&Vec::new(), "a"));
}
