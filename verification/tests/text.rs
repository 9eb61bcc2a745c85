use focaldesk::assoc::{get, merge_pairs, set_pair};
use focaldesk::order::{stable_sort, text_less, Key};
use focaldesk::paths::{add_extension, file_name, join_path};
use focaldesk::single::{clamp_unit, contained, equal, max, total_rank};
use focaldesk::text::{
    alnum, contains, decimal, decimal_int, ends_with, eq_ignore_ascii_case, join, lines,
    parse_i32, parse_unsigned, replace, replace_chars, rsplit_once, space, split, split_head,
    split_once, split_once_at, split_whitespace, starts_with, strip_prefix, strip_suffix,
    to_ascii_lowercase, trim, trim_matches, trim_start_matches,
};

const SAMPLES: &[&str] = &[
    "",
    " ",
    "a",
    "a b",
    "  padded\t",
    "\n\r\n",
    "one\ntwo\r\nthree\n",
    "one\n\ntwo",
    "a:b:c",
    ":a:",
    "::",
    "\u{a0}nbsp\u{2003}",
    "caf\u{e9} \u{3000}x",
    "Mixed CASE 123",
    "\"quoted\"",
    "tail\r",
    "ab\u{85}cd",
];

#[test]
fn white_space_is_what_char_says() {
    for code in 0..=0x10ffffu32 {
        if let Some(c) = char::from_u32(code) {
            assert_eq!(space(c), c.is_whitespace(), "{code:x}");
        }
    }
    for code in 0..128u8 {
        assert_eq!(alnum(code as char), (code as char).is_ascii_alphanumeric());
    }
}

#[test]
fn texts_are_cut_as_str_cuts_them() {
    for s in SAMPLES {
        assert_eq!(trim(s), s.trim());
        assert_eq!(lines(s), s.lines().collect::<Vec<_>>());
        assert_eq!(
            split_whitespace(s),
            s.split_whitespace().collect::<Vec<_>>()
        );
        assert_eq!(split(s, ':'), s.split(':').collect::<Vec<_>>());
        assert_eq!(
            split_once(s, ':'),
            s.split_once(':')
                .map(|(a, b)| (a.to_string(), b.to_string()))
        );
        assert_eq!(
            rsplit_once(s, ':'),
            s.rsplit_once(':')
                .map(|(a, b)| (a.to_string(), b.to_string()))
        );
        assert_eq!(trim_matches(s, "\""), s.trim_matches('"'));
        assert_eq!(
            trim_start_matches(s, "a:"),
            s.trim_start_matches(['a', ':'])
        );
        assert_eq!(to_ascii_lowercase(s), s.to_ascii_lowercase());
        for part in ["a", "b", "one", "", "\r\n", "quoted"] {
            assert_eq!(contains(s, part), s.contains(part));
            assert_eq!(starts_with(s, part), s.starts_with(part));
            assert_eq!(ends_with(s, part), s.ends_with(part));
            assert_eq!(
                strip_prefix(s, part).as_deref(),
                s.strip_prefix(part)
            );
            assert_eq!(
                strip_suffix(s, part).as_deref(),
                s.strip_suffix(part)
            );
            if !part.is_empty() {
                assert_eq!(split_head(s, part), s.split(part).next().unwrap());
                assert_eq!(
                    split_once_at(s, part),
                    s.split_once(part)
                        .map(|(a, b)| (a.to_string(), b.to_string()))
                );
                assert_eq!(replace(s, part, "<>"), s.replace(part, "<>"));
            }
        }
        assert_eq!(
            replace_chars(s, ":a", '_'),
            s.replace([':', 'a'], "_")
        );
        for other in SAMPLES {
            assert_eq!(
                eq_ignore_ascii_case(s, other),
                s.eq_ignore_ascii_case(other)
            );
            assert_eq!(text_less(s, other), s < other);
        }
    }
    let parts: Vec<String> = ["a", "", "b"].iter().map(|s| s.to_string()).collect();
    assert_eq!(join(&parts, ", "), "a, , b");
    assert_eq!(join(&Vec::new(), ", "), "");
}

#[test]
fn numbers_are_written_and_read_back() {
    for n in [0u64, 7, 10, 99, 100, 65_535, u64::MAX] {
        assert_eq!(decimal(n), n.to_string());
        assert_eq!(parse_unsigned(&decimal(n), u64::MAX), Some(n));
    }
    for n in [0i64, -1, 42, i64::MIN, i64::MAX] {
        assert_eq!(decimal_int(n), n.to_string());
    }
    for s in ["", "+", "-", "+7", "-7", "007", "300", "x", "1 ", "-0", "4294967296"] {
        assert_eq!(
            parse_unsigned(s, 255).map(|n| n as u8),
            s.parse::<u8>().ok(),
            "{s}"
        );
        assert_eq!(
            parse_unsigned(s, u32::MAX as u64).map(|n| n as u32),
            s.parse::<u32>().ok(),
            "{s}"
        );
        assert_eq!(parse_i32(s), s.parse::<i32>().ok(), "{s}");
    }
    assert_eq!(parse_i32("-2147483648"), Some(i32::MIN));
    assert_eq!(parse_i32("-2147483649"), None);
}

#[test]
fn sorting_is_stable() {
    let key = |rank, text: &str| Key {
        rank,
        text: text.to_string(),
    };
    let sorted = stable_sort(
        vec![1, 2, 3, 4, 5],
        vec![key(1, "b"), key(0, "z"), key(1, "a"), key(1, "b"), key(0, "z")],
    );
    assert_eq!(sorted, vec![2, 5, 3, 1, 4]);
}

#[test]
fn pairs_keep_their_first_place() {
    let pair = |a: &str, b: &str| (a.to_string(), b.to_string());
    let mut pairs = vec![pair("a", "1"), pair("b", "2")];
    set_pair(&mut pairs, "a".to_string(), "3".to_string());
    set_pair(&mut pairs, "c".to_string(), "4".to_string());
    assert_eq!(pairs, vec![pair("a", "3"), pair("b", "2"), pair("c", "4")]);
    merge_pairs(&mut pairs, &vec![pair("b", "9"), pair("d", "5")]);
    assert_eq!(get(&pairs, &"b".to_string()), Some("9".to_string()));
    assert_eq!(get(&pairs, &"d".to_string()), Some("5".to_string()));
    assert_eq!(get(&pairs, &"x".to_string()), None);
}

#[test]
fn paths_are_what_path_says() {
    let cases = [
        "", "a", "a.b", ".a", ".a.b", "a.", "/a/b", "/a/b.c", "a/", "a/b.c/", "..", "a/..", "/",
        "a.b.c", "./a", "a//", "a/.", "/x.y/z",
    ];
    for path in cases {
        let p = std::path::Path::new(path);
        assert_eq!(
            file_name(path),
            p.file_name().map(|n| n.to_str().unwrap().to_string()),
            "{path}"
        );
        let mut q = p.to_path_buf();
        if q.extension().is_none() {
            q.set_extension("toml");
        }
        assert_eq!(add_extension(path, "toml"), q.to_str().unwrap(), "{path}");
        assert_eq!(
            add_extension(&add_extension(path, "toml"), "toml"),
            add_extension(path, "toml")
        );
        for part in ["x", "/x", "x/y"] {
            assert_eq!(
                join_path(path, part),
                p.join(part).to_str().unwrap(),
                "{path} {part}"
            );
        }
    }
}

#[test]
fn singles_are_ordered_by_their_bits() {
    let numbers = [
        f32::NEG_INFINITY,
        -2.5,
        -1.0,
        -f32::MIN_POSITIVE,
        -0.0,
        0.0,
        1.0e-45,
        0.25,
        1.0,
        1.5,
        f32::MAX,
        f32::INFINITY,
        f32::NAN,
        -f32::NAN,
    ];
    for a in numbers {
        assert_eq!(
            clamp_unit(a.to_bits()),
            a.clamp(0.0, 1.0).to_bits(),
            "{a}"
        );
        assert_eq!(contained(a.to_bits(), 0, 1.0f32.to_bits()), (0.0..=1.0).contains(&a));
        for b in numbers {
            assert_eq!(equal(a.to_bits(), b.to_bits()), a == b);
            assert_eq!(
                total_rank(a.to_bits()).cmp(&total_rank(b.to_bits())),
                a.total_cmp(&b)
            );
            let m = f32::from_bits(max(a.to_bits(), b.to_bits()));
            let n = a.max(b);
            assert!(m == n || (m.is_nan() && n.is_nan()));
        }
    }
}
