use assist::lines::slice_lines;
use assist::text::{is_blank, to_decimal};

#[test]
fn slice_lines_windows_from_a_one_based_line() {
    let text = "one\ntwo\nthree\nfour\n";
    assert_eq!(slice_lines(text, None, None), text);
    assert_eq!(slice_lines(text, Some(2), None), "two\nthree\nfour");
    assert_eq!(slice_lines(text, Some(2), Some(2)), "two\nthree");
    assert_eq!(slice_lines(text, Some(1), Some(1)), "one");
    // A window past the end is empty, not an error.
    assert_eq!(slice_lines(text, Some(99), Some(2)), "");
}

/// Windows are over the lines that the standard library sees.
#[test]
fn slice_lines_agrees_with_the_lines_of_a_str() {
    let texts = [
        "", "\n", "\r\n", "\r", "a", "a\n", "a\r\n", "a\r", "\na", "a\n\nb", "a\r\nb\rc\n\r\n",
        "a\r\r\nb", "ä\nö\r\nü",
    ];
    for text in texts {
        for line in [None, Some(0), Some(1), Some(2), Some(3), Some(u32::MAX)] {
            for limit in [None, Some(0), Some(1), Some(2), Some(u32::MAX)] {
                let expected = if line.is_none() && limit.is_none() {
                    text.to_string()
                } else {
                    let skip = line.unwrap_or(1).saturating_sub(1) as usize;
                    let mut lines: Vec<&str> = text.lines().skip(skip).collect();
                    if let Some(limit) = limit {
                        lines.truncate(limit as usize);
                    }
                    lines.join("\n")
                };
                assert_eq!(slice_lines(text, line, limit), expected, "{text:?}");
            }
        }
    }
}

#[test]
fn line_zero_is_line_one() {
    assert_eq!(slice_lines("a\nb\nc", Some(0), Some(2)), "a\nb");
    assert_eq!(slice_lines("a\nb\nc", Some(1), Some(2)), "a\nb");
}

#[test]
fn a_limit_alone_starts_at_the_first_line() {
    assert_eq!(slice_lines("a\nb\nc", None, Some(2)), "a\nb");
}

#[test]
fn adjacent_windows_join() {
    let text = "a\nb\nc\nd\ne\n";
    let first = slice_lines(text, Some(2), Some(2));
    let second = slice_lines(text, Some(4), Some(3));
    assert_eq!(format!("{first}\n{second}"), slice_lines(text, Some(2), Some(5)));
    let rest = slice_lines(text, Some(4), None);
    assert_eq!(format!("{first}\n{rest}"), slice_lines(text, Some(2), None));
}

#[test]
fn reading_from_line_one_gives_the_text() {
    let text = "a\n\nb\n";
    assert_eq!(slice_lines(text, Some(1), None) + "\n", text);
}

#[test]
fn blank_is_what_trims_to_nothing() {
    assert!(is_blank(""));
    assert!(is_blank(" \t\n"));
    assert!(!is_blank(" x "));
    for n in 0..=0x10ffff {
        if let Some(c) = char::from_u32(n) {
            let text = c.to_string();
            assert_eq!(is_blank(&text), text.trim().is_empty(), "{n:#x}");
        }
    }
}

#[test]
fn decimal_reads_as_the_number() {
    for n in [0, 1, 9, 10, 11, 99, 100, 1234567890, usize::MAX] {
        assert_eq!(to_decimal(n), n.to_string());
    }
}
