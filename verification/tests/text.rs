use swu::text::{chars_of, contains, is_whitespace, split_lines, split_whitespace, starts_with, to_decimal};

const SAMPLES: [&str; 16] = [
    "",
    " ",
    "a",
    "  a  ",
    "ls -l /tmp",
    "\tone\u{a0}two\u{3000}three\n",
    "a\nb",
    "a\nb\n",
    "a\r\nb\r\n",
    "a\rb\r",
    "\n",
    "\n\n",
    "\r\n",
    "x\n\r\ny\r",
    "[8:0:0:0]   enclosu  LSI  SAS  /dev/sg3",
    "h\u{e9}llo w\u{f6}rld \u{1f600} end",
];

#[test]
fn whitespace_is_what_std_calls_whitespace() {
    for code in 0..=0x10ffffu32 {
        if let Some(c) = char::from_u32(code) {
            assert_eq!(is_whitespace(c), c.is_whitespace(), "U+{:04X}", code);
        }
    }
}

#[test]
fn chars_of_gives_every_char() {
    for sample in SAMPLES {
        assert_eq!(chars_of(sample), sample.chars().collect::<Vec<char>>());
    }
}

#[test]
fn split_whitespace_agrees_with_std() {
    for sample in SAMPLES {
        let expected: Vec<String> = sample.split_whitespace().map(String::from).collect();
        assert_eq!(split_whitespace(sample), expected, "{:?}", sample);
    }
}

#[test]
fn split_whitespace_examples() {
    assert_eq!(split_whitespace("ls -l /tmp"), vec!["ls", "-l", "/tmp"]);
    assert_eq!(split_whitespace("  a\t\tb \n"), vec!["a", "b"]);
    assert!(split_whitespace("").is_empty());
    assert!(split_whitespace(" \t\r\n\u{2003}").is_empty());
}

#[test]
fn split_lines_agrees_with_std() {
    for sample in SAMPLES {
        let expected: Vec<String> = sample.lines().map(String::from).collect();
        assert_eq!(split_lines(sample), expected, "{:?}", sample);
    }
}

#[test]
fn split_lines_examples() {
    assert!(split_lines("").is_empty());
    assert_eq!(split_lines("\n"), vec![""]);
    assert_eq!(split_lines("a\r\nb"), vec!["a", "b"]);
    assert_eq!(split_lines("a\r\nb\r"), vec!["a", "b\r"]);
    assert_eq!(split_lines("a\n\nb\n"), vec!["a", "", "b"]);
    assert_eq!(split_lines("a\r\r\n"), vec!["a\r"]);
}

#[test]
fn contains_agrees_with_std() {
    let patterns = ["", "a", "enclosu", "sg3", "\n", "  ", "nd", "\u{e9}l", "zzz"];
    for sample in SAMPLES {
        for pattern in patterns {
            assert_eq!(contains(sample, pattern), sample.contains(pattern), "{:?} {:?}", sample, pattern);
        }
    }
}

#[test]
fn starts_with_agrees_with_std() {
    let patterns = ["", "a", "[8", "/dev/sg", " ", "h\u{e9}", "ls -l /tmp", "ls -l /tmp "];
    for sample in SAMPLES {
        for pattern in patterns {
            assert_eq!(
                starts_with(sample, pattern),
                sample.starts_with(pattern),
                "{:?} {:?}",
                sample,
                pattern
            );
        }
    }
    assert!(starts_with("/dev/sg3", "/dev/sg"));
    assert!(starts_with("/dev/sg", "/dev/sg"));
    assert!(!starts_with("/dev/s", "/dev/sg"));
    assert!(!starts_with("x/dev/sg3", "/dev/sg"));
}

#[test]
fn to_decimal_writes_numbers() {
    assert_eq!(to_decimal(0), "0");
    assert_eq!(to_decimal(2), "2");
    assert_eq!(to_decimal(15), "15");
    assert_eq!(to_decimal(100), "100");
    assert_eq!(to_decimal(u32::MAX), "4294967295");
    for n in [7u32, 10, 99, 101, 12345, 1_000_000] {
        assert_eq!(to_decimal(n), format!("{}", n));
    }
}
