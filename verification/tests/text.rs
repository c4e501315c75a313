use clipsync::text::{
    char_is_space, chars_of, has_absolute_shape, join_paths, same_text, split_lines, trim_bounds,
    trim_text,
};

const SAMPLES: [&str; 22] = [
    "",
    "a",
    "\n",
    "\r\n",
    "\r",
    "a\n",
    "a\nb",
    "a\r\nb",
    "a\r\nb\r\n",
    "a\rb",
    "a\r",
    "a\r\r\nb",
    "\n\n",
    "\na",
    "a\n\nb",
    "C:\\a.txt\nC:\\b.txt",
    "C:\\a.txt\r\nC:\\b.txt\r\n",
    "one\ntwo\nthree\n\n",
    "\r\n\r\n",
    "\r\r",
    "x\n\r",
    "日本\n語",
];

#[test]
fn lines_are_those_of_std() {
    for s in SAMPLES {
        let expected: Vec<String> = s.lines().map(|l| l.to_string()).collect();
        assert_eq!(split_lines(s), expected, "lines of {:?}", s);
    }
}

#[test]
fn lines_of_two_paths() {
    assert_eq!(split_lines("C:\\a.txt\nC:\\b.txt"), vec!["C:\\a.txt", "C:\\b.txt"]);
    assert_eq!(split_lines("a\r\nb\n"), vec!["a", "b"]);
    assert_eq!(split_lines("a\r"), vec!["a\r"]);
    assert!(split_lines("").is_empty());
}

#[test]
fn join_puts_a_line_feed_between() {
    assert_eq!(join_paths(&vec![]), "");
    assert_eq!(join_paths(&vec!["a".to_string()]), "a");
    assert_eq!(join_paths(&vec!["a".to_string(), "b".to_string()]), "a\nb");
    assert_eq!(join_paths(&vec!["".to_string(), "".to_string(), "c".to_string()]), "\n\nc");
}

#[test]
fn split_of_join_gives_the_lines_back() {
    let lists: Vec<Vec<String>> = vec![
        vec![],
        vec!["a".into()],
        vec!["C:\\a.txt".into(), "C:\\b.txt".into()],
        vec!["".into(), "x".into()],
        vec!["a\rb".into(), "".into(), "c d".into()],
    ];
    for list in lists {
        assert_eq!(split_lines(&join_paths(&list)), list);
    }
}

#[test]
fn trim_is_that_of_std() {
    let samples = [
        "",
        " ",
        "a",
        "  a  ",
        "\t\n a b \r\n",
        "\u{A0}x\u{3000}",
        "\u{2000}\u{200A}y\u{2028}\u{2029}",
        "\u{85}z\u{1680}\u{202F}\u{205F}",
        "\u{200B}not space\u{200B}",
        "\u{180E}no\u{FEFF}",
        " C:\\Users\\test \n",
        "\u{B}\u{C}v\u{1C}",
    ];
    for s in samples {
        assert_eq!(trim_text(s), s.trim(), "trim of {:?}", s);
    }
}

#[test]
fn white_space_is_that_of_std() {
    for v in 0u32..0x3100 {
        if let Some(c) = char::from_u32(v) {
            assert_eq!(char_is_space(c), c.is_whitespace(), "U+{:04X}", v);
        }
    }
    assert!(!char_is_space('\u{FEFF}'));
    assert!(!char_is_space('\u{10FFFF}'));
}

#[test]
fn trim_bounds_of_a_text() {
    let chars: Vec<char> = "  ab c ".chars().collect();
    assert_eq!(trim_bounds(&chars), (2, 6));
    let blank: Vec<char> = "   ".chars().collect();
    let (from, to) = trim_bounds(&blank);
    assert_eq!(from, to);
    assert_eq!(trim_bounds(&vec![]), (0, 0));
}

#[test]
fn absolute_shapes() {
    for s in ["C:\\Users\\test", "c:/x", "Z:\\", "\\\\server\\share", "/", "/usr/bin", "\\\\"] {
        assert!(has_absolute_shape(s), "{:?}", s);
    }
    for s in [
        "", "hello world", "C:", "C:x", "C", "1:\\x", "é:\\x", "\\x", "relative/path", "./x", "..\\x",
        " C:\\x", "CC:\\x", "file:///x",
    ] {
        assert!(!has_absolute_shape(s), "{:?}", s);
    }
}

#[test]
fn the_characters_of_a_text() {
    for s in ["", "abc", "日本語", "a😀b"] {
        let expected: Vec<char> = s.chars().collect();
        assert_eq!(chars_of(s), expected);
    }
}

#[test]
fn same_text_compares_characters() {
    assert!(same_text("", ""));
    assert!(same_text("file-link", "file-link"));
    assert!(!same_text("file-link", "file-lin"));
    assert!(!same_text("text", "texT"));
    assert!(!same_text("a", ""));
}
