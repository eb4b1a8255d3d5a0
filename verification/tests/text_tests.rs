use funscriptvideo::text::{
    chars_of, is_blank_str, is_whitespace, parse_list, parse_u32, split_once_str, split_str, trim,
};

#[test]
fn trim_is_that_of_std() {
    let samples = vec![
        "",
        " ",
        "a",
        "  a b  ",
        "\t\n x \r\n",
        "\u{a0}x\u{3000}",
        "\u{2003}title\u{2028}",
        "no-space",
        " \u{200b} ",
        "\u{85}\u{1680}y\u{202f}\u{205f}",
    ];
    for s in samples {
        assert_eq!(trim(s), s.trim(), "for {:?}", s);
        assert_eq!(is_blank_str(s), s.trim().is_empty(), "for {:?}", s);
    }
}

#[test]
fn white_space_is_that_of_std() {
    let mut n: u32 = 0;
    while n < 0x3100 {
        if let Some(c) = char::from_u32(n) {
            assert_eq!(is_whitespace(c), c.is_whitespace(), "for {:x}", n);
        }
        n += 1;
    }
    assert!(!is_whitespace('\u{feff}'));
    assert!(!is_whitespace('\u{10ffff}'));
}

#[test]
fn split_is_that_of_std() {
    let samples = vec!["", ".", "a.b", "a..b", ".a.", "1.2.3", "abc", "..", "a.b.c.d."];
    for s in samples {
        let expected: Vec<String> = s.split('.').map(|p| p.to_string()).collect();
        assert_eq!(split_str(s, '.'), expected, "for {:?}", s);
    }
    assert_eq!(split_str("x,y", ','), vec!["x".to_string(), "y".to_string()]);
}

#[test]
fn split_once_takes_the_first_separator() {
    assert_eq!(
        split_once_str("scene.roll.funscript", '.'),
        Some(("scene".to_string(), "roll.funscript".to_string()))
    );
    assert_eq!(split_once_str("scene", '.'), None);
    assert_eq!(split_once_str(".x", '.'), Some(("".to_string(), "x".to_string())));
    assert_eq!(split_once_str("x.", '.'), Some(("x".to_string(), "".to_string())));
}

#[test]
fn numerals_are_read_as_std_reads_them() {
    let samples = vec![
        "0", "1", "42", "007", "+5", "+", "", "-1", "1a", "4294967295", "4294967296",
        "42949672950", "99999999999999999999", " 1", "1 ", "++1", "1+", "٣",
    ];
    for s in samples {
        assert_eq!(parse_u32(s), s.parse::<u32>().ok(), "for {:?}", s);
    }
}

#[test]
fn a_line_lists_its_trimmed_pieces() {
    assert_eq!(
        parse_list(" a.example/x , ,b.example/y,, c "),
        vec!["a.example/x".to_string(), "b.example/y".to_string(), "c".to_string()]
    );
    assert_eq!(parse_list(""), Vec::<String>::new());
    assert_eq!(parse_list(" , ,"), Vec::<String>::new());
    assert_eq!(parse_list("one"), vec!["one".to_string()]);
}

#[test]
fn characters_come_in_order() {
    assert_eq!(chars_of("héllo"), vec!['h', 'é', 'l', 'l', 'o']);
    assert_eq!(chars_of(""), Vec::<char>::new());
}
