use cookiebox::header::{is_whitespace, parse_segment, segments, Segment};

fn pair(name: &str, value: &str) -> Segment {
    Segment::Pair {
        name: name.to_string(),
        value: value.to_string(),
    }
}

#[test]
fn whitespace_is_what_the_standard_library_calls_whitespace() {
    for code in 0..=0x10FFFFu32 {
        if let Some(c) = char::from_u32(code) {
            assert_eq!(is_whitespace(c), c.is_whitespace(), "U+{:04X}", code);
        }
    }
}

#[test]
fn segments_are_what_stands_between_semicolons() {
    assert_eq!(segments(""), vec![""]);
    assert_eq!(segments("a=1"), vec!["a=1"]);
    assert_eq!(segments("a=1; b=2"), vec!["a=1", " b=2"]);
    assert_eq!(segments("a=1;b=2;"), vec!["a=1", "b=2", ""]);
    assert_eq!(segments(";;"), vec!["", "", ""]);
    assert_eq!(segments("\u{e9}=\u{4e2d};x"), vec!["\u{e9}=\u{4e2d}", "x"]);
}

#[test]
fn segments_are_those_of_str_split() {
    for header in [
        "",
        ";",
        "a",
        "a;",
        ";a",
        "a=1 ;  ; =v ; ;;c===  ",
        "name=value;;other=key",
        "\u{2003}k\u{2003}=\u{a0}v\u{a0};\u{1f600}=;",
    ] {
        let expected: Vec<String> = header.split(';').map(|s| s.to_string()).collect();
        assert_eq!(segments(header), expected);
    }
}

#[test]
fn segment_of_whitespace_only_is_blank() {
    assert_eq!(parse_segment(""), Segment::Blank);
    assert_eq!(parse_segment("   "), Segment::Blank);
    assert_eq!(parse_segment("\t\n\r"), Segment::Blank);
    assert_eq!(parse_segment("\u{a0}\u{3000}\u{2028}"), Segment::Blank);
}

#[test]
fn segment_is_split_at_the_first_equals_sign() {
    assert_eq!(parse_segment("a=1"), pair("a", "1"));
    assert_eq!(parse_segment("c==="), pair("c", "=="));
    assert_eq!(parse_segment("a=b=c"), pair("a", "b=c"));
    assert_eq!(parse_segment("b="), pair("b", ""));
    assert_eq!(parse_segment("a=%20"), pair("a", "%20"));
    assert_eq!(parse_segment("a=d#$%^&*()_"), pair("a", "d#$%^&*()_"));
}

#[test]
fn name_and_value_are_trimmed_on_both_sides() {
    assert_eq!(parse_segment("  name=value  "), pair("name", "value"));
    assert_eq!(parse_segment(" a = 1 "), pair("a", "1"));
    assert_eq!(parse_segment("a b = c d"), pair("a b", "c d"));
    assert_eq!(
        parse_segment("\u{2003}k\u{2003}=\u{a0}v\u{a0}"),
        pair("k", "v")
    );
    assert_eq!(
        parse_segment("\u{1f600} = \u{e9}\u{4e2d} "),
        pair("\u{1f600}", "\u{e9}\u{4e2d}")
    );
    // a zero-width space is no white space
    assert_eq!(parse_segment("\u{200b}a=1"), pair("\u{200b}a", "1"));
}

#[test]
fn segment_without_equals_sign_is_kept_as_it_stood() {
    assert_eq!(
        parse_segment("yo"),
        Segment::MissingPair {
            fragment: "yo".to_string()
        }
    );
    assert_eq!(
        parse_segment("  a1 "),
        Segment::MissingPair {
            fragment: "  a1 ".to_string()
        }
    );
}

#[test]
fn segment_without_name_gives_its_trimmed_value() {
    assert_eq!(
        parse_segment("=1"),
        Segment::EmptyName {
            value: "1".to_string()
        }
    );
    assert_eq!(
        parse_segment("  = v "),
        Segment::EmptyName {
            value: "v".to_string()
        }
    );
    assert_eq!(
        parse_segment("="),
        Segment::EmptyName {
            value: String::new()
        }
    );
}

#[test]
fn segment_reads_as_split_once_and_trim_do() {
    for segment in [
        "a=1",
        " a = 1 ",
        "x",
        "=",
        " = ",
        "a==",
        "\u{85}n\u{85}=\u{1680}v\u{205f}",
        "n =\u{202f}",
    ] {
        let expected = if segment.chars().all(char::is_whitespace) {
            Segment::Blank
        } else {
            match segment.split_once('=') {
                None => Segment::MissingPair {
                    fragment: segment.to_string(),
                },
                Some((name, value)) if name.trim().is_empty() => Segment::EmptyName {
                    value: value.trim().to_string(),
                },
                Some((name, value)) => pair(name.trim(), value.trim()),
            }
        };
        assert_eq!(parse_segment(segment), expected);
    }
}
