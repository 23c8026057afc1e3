use spine::atlas::{
    is_whitespace, next_line, parse_bool, parse_i16, parse_u16, trim, trim_left, value, Atlas,
    AtlasError, Lines, ParseIntError,
};

fn lines_of(text: &str) -> Vec<String> {
    text.lines().map(|l| l.to_string()).collect()
}

const SHEET: &str = "
spineboy.png
format: RGBA8888
filter: Linear,Linear
repeat: none
eyes
  rotate: false
  xy: 2, 2
  size: 34, 27
  orig: 34, 27
  offset: 0, 0
  index: -1

head
  rotate: true
  xy: 279, 75
  size: 121, 132
  orig: 123, 134
  offset: 1, 2
  index: 3
";

#[test]
fn whitespace_is_the_white_space_of_char() {
    for code in 0u32..0x3100 {
        if let Some(c) = char::from_u32(code) {
            assert_eq!(is_whitespace(c), c.is_whitespace(), "U+{:04X}", code);
        }
    }
    assert!(!is_whitespace('\u{feff}'));
}

#[test]
fn trim_takes_white_space_off_the_ends() {
    for text in ["", " ", "a", "  a b  ", "\t x\u{a0}\r\n", "\u{3000}é \u{2028}", "   ", "x  "] {
        assert_eq!(trim(text), text.trim(), "{:?}", text);
        assert_eq!(trim_left(text), text.trim_start(), "{:?}", text);
    }
}

#[test]
fn value_skips_the_key() {
    assert_eq!(value("format: RGBA8888 ", 7), Some("RGBA8888"));
    assert_eq!(value("format:", 7), Some(""));
    assert_eq!(value("short", 7), None);
    assert_eq!(value("épée: x", 5), Some("x"));
}

#[test]
fn parse_u16_reads_numbers() {
    assert_eq!(parse_u16("0"), Ok(0));
    assert_eq!(parse_u16("279"), Ok(279));
    assert_eq!(parse_u16("+12"), Ok(12));
    assert_eq!(parse_u16("007"), Ok(7));
    assert_eq!(parse_u16("65535"), Ok(65535));
    assert_eq!(parse_u16("65536"), Err(ParseIntError::PosOverflow));
    assert_eq!(parse_u16("99999999999999999999"), Err(ParseIntError::PosOverflow));
    assert_eq!(parse_u16(""), Err(ParseIntError::Empty));
    assert_eq!(parse_u16("+"), Err(ParseIntError::InvalidDigit));
    assert_eq!(parse_u16("-"), Err(ParseIntError::InvalidDigit));
    assert_eq!(parse_u16("-1"), Err(ParseIntError::InvalidDigit));
    assert_eq!(parse_u16("12a"), Err(ParseIntError::InvalidDigit));
    assert_eq!(parse_u16(" 12"), Err(ParseIntError::InvalidDigit));
    assert_eq!(parse_u16("1_000"), Err(ParseIntError::InvalidDigit));
    // the error that comes first from the left decides
    assert_eq!(parse_u16("99999x"), Err(ParseIntError::PosOverflow));
    assert_eq!(parse_u16("9999x9"), Err(ParseIntError::InvalidDigit));
}

#[test]
fn parse_u16_agrees_with_std() {
    for text in ["0", "65535", "65536", "+5", "-5", "", "+", "-", "٣", "12 ", "0000065535", "6553x"] {
        assert_eq!(parse_u16(text).ok(), text.parse::<u16>().ok(), "{:?}", text);
    }
}

#[test]
fn parse_i16_reads_numbers() {
    assert_eq!(parse_i16("-1"), Ok(-1));
    assert_eq!(parse_i16("3"), Ok(3));
    assert_eq!(parse_i16("+3"), Ok(3));
    assert_eq!(parse_i16("32767"), Ok(32767));
    assert_eq!(parse_i16("-32768"), Ok(-32768));
    assert_eq!(parse_i16("32768"), Err(ParseIntError::PosOverflow));
    assert_eq!(parse_i16("-32769"), Err(ParseIntError::NegOverflow));
    assert_eq!(parse_i16(""), Err(ParseIntError::Empty));
    assert_eq!(parse_i16("-"), Err(ParseIntError::InvalidDigit));
    assert_eq!(parse_i16("+"), Err(ParseIntError::InvalidDigit));
    assert_eq!(parse_i16("--1"), Err(ParseIntError::InvalidDigit));
    assert_eq!(parse_i16("1-"), Err(ParseIntError::InvalidDigit));
    for text in ["-0", "-32768", "-32769", "32768", "+-1", "-+1", "0x10"] {
        assert_eq!(parse_i16(text).ok(), text.parse::<i16>().ok(), "{:?}", text);
    }
}

#[test]
fn parse_bool_reads_true_and_false() {
    assert!(matches!(parse_bool("true"), Ok(true)));
    assert!(matches!(parse_bool("false"), Ok(false)));
    assert!(matches!(parse_bool("True"), Err(AtlasError::ParseBoolError)));
    assert!(matches!(parse_bool(""), Err(AtlasError::ParseBoolError)));
    assert!(matches!(parse_bool("true "), Err(AtlasError::ParseBoolError)));
}

#[test]
fn next_line_reads_line_by_line() {
    let mut lines = Lines { lines: lines_of("a\nb"), next: 0 };
    assert_eq!(next_line(&mut lines).unwrap(), "a");
    assert_eq!(lines.next, 1);
    assert_eq!(next_line(&mut lines).unwrap(), "b");
    assert!(matches!(next_line(&mut lines), Err(AtlasError::Unexpected("EOF"))));
    assert_eq!(lines.next, 2);
    assert!(matches!(next_line(&mut lines), Err(AtlasError::Unexpected("EOF"))));
    let mut past = Lines { lines: lines_of("a"), next: 5 };
    assert!(matches!(next_line(&mut past), Err(AtlasError::Unexpected("EOF"))));
    assert_eq!(past.next, 5);
}

#[test]
fn atlas_reads_its_head() {
    let atlas = Atlas::from_lines(lines_of(SHEET)).unwrap();
    assert_eq!(atlas.file, "spineboy.png");
    assert_eq!(atlas.format, "RGBA8888");
    assert_eq!(atlas.filter, "Linear,Linear");
    assert_eq!(atlas.repeat, "none");
    assert_eq!(atlas.lines.next, 5);
}

#[test]
fn atlas_without_head_is_refused() {
    assert!(matches!(
        Atlas::from_lines(lines_of("")),
        Err(AtlasError::Unexpected("cannot parse headers"))
    ));
    assert!(matches!(
        Atlas::from_lines(lines_of("\n  \n\t\n")),
        Err(AtlasError::Unexpected("cannot parse headers"))
    ));
    assert!(matches!(
        Atlas::from_lines(lines_of("a.png\nformat: x\nfilter: y")),
        Err(AtlasError::Unexpected("EOF"))
    ));
    assert!(matches!(
        Atlas::from_lines(lines_of("a.png\nformat: x\nshort\nrepeat: none")),
        Err(AtlasError::Unexpected("value"))
    ));
}

#[test]
fn atlas_reads_its_textures() {
    let mut atlas = Atlas::from_lines(lines_of(SHEET)).unwrap();
    let eyes = atlas.next().unwrap().unwrap();
    assert_eq!(eyes.name, "eyes");
    assert!(!eyes.rotate);
    assert_eq!(eyes.xy, (2, 2));
    assert_eq!(eyes.size, (34, 27));
    assert_eq!(eyes.orig, (34, 27));
    assert_eq!(eyes.offset, (0, 0));
    assert_eq!(eyes.index, -1);
    let head = atlas.next().unwrap().unwrap();
    assert_eq!(head.name, "head");
    assert!(head.rotate);
    assert_eq!(head.xy, (279, 75));
    assert_eq!(head.size, (121, 132));
    assert_eq!(head.orig, (123, 134));
    assert_eq!(head.offset, (1, 2));
    assert_eq!(head.index, 3);
    assert!(atlas.next().is_none());
    assert!(atlas.next().is_none());
    assert_eq!(atlas.file, "spineboy.png");
}

#[test]
fn read_texture_reads_six_lines() {
    let text = "rotate: true\nxy: 1,2\nsize:3 , 4\n  orig: 5,6,7\noffset: +7, 8\nindex: 9\nmore";
    let mut atlas = Atlas {
        file: String::new(),
        format: String::new(),
        filter: String::new(),
        repeat: String::new(),
        lines: Lines { lines: lines_of(text), next: 0 },
    };
    let texture = atlas.read_texture("part").unwrap();
    assert_eq!(texture.name, "part");
    assert!(texture.rotate);
    assert_eq!(texture.xy, (1, 2));
    assert_eq!(texture.size, (3, 4));
    assert_eq!(texture.orig, (5, 6));
    assert_eq!(texture.offset, (7, 8));
    assert_eq!(texture.index, 9);
    assert_eq!(atlas.lines.next, 6);
}

fn broken(text: &str) -> (AtlasError, usize) {
    let mut atlas = Atlas {
        file: String::new(),
        format: String::new(),
        filter: String::new(),
        repeat: String::new(),
        lines: Lines { lines: lines_of(text), next: 0 },
    };
    let error = atlas.read_texture("part").unwrap_err();
    (error, atlas.lines.next)
}

#[test]
fn read_texture_stops_at_the_first_bad_line() {
    assert!(matches!(broken(""), (AtlasError::Unexpected("EOF"), 0)));
    assert!(matches!(broken("rotate: maybe\nxy: 1,2"), (AtlasError::ParseBoolError, 1)));
    assert!(matches!(broken("rot"), (AtlasError::Unexpected("value"), 1)));
    assert!(matches!(
        broken("rotate: true\nxy: 1,b"),
        (AtlasError::ParseIntError(ParseIntError::InvalidDigit), 2)
    ));
    assert!(matches!(broken("rotate: true\nxy: 1"), (AtlasError::Unexpected("tuple"), 2)));
    assert!(matches!(
        broken("rotate: true\nxy: 1,2\nsize: 70000,1"),
        (AtlasError::ParseIntError(ParseIntError::PosOverflow), 3)
    ));
    assert!(matches!(
        broken("rotate: true\nxy: 1,2\nsize: 1,1\norig: "),
        (AtlasError::ParseIntError(ParseIntError::Empty), 4)
    ));
    assert!(matches!(
        broken("rotate: true\nxy: 1,2\nsize: 1,1\norig: 1,1\nof"),
        (AtlasError::Unexpected("tuple"), 5)
    ));
    assert!(matches!(
        broken("rotate: true\nxy: 1,2\nsize: 1,1\norig: 1,1\noffset: 0,0"),
        (AtlasError::Unexpected("EOF"), 5)
    ));
    assert!(matches!(
        broken("rotate: true\nxy: 1,2\nsize: 1,1\norig: 1,1\noffset: 0,0\nindex: -40000"),
        (AtlasError::ParseIntError(ParseIntError::NegOverflow), 6)
    ));
}

#[test]
fn parse_tuple_reads_a_pair() {
    let mut atlas = Atlas {
        file: String::new(),
        format: String::new(),
        filter: String::new(),
        repeat: String::new(),
        lines: Lines { lines: lines_of("  xy: 12 ,\t34\nsize:5,6"), next: 0 },
    };
    assert_eq!(atlas.parse_tuple(3).unwrap(), (12, 34));
    assert_eq!(atlas.parse_tuple(5).unwrap(), (5, 6));
    assert!(matches!(atlas.parse_tuple(5), Err(AtlasError::Unexpected("EOF"))));
}

#[test]
fn atlas_errors_describe_themselves() {
    assert_eq!(AtlasError::Unexpected("EOF").description(), "unexpected error");
    assert_eq!(
        AtlasError::ParseIntError(ParseIntError::Empty).description(),
        "error parsing integer"
    );
    assert_eq!(AtlasError::ParseBoolError.description(), "error parsing boolean");
}
