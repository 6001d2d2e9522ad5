use cif_parser::charsets::{
    any_print_char, eol, nonblank0, nonblank1, nonblank_char, ordinary_char, printchar0,
    printchar1, text_lead_char, whitespace,
};

const ORDINARY_CHARS: [char; 86] = [
    '!', '%', '&', '(', ')', '*', '+', ',', '-', '.', '/', '0', '1', '2', '3', '4', '5', '6',
    '7', '8', '9', ':', '<', '=', '>', '?', '@', 'A', 'B', 'C', 'D', 'E', 'F', 'G', 'H', 'I',
    'J', 'K', 'L', 'M', 'N', 'O', 'P', 'Q', 'R', 'S', 'T', 'U', 'V', 'W', 'X', 'Y', 'Z', '\\',
    '^', '`', 'a', 'b', 'c', 'd', 'e', 'f', 'g', 'h', 'i', 'j', 'k', 'l', 'm', 'n', 'o', 'p',
    'q', 'r', 's', 't', 'u', 'v', 'w', 'x', 'y', 'z', '{', '|', '}', '~',
];

#[test]
fn test_ordinary_char() {
    for c in (0..=256).map(|b| char::from_u32(b).unwrap()) {
        let mut buf = [0; 4];
        let mut stream = &*c.encode_utf8(&mut buf);

        let output = ordinary_char(&mut stream);
        if ORDINARY_CHARS.contains(&c) {
            assert_eq!(stream, "");
            assert_eq!(output, Ok(c));
        } else {
            assert!(output.is_err())
        }
    }
}

#[test]
fn test_nonblank_char() {
    for c in (0..=256).map(|b| char::from_u32(b).unwrap()) {
        let mut buf = [0; 4];
        let mut stream = &*c.encode_utf8(&mut buf);

        let output = nonblank_char(&mut stream);
        if ORDINARY_CHARS.contains(&c) || ['"', '#', '$', '\'', '_', ';', '[', ']'].contains(&c) {
            assert_eq!(stream, "");
            assert_eq!(output, Ok(c));
        } else {
            assert!(output.is_err())
        }
    }
}

#[test]
fn test_text_lead_char() {
    for c in (0..=256).map(|b| char::from_u32(b).unwrap()) {
        let mut buf = [0; 4];
        let mut stream = &*c.encode_utf8(&mut buf);

        let output = text_lead_char(&mut stream);
        if ORDINARY_CHARS.contains(&c)
            || ['"', '#', '$', '\'', '_', ' ', '\t', '[', ']'].contains(&c)
        {
            assert_eq!(stream, "");
            assert_eq!(output, Ok(c));
        } else {
            assert!(output.is_err())
        }
    }
}

#[test]
fn test_any_print_char() {
    for c in (0..=256).map(|b| char::from_u32(b).unwrap()) {
        let mut buf = [0; 4];
        let mut stream = &*c.encode_utf8(&mut buf);

        let output = any_print_char(&mut stream);
        if ORDINARY_CHARS.contains(&c)
            || ['"', '#', '$', '\'', '_', ' ', '\t', ';', '[', ']'].contains(&c)
        {
            assert_eq!(stream, "");
            assert_eq!(output, Ok(c));
        } else {
            assert!(output.is_err())
        }
    }
}

#[test]
fn runs_of_printable_and_nonblank_characters() {
    let mut stream = "ab c;\nrest";
    assert_eq!(printchar0(&mut stream), Ok("ab c;"));
    assert_eq!(stream, "\nrest");
    assert_eq!(printchar0(&mut stream), Ok(""));
    assert!(printchar1(&mut stream).is_err());
    assert_eq!(stream, "\nrest");

    let mut stream = "ab c";
    assert_eq!(nonblank1(&mut stream), Ok("ab"));
    assert_eq!(stream, " c");
    assert_eq!(nonblank0(&mut stream), Ok(""));
    assert!(nonblank1(&mut stream).is_err());
}

#[test]
fn line_ends_and_single_whitespace() {
    let mut stream = "\r\nx";
    assert_eq!(eol(&mut stream), Ok("\r\n"));
    assert_eq!(stream, "x");
    assert!(eol(&mut stream).is_err());
    let mut stream = "";
    assert_eq!(eol(&mut stream), Ok(""));

    let mut stream = "\tx";
    assert_eq!(whitespace(&mut stream), Ok("\t"));
    assert!(whitespace(&mut stream).is_err());
    let mut stream = "";
    assert_eq!(whitespace(&mut stream), Ok(""));
}
