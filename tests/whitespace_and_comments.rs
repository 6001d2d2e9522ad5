use cif_parser::whitespace_and_comments::{comment, comments, tokenized_comments, whitespace};

#[test]
fn test_comment() {
    let mut stream = "# hello world # \n new line";

    let output = comment(&mut stream);
    assert_eq!(stream, " new line");
    assert_eq!(output, Ok("# hello world # \n"));

    let output = comment(&mut stream);
    assert!(output.is_err());

    let mut stream = "# comment without newline ends with stream";
    let output = comment(&mut stream);
    assert_eq!(output, Ok("# comment without newline ends with stream"));
}

#[test]
fn test_comments() {
    let mut stream = "# hello world # \n# new line, same comments\nThis line is important";

    let output = comments(&mut stream);
    assert_eq!(output, Ok("# hello world # \n# new line, same comments\n"));

    let output = comments(&mut stream);
    assert!(output.is_err());

    let mut stream = "# continuation comments with \n # whitespace after EOL are separate";
    let output = comments(&mut stream);
    assert_eq!(output, Ok("# continuation comments with \n"));
    assert_eq!(stream, " # whitespace after EOL are separate");

    let output = comments(&mut stream);
    assert!(output.is_err());

    let mut stream = "This line is important # and has a comment\n";
    let output = comments(&mut stream);
    assert!(output.is_err());

    let mut stream = "# single line comment\ndata";
    let output = comments(&mut stream);
    assert_eq!(output, Ok("# single line comment\n"));
    assert_eq!(stream, "data");
}

#[test]
fn test_tokenized() {
    let mut stream = "  \t\n\n# hello world # \n# new line, same comments\ndata";

    let output = tokenized_comments(&mut stream);
    assert_eq!(
        output,
        Ok("  \t\n\n# hello world # \n# new line, same comments\n")
    );
    assert_eq!(stream, "data");

    let output = comments(&mut stream);
    assert!(output.is_err());
}

#[test]
fn test_whitespace() {
    let mut stream = " asdf";
    let output = whitespace(&mut stream);
    assert_eq!(output, Ok(" "));
    assert_eq!(stream, "asdf");

    let output = comments(&mut stream);
    assert!(output.is_err());

    let mut stream = " \t\t    \n\n\n\n#hello there \n # hi # \n #\ndata";
    let output = whitespace(&mut stream);
    assert!(output.is_ok());
    assert_eq!(stream, "data");
}

#[test]
fn whitespace_needs_a_character_before_a_comment() {
    let mut stream = "# not a separator\nx";
    assert!(whitespace(&mut stream).is_err());
    assert_eq!(stream, "# not a separator\nx");
    let mut stream = "";
    assert!(whitespace(&mut stream).is_err());
}

#[test]
fn skipping_blanks_by_hand_changes_nothing() {
    let mut a = "   \t x";
    let mut b = " x";
    whitespace(&mut a).unwrap();
    whitespace(&mut b).unwrap();
    assert_eq!(a, b);
}
