use cif_parser::numeric::{exponent, float, integer, number, unsigned_integer};
use cif_parser::{Number, Numeric};

fn float_value(output: Result<&str, cif_parser::ParseError>) -> Result<f64, cif_parser::ParseError> {
    output.map(|t| t.parse::<f64>().unwrap())
}

#[test]
fn test_unsigned_integer() {
    let mut stream = "1345-hello34 3";

    let output = unsigned_integer(&mut stream);
    assert_eq!(stream, "-hello34 3");
    assert_eq!(output, Ok(1345));

    let output = unsigned_integer(&mut stream);
    assert!(output.is_err());

    let mut stream = "98 6";
    let output = unsigned_integer(&mut stream);
    assert_eq!(stream, " 6");
    assert_eq!(output, Ok(98));

    let mut stream = "-12";
    let output = unsigned_integer(&mut stream);
    assert!(output.is_err());

    let mut stream = "e12";
    let output = unsigned_integer(&mut stream);
    assert!(output.is_err());
}

#[test]
fn test_integer() {
    let mut stream = "1345-25hi";

    let output = integer(&mut stream);
    assert_eq!(stream, "-25hi");
    assert_eq!(output, Ok(1345));

    let output = integer(&mut stream);
    assert_eq!(stream, "hi");
    assert_eq!(output, Ok(-25));

    let output = integer(&mut stream);
    assert!(output.is_err());

    let mut stream = "98 6";
    let output = integer(&mut stream);
    assert_eq!(stream, " 6");
    assert_eq!(output, Ok(98));

    let mut stream = "+12";
    let output = integer(&mut stream);
    assert_eq!(output, Ok(12));
}

#[test]
fn test_exponent() {
    let mut stream = "e34-";
    let output = exponent(&mut stream);
    assert_eq!(stream, "-");
    assert_eq!(output, Ok("e34"));

    let mut stream = "E+87 ";
    let output = exponent(&mut stream);
    assert_eq!(stream, " ");
    assert_eq!(output, Ok("E+87"));

    let mut stream = "e-2465634 ";
    let output = exponent(&mut stream);
    assert_eq!(stream, " ");
    assert_eq!(output, Ok("e-2465634"));
}

#[test]
fn test_float() {
    let mut stream = "5e3";
    let output = float(&mut stream);
    assert_eq!(stream, "");
    assert_eq!(float_value(output), Ok(5e3));

    let mut stream = "5.0e3";
    let output = float(&mut stream);
    assert_eq!(stream, "");
    assert_eq!(float_value(output), Ok(5e3));

    let mut stream = ".3e-3";
    let output = float(&mut stream);
    assert_eq!(stream, "");
    assert_eq!(float_value(output), Ok(0.3e-3));

    let mut stream = "8.5";
    let output = float(&mut stream);
    assert_eq!(stream, "");
    assert_eq!(float_value(output), Ok(8.5));

    let mut stream = ".e9";
    let output = float(&mut stream);
    assert!(output.is_err());

    let mut stream = "564";
    let output = float(&mut stream);
    assert!(output.is_err());
}

#[test]
fn integer_limits() {
    let mut stream = "4294967295";
    assert_eq!(unsigned_integer(&mut stream), Ok(4294967295));
    let mut stream = "4294967296";
    assert!(unsigned_integer(&mut stream).is_err());
    assert_eq!(stream, "4294967296");
    let mut stream = "-2147483648";
    assert_eq!(integer(&mut stream), Ok(-2147483648));
    let mut stream = "2147483648";
    assert!(integer(&mut stream).is_err());
}

#[test]
fn numeric_boundary_cases() {
    let mut stream = "564";
    assert_eq!(
        Numeric::parser(&mut stream),
        Ok(Numeric { value: Number::Int(564), esd: None })
    );
    assert_eq!(stream, "");

    let mut stream = "564.";
    assert_eq!(number(&mut stream), Ok(Number::Float("564.")));

    let mut stream = "8.5";
    let n = number(&mut stream).unwrap();
    assert!(matches!(n, Number::Float(t) if t.parse::<f64>().unwrap() == 8.5));

    let mut stream = ".3e-3";
    let n = number(&mut stream).unwrap();
    assert!(matches!(n, Number::Float(t) if t.parse::<f64>().unwrap() == 0.0003));

    let mut stream = ".e9";
    assert!(number(&mut stream).is_err());

    let mut stream = "1.23(4)";
    assert_eq!(
        Numeric::parser(&mut stream),
        Ok(Numeric { value: Number::Float("1.23"), esd: Some(4) })
    );
    assert_eq!(stream, "");

    let mut stream = "7(x)";
    assert_eq!(
        Numeric::parser(&mut stream),
        Ok(Numeric { value: Number::Int(7), esd: None })
    );
    assert_eq!(stream, "(x)");
}
