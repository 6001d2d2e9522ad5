use cif_parser::reserved::{data_, global_, loop_, save_, stop_};
use cif_parser::strings::{
    double_quoted_string, eol_string, eol_text_field, eol_unquoted_string, noteol_string,
    noteol_unquoted_string, single_quoted_string,
};
use cif_parser::values::{eol_value, noteol_value, tag, whitespace_value};
use cif_parser::{cif, DataBlock, DataBlockItem, DataItems, Number, Numeric, ParseError, Value};

fn int_value(v: i32) -> Value<'static> {
    Value::Numeric(Numeric { value: Number::Int(v), esd: None })
}

fn single_block<'s>(doc: &'s [DataBlock<'s>], name: &str) -> &'s Vec<DataBlockItem<'s>> {
    assert_eq!(doc.len(), 1);
    assert_eq!(doc[0].0, name);
    &doc[0].1
}

fn only_items<'a, 's>(items: &'a [DataBlockItem<'s>]) -> &'a DataItems<'s> {
    assert_eq!(items.len(), 1);
    match &items[0] {
        DataBlockItem::DataItems(d) => d,
        other => panic!("expected data items, got {:?}", other),
    }
}

#[test]
fn reserved_words_ignore_case() {
    let mut stream = "dAtA_x";
    assert_eq!(data_(&mut stream), Ok("dAtA_"));
    assert_eq!(stream, "x");
    let mut stream = "LOOP_";
    assert_eq!(loop_(&mut stream), Ok("LOOP_"));
    let mut stream = "global_";
    assert_eq!(global_(&mut stream), Ok("global_"));
    let mut stream = "Save_";
    assert_eq!(save_(&mut stream), Ok("Save_"));
    let mut stream = "stop_";
    assert_eq!(stop_(&mut stream), Ok("stop_"));
    let mut stream = "sav";
    assert!(save_(&mut stream).is_err());
    assert_eq!(stream, "sav");
}

#[test]
fn quoted_strings_end_at_a_quote_before_whitespace() {
    let mut stream = "'it's here' x";
    assert_eq!(single_quoted_string(&mut stream), Ok("it's here"));
    assert_eq!(stream, " x");
    let mut stream = "\"a b\"";
    assert_eq!(double_quoted_string(&mut stream), Ok("a b"));
    assert_eq!(stream, "");
    let mut stream = "'never closed";
    assert!(single_quoted_string(&mut stream).is_err());
}

#[test]
fn unquoted_strings_depend_on_line_position() {
    let mut stream = ";abc def";
    assert!(eol_unquoted_string(&mut stream).is_err());
    assert_eq!(noteol_unquoted_string(&mut stream), Ok(";abc"));
    assert_eq!(stream, " def");
    let mut stream = "abc;d e";
    assert_eq!(eol_unquoted_string(&mut stream), Ok("abc;d"));
}

#[test]
fn text_fields_open_only_at_line_start() {
    let mut stream = ";multi\nline\n;\n";
    assert_eq!(eol_text_field(&mut stream), Ok("multi\nline\n"));
    assert_eq!(stream, "\n");
    let mut stream = ";multi\nline\n;\n";
    assert_eq!(eol_string(&mut stream), Ok("multi\nline\n"));
    let mut stream = ";multi\nline\n;\n";
    assert_eq!(noteol_string(&mut stream), Ok(";multi"));
    let mut stream = ";open\nnever closed\n";
    assert!(eol_text_field(&mut stream).is_err());
}

#[test]
fn values_by_kind() {
    let mut stream = ".";
    assert_eq!(eol_value(&mut stream), Ok(Value::Inapplicable));
    let mut stream = "?";
    assert_eq!(noteol_value(&mut stream), Ok(Value::Unknown));
    let mut stream = "-12";
    assert_eq!(noteol_value(&mut stream), Ok(int_value(-12)));
    let mut stream = "12abc";
    assert_eq!(noteol_value(&mut stream), Ok(Value::String("12abc")));
    let mut stream = "'12'";
    assert_eq!(noteol_value(&mut stream), Ok(Value::String("12")));
    let mut stream = "..";
    assert_eq!(noteol_value(&mut stream), Ok(Value::String("..")));
    let mut stream = "";
    assert!(eol_value(&mut stream).is_err());
}

#[test]
fn whitespace_value_picks_the_line_context() {
    let mut stream = "\n;text\n;";
    assert_eq!(whitespace_value(&mut stream), Ok(("\n", Value::String("text\n"))));
    let mut stream = " ;text";
    assert_eq!(whitespace_value(&mut stream), Ok((" ", Value::String(";text"))));
    let mut stream = "x";
    assert!(whitespace_value(&mut stream).is_err());
}

#[test]
fn tags_start_with_underscore() {
    let mut stream = "_cell.a 5";
    assert_eq!(tag(&mut stream), Ok("_cell.a"));
    assert_eq!(stream, " 5");
    let mut stream = "_ 5";
    assert!(tag(&mut stream).is_err());
}

#[test]
fn structural_scenario() {
    let mut stream = "data_A\n_x 1\n_y 2\n";
    let doc = cif(&mut stream).unwrap();
    assert_eq!(stream, "");
    let items = only_items(single_block(&doc, "A"));
    assert_eq!(items.get("_x"), Some(int_value(1)));
    assert_eq!(items.get("_y"), Some(int_value(2)));
    assert_eq!(items.get("_z"), None);
    assert_eq!(items.entry_count(), 2);
}

#[test]
fn loop_scenario() {
    let mut stream = "data_A\nloop_\n_x\n_y\n1 2\n";
    let doc = cif(&mut stream).unwrap();
    let items = only_items(single_block(&doc, "A"));
    assert_eq!(items.get("_x"), Some(int_value(1)));
    assert_eq!(items.get("_y"), Some(int_value(2)));
    assert_eq!(items.entry_count(), 2);
}

#[test]
fn save_frame_scenario() {
    let mut stream = "data_A\nsave_S\n_x 1\nsave_\n";
    let doc = cif(&mut stream).unwrap();
    let items = single_block(&doc, "A");
    assert_eq!(items.len(), 1);
    match &items[0] {
        DataBlockItem::SaveFrame((name, frame)) => {
            assert_eq!(*name, "S");
            assert_eq!(frame.get("_x"), Some(int_value(1)));
            assert_eq!(frame.entry_count(), 1);
        }
        other => panic!("expected a save frame, got {:?}", other),
    }
}

#[test]
fn comment_transparency() {
    let mut with_comment = "data_A\n# a comment\n_x 1\n";
    let mut without = "data_A\n_x 1\n";
    let a = cif(&mut with_comment).unwrap();
    let b = cif(&mut without).unwrap();
    assert_eq!(format!("{:?}", a), format!("{:?}", b));
    assert_eq!(only_items(single_block(&a, "A")).get("_x"), Some(int_value(1)));
}

#[test]
fn text_field_scenario() {
    let mut stream = "data_A\n_note\n;multi\nline\n;\n";
    let doc = cif(&mut stream).unwrap();
    let items = only_items(single_block(&doc, "A"));
    assert_eq!(items.get("_note"), Some(Value::String("multi\nline\n")));
}

#[test]
fn leading_whitespace_changes_nothing() {
    let mut padded = "   data_A\n_x 'a b'\n";
    let mut plain = "data_A\n_x 'a b'\n";
    let a = cif(&mut padded).unwrap();
    let b = cif(&mut plain).unwrap();
    assert_eq!(format!("{:?}", a), format!("{:?}", b));
}

#[test]
fn later_tags_replace_earlier_ones() {
    let mut stream = "data_A\n_x 1\n_x 2\n";
    let doc = cif(&mut stream).unwrap();
    let items = only_items(single_block(&doc, "A"));
    assert_eq!(items.get("_x"), Some(int_value(2)));
}

#[test]
fn several_blocks_and_leading_comments() {
    let mut stream = "# header\n\ndata_A\n_x 1.5(2)\n\ndata_B\n_y ?\n";
    let doc = cif(&mut stream).unwrap();
    assert_eq!(doc.len(), 2);
    assert_eq!(doc[0].0, "A");
    assert_eq!(doc[1].0, "B");
    assert_eq!(
        only_items(&doc[0].1).get("_x"),
        Some(Value::Numeric(Numeric { value: Number::Float("1.5"), esd: Some(2) }))
    );
    assert_eq!(only_items(&doc[1].1).get("_y"), Some(Value::Unknown));
}

#[test]
fn empty_document() {
    let mut stream = "";
    assert_eq!(cif(&mut stream).unwrap().len(), 0);
    let mut stream = "  \n";
    assert_eq!(cif(&mut stream).unwrap().len(), 0);
}

#[test]
fn trailing_garbage_is_an_error() {
    let mut stream = "data_A\n_x\n";
    assert_eq!(cif(&mut stream).unwrap_err(), ParseError { offset: 7 });
    assert_eq!(stream, "data_A\n_x\n");
}
