use from_env::convert::{convert, Composite, ConvError, CustomLeaf, NoCustomLeaves, TypeTag, Value};
use from_env::scanner::split_sequence;

fn text(s: &str) -> String {
    String::from(s)
}

#[test]
fn splits_on_each_delimiter() {
    assert_eq!(split_sequence("1,2,3"), vec![text("1"), text("2"), text("3")]);
}

#[test]
fn empty_string_is_empty_sequence() {
    assert_eq!(split_sequence(""), Vec::<String>::new());
}

#[test]
fn singleton_sequence_is_whole_string() {
    assert_eq!(split_sequence("hello world"), vec![text("hello world")]);
}

#[test]
fn adjacent_delimiters_give_empty_element() {
    assert_eq!(split_sequence("a,,b"), vec![text("a"), text(""), text("b")]);
}

#[test]
fn trailing_delimiter_opens_no_element() {
    assert_eq!(split_sequence("a,b,"), vec![text("a"), text("b")]);
    assert_eq!(split_sequence(","), vec![text("")]);
}

#[test]
fn join_then_split_round_trips() {
    let items = vec![text("alpha"), text(""), text("gamma delta"), text("é")];
    let joined = items.join(",");
    assert_eq!(split_sequence(&joined), items);
}

#[test]
fn no_whitespace_trimming() {
    assert_eq!(split_sequence(" a , b"), vec![text(" a "), text(" b")]);
}

#[test]
fn bool_literals() {
    assert_eq!(convert("true", &TypeTag::Bool, &NoCustomLeaves), Ok(Value::Bool(true)));
    assert_eq!(convert("false", &TypeTag::Bool, &NoCustomLeaves), Ok(Value::Bool(false)));
}

#[test]
fn bad_bool_literal_is_parse_bool() {
    assert_eq!(convert("nope", &TypeTag::Bool, &NoCustomLeaves), Err(ConvError::ParseBool));
    assert_eq!(convert("True", &TypeTag::Bool, &NoCustomLeaves), Err(ConvError::ParseBool));
}

#[test]
fn signed_integers() {
    assert_eq!(convert("-128", &TypeTag::I8, &NoCustomLeaves), Ok(Value::Int(-128)));
    assert_eq!(convert("+42", &TypeTag::I16, &NoCustomLeaves), Ok(Value::Int(42)));
    assert_eq!(convert("007", &TypeTag::I32, &NoCustomLeaves), Ok(Value::Int(7)));
    assert_eq!(
        convert("-9223372036854775808", &TypeTag::I64, &NoCustomLeaves),
        Ok(Value::Int(i64::MIN))
    );
}

#[test]
fn signed_out_of_range_or_malformed() {
    assert_eq!(convert("128", &TypeTag::I8, &NoCustomLeaves), Err(ConvError::ParseInt(text("128"))));
    assert_eq!(convert("", &TypeTag::I32, &NoCustomLeaves), Err(ConvError::ParseInt(text(""))));
    assert_eq!(convert("-", &TypeTag::I32, &NoCustomLeaves), Err(ConvError::ParseInt(text("-"))));
    assert_eq!(convert(" 1", &TypeTag::I32, &NoCustomLeaves), Err(ConvError::ParseInt(text(" 1"))));
    assert_eq!(
        convert("9223372036854775808", &TypeTag::I64, &NoCustomLeaves),
        Err(ConvError::ParseInt(text("9223372036854775808")))
    );
}

#[test]
fn unsigned_integers() {
    assert_eq!(convert("255", &TypeTag::U8, &NoCustomLeaves), Ok(Value::UInt(255)));
    assert_eq!(convert("+1", &TypeTag::U16, &NoCustomLeaves), Ok(Value::UInt(1)));
    assert_eq!(convert("4294967295", &TypeTag::U32, &NoCustomLeaves), Ok(Value::UInt(4294967295)));
    assert_eq!(
        convert("18446744073709551615", &TypeTag::U64, &NoCustomLeaves),
        Ok(Value::UInt(u64::MAX))
    );
}

#[test]
fn unsigned_rejects_sign_and_overflow() {
    assert_eq!(convert("-1", &TypeTag::U8, &NoCustomLeaves), Err(ConvError::ParseInt(text("-1"))));
    assert_eq!(convert("-0", &TypeTag::U64, &NoCustomLeaves), Err(ConvError::ParseInt(text("-0"))));
    assert_eq!(convert("256", &TypeTag::U8, &NoCustomLeaves), Err(ConvError::ParseInt(text("256"))));
    assert_eq!(convert("65536", &TypeTag::U16, &NoCustomLeaves), Err(ConvError::ParseInt(text("65536"))));
}

#[test]
fn single_characters() {
    assert_eq!(convert("x", &TypeTag::Char, &NoCustomLeaves), Ok(Value::Char('x')));
    assert_eq!(convert("é", &TypeTag::Char, &NoCustomLeaves), Ok(Value::Char('é')));
    assert_eq!(convert("xy", &TypeTag::Char, &NoCustomLeaves), Err(ConvError::NotChar(text("xy"))));
    assert_eq!(convert("", &TypeTag::Char, &NoCustomLeaves), Err(ConvError::NotChar(text(""))));
}

#[test]
fn text_is_verbatim() {
    assert_eq!(convert(" a,b ", &TypeTag::Text, &NoCustomLeaves), Ok(Value::Text(text(" a,b "))));
    assert_eq!(convert("", &TypeTag::Text, &NoCustomLeaves), Ok(Value::Text(text(""))));
}

#[test]
fn empty_optional_is_absent() {
    let tag = TypeTag::Optional(Box::new(TypeTag::I32));
    assert_eq!(convert("", &tag, &NoCustomLeaves), Ok(Value::Absent));
    let tag = TypeTag::Optional(Box::new(TypeTag::Text));
    assert_eq!(convert("", &tag, &NoCustomLeaves), Ok(Value::Absent));
}

#[test]
fn nonempty_optional_is_present() {
    let tag = TypeTag::Optional(Box::new(TypeTag::I32));
    assert_eq!(convert("5", &tag, &NoCustomLeaves), Ok(Value::Present(Box::new(Value::Int(5)))));
    assert_eq!(convert("x", &tag, &NoCustomLeaves), Err(ConvError::ParseInt(text("x"))));
}

#[test]
fn sequence_of_integers() {
    let tag = TypeTag::Sequence(Box::new(TypeTag::U32));
    assert_eq!(
        convert("1,2,3", &tag, &NoCustomLeaves),
        Ok(Value::List(vec![Value::UInt(1), Value::UInt(2), Value::UInt(3)]))
    );
    assert_eq!(convert("", &tag, &NoCustomLeaves), Ok(Value::List(vec![])));
}

#[test]
fn sequence_reports_first_bad_element() {
    let tag = TypeTag::Sequence(Box::new(TypeTag::U32));
    assert_eq!(convert("1,x,y", &tag, &NoCustomLeaves), Err(ConvError::ParseInt(text("x"))));
}

#[test]
fn tuple_elements_by_position() {
    let tag = TypeTag::Tuple(vec![TypeTag::I32, TypeTag::Bool]);
    assert_eq!(
        convert("1,true", &tag, &NoCustomLeaves),
        Ok(Value::List(vec![Value::Int(1), Value::Bool(true)]))
    );
    assert_eq!(
        convert("1,true,ignored", &tag, &NoCustomLeaves),
        Ok(Value::List(vec![Value::Int(1), Value::Bool(true)]))
    );
    assert_eq!(convert("1,maybe", &tag, &NoCustomLeaves), Err(ConvError::ParseBool));
}

#[test]
fn tuple_with_too_few_elements() {
    let tag = TypeTag::Tuple(vec![TypeTag::I32, TypeTag::Bool]);
    assert_eq!(
        convert("1", &tag, &NoCustomLeaves),
        Err(ConvError::Custom(text("too few elements for a tuple")))
    );
}

#[test]
fn newtype_is_transparent() {
    let tag = TypeTag::Newtype(Box::new(TypeTag::U8));
    assert_eq!(convert("9", &tag, &NoCustomLeaves), Ok(Value::UInt(9)));
}

#[test]
fn unit_marker_by_name() {
    let tag = TypeTag::UnitMarker(text("Marker"));
    assert_eq!(convert("Marker", &tag, &NoCustomLeaves), Ok(Value::Unit));
    assert_eq!(
        convert("marker", &tag, &NoCustomLeaves),
        Err(ConvError::NotUnit(text("Marker"), text("marker")))
    );
    let unit = TypeTag::UnitMarker(text(""));
    assert_eq!(convert("", &unit, &NoCustomLeaves), Ok(Value::Unit));
}

#[test]
fn enumeration_by_exact_variant_name() {
    let tag = TypeTag::Enumeration(vec![text("Red"), text("Green")]);
    assert_eq!(convert("Green", &tag, &NoCustomLeaves), Ok(Value::Variant(text("Green"))));
    assert_eq!(convert("green", &tag, &NoCustomLeaves), Err(ConvError::NoSuchVariant(text("green"))));
}

#[test]
fn composite_shapes_are_refused() {
    assert_eq!(
        convert("a=1", &TypeTag::Mapping, &NoCustomLeaves),
        Err(ConvError::CannotDeserialize(Composite::Maps))
    );
    assert_eq!(
        convert("a=1", &TypeTag::Record, &NoCustomLeaves),
        Err(ConvError::CannotDeserialize(Composite::Structs))
    );
    assert_eq!(convert("1", &TypeTag::Any, &NoCustomLeaves), Err(ConvError::NotSelfDescribing));
}

struct Ports;

impl CustomLeaf for Ports {
    fn parse(&self, kind: &str, s: &str) -> Result<Value, String> {
        match (kind, s.parse::<u16>()) {
            ("Port", Ok(p)) if p > 0 => Ok(Value::UInt(p as u64)),
            ("Port", _) => Err(format!("not a port: {}", s)),
            _ => Err(format!("unknown kind {}", kind)),
        }
    }
}

#[test]
fn custom_types_go_to_their_converter() {
    let tag = TypeTag::Custom(text("Port"));
    assert_eq!(convert("8080", &tag, &Ports), Ok(Value::UInt(8080)));
    assert_eq!(convert("0", &tag, &Ports), Err(ConvError::Custom(text("not a port: 0"))));
    let list = TypeTag::Sequence(Box::new(TypeTag::Custom(text("Port"))));
    assert_eq!(
        convert("80,443", &list, &Ports),
        Ok(Value::List(vec![Value::UInt(80), Value::UInt(443)]))
    );
    assert_eq!(convert("80,x", &list, &Ports), Err(ConvError::Custom(text("not a port: x"))));
}

#[test]
fn custom_types_refused_without_converter() {
    let tag = TypeTag::Custom(text("Port"));
    assert_eq!(
        convert("8080", &tag, &NoCustomLeaves),
        Err(ConvError::Custom(text("no converter for this kind")))
    );
}

#[test]
fn bytes_are_utf8_encoding() {
    assert_eq!(convert("hé", &TypeTag::Bytes, &NoCustomLeaves), Ok(Value::Bytes(vec![104, 195, 169])));
    assert_eq!(convert("", &TypeTag::Bytes, &NoCustomLeaves), Ok(Value::Bytes(vec![])));
}

#[test]
fn sequence_of_optionals() {
    let tag = TypeTag::Sequence(Box::new(TypeTag::Optional(Box::new(TypeTag::Char))));
    assert_eq!(
        convert("a,,b", &tag, &NoCustomLeaves),
        Ok(Value::List(vec![
            Value::Present(Box::new(Value::Char('a'))),
            Value::Absent,
            Value::Present(Box::new(Value::Char('b'))),
        ]))
    );
}
