use jvm::class::structs::java_str::JavaStr;
use jvm::descriptor::{
    parse_field_descriptor, parse_method_descriptor, parse_return_type_descriptor,
    FieldDescriptor, FieldType, MethodDescriptor,
};

#[test]
fn every_primitive_descriptor_is_one_letter() {
    let cases = [
        ("B", FieldType::Byte, 1, false),
        ("C", FieldType::Char, 2, false),
        ("D", FieldType::Double, 8, true),
        ("F", FieldType::Float, 4, false),
        ("I", FieldType::Int, 4, false),
        ("J", FieldType::Long, 8, true),
        ("S", FieldType::Short, 2, false),
        ("Z", FieldType::Boolean, 1, false),
    ];
    for (text, expected, size, long) in cases {
        let FieldDescriptor(parsed) = parse_field_descriptor(text).unwrap();
        assert!(parsed == expected);
        assert_eq!(parsed.get_field_type_size(), size);
        assert_eq!(parsed.is_long(), long);
        assert!(parsed.is_primitive());
        assert_eq!(parsed.to_descriptor(), text);
    }
}

#[test]
fn objects_and_arrays_are_references() {
    let FieldDescriptor(object) = parse_field_descriptor("Ljava/lang/String;").unwrap();
    assert!(object == FieldType::Object("java/lang/String".to_string()));
    assert_eq!(object.get_field_type_size(), 4);
    assert!(!object.is_primitive());
    assert!(!object.is_long());
    let FieldDescriptor(array) = parse_field_descriptor("[[J").unwrap();
    assert!(array == FieldType::Array(Box::new(FieldType::Array(Box::new(FieldType::Long)))));
    assert_eq!(array.get_field_type_size(), 4);
    assert!(!array.is_long());
    assert_eq!(array.to_descriptor(), "[[J");
}

#[test]
fn a_descriptor_printed_and_parsed_is_the_same_type() {
    for text in ["I", "[I", "Ljava/lang/Object;", "[[Ljava/util/List;", "[Z", "D"] {
        let FieldDescriptor(parsed) = parse_field_descriptor(text).unwrap();
        let FieldDescriptor(again) = parse_field_descriptor(&parsed.to_descriptor()).unwrap();
        assert!(parsed == again);
        assert_eq!(again.to_descriptor(), text);
    }
}

#[test]
fn bad_field_descriptors_are_rejected_where_they_go_wrong() {
    assert_eq!(parse_field_descriptor("").unwrap_err().offset, 0);
    assert_eq!(parse_field_descriptor("Q").unwrap_err().offset, 0);
    assert_eq!(parse_field_descriptor("[").unwrap_err().offset, 1);
    assert_eq!(parse_field_descriptor("Ljava/lang/String").unwrap_err().offset, 17);
    assert_eq!(parse_field_descriptor("II").unwrap_err().offset, 1);
    assert_eq!(parse_field_descriptor("V").unwrap_err().offset, 0);
}

#[test]
fn a_method_descriptor_has_parameters_and_a_return_type() {
    let parsed = parse_method_descriptor("(IJ[Ljava/lang/String;)V").unwrap();
    assert_eq!(parsed.parameters.len(), 3);
    assert!(parsed.parameters[0] == FieldType::Int);
    assert!(parsed.parameters[1] == FieldType::Long);
    assert!(
        parsed.parameters[2]
            == FieldType::Array(Box::new(FieldType::Object("java/lang/String".to_string())))
    );
    assert!(parsed.return_type.is_none());
    let getter = parse_method_descriptor("()D").unwrap();
    assert!(getter.parameters.is_empty());
    assert!(getter.return_type == Some(FieldType::Double));
    let same = MethodDescriptor { parameters: vec![], return_type: Some(FieldType::Double) };
    assert!(getter.same_descriptor(&same));
    assert!(!getter.same_descriptor(&parsed));
}

#[test]
fn bad_method_descriptors_are_rejected() {
    assert!(parse_method_descriptor("").is_err());
    assert!(parse_method_descriptor("I").is_err());
    assert!(parse_method_descriptor("(I").is_err());
    assert!(parse_method_descriptor("(I)").is_err());
    assert!(parse_method_descriptor("(V)V").is_err());
    assert!(parse_method_descriptor("()VV").is_err());
}

#[test]
fn a_return_type_is_void_or_a_field_type() {
    assert!(parse_return_type_descriptor("V").unwrap().is_none());
    assert!(parse_return_type_descriptor("I").unwrap() == Some(FieldType::Int));
    assert!(parse_return_type_descriptor("VI").is_err());
    assert!(parse_return_type_descriptor("").is_err());
}

#[test]
fn the_characters_of_a_java_string_are_counted() {
    let ascii = JavaStr::from_str("hello");
    assert_eq!(ascii.as_bytes(), b"hello");
    assert_eq!(ascii.calculate_unicode_info(), (5, true, false));
    assert_eq!(ascii.to_str().unwrap(), "hello");
    let latin = JavaStr::from_str("caf\u{e9}");
    assert_eq!(latin.as_bytes(), &[b'c', b'a', b'f', 0xc3, 0xa9]);
    assert_eq!(latin.calculate_unicode_info(), (4, true, true));
    let wide = JavaStr::from_str("\u{4e2d}");
    assert_eq!(wide.calculate_unicode_info(), (1, false, true));
    let empty = JavaStr::from_str("");
    assert_eq!(empty.calculate_unicode_info(), (0, true, false));
}

#[test]
fn nul_and_supplementary_characters_take_the_modified_encoding() {
    let nul = JavaStr::from_str("\0");
    assert_eq!(nul.as_bytes(), &[0xc0, 0x80]);
    assert_eq!(nul.to_str().unwrap(), "\0");
    let emoji = JavaStr::from_str("\u{1f600}");
    assert_eq!(emoji.as_bytes(), &[0xed, 0xa0, 0xbd, 0xed, 0xb8, 0x80]);
    assert_eq!(emoji.to_str().unwrap(), "\u{1f600}");
    assert_eq!(emoji.convert_to_unicode(2), vec![0xd83d, 0xde00]);
    assert!(JavaStr::new(vec![0xff]).to_str().is_none());
}

#[test]
fn string_bytes_are_compact_where_they_can_be() {
    let ascii = JavaStr::from_str("ab");
    assert_eq!(ascii.to_java_string_bytes(true, false), (vec![b'a', b'b'], false));
    assert_eq!(ascii.to_java_string_bytes(false, false), (vec![b'a', 0, b'b', 0], true));
    assert_eq!(ascii.to_java_string_bytes(false, true), (vec![0, b'a', 0, b'b'], true));
    let latin = JavaStr::from_str("\u{e9}");
    assert_eq!(latin.to_java_string_bytes(true, false), (vec![0xe9], true));
    let wide = JavaStr::from_str("\u{4e2d}");
    assert_eq!(wide.to_java_string_bytes(true, false), (vec![0x2d, 0x4e], true));
    assert_eq!(wide.to_java_string_bytes(true, true), (vec![0x4e, 0x2d], true));
}
