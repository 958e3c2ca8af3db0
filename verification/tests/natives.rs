use jvm::descriptor::FieldType;
use jvm::runtime::interpreter::variable::Variable;
use jvm::runtime::native::bits::{
    double_to_raw_long_bits, float_to_raw_int_bits, int_bits_to_float, long_bits_to_double,
};
use jvm::runtime::native::object::native_object_hash_code;
use jvm::runtime::native::{
    key_of, marshal_arguments, push_native_result, NativeOutcome, NativeVariable,
};

#[test]
fn float_bits_go_through_int_and_back_unchanged() {
    for bits in [0u32, 1, 0x3f80_0000, 0x7f80_0000, 0x7fc0_0000, 0x7fc0_0001, 0x8000_0000, 0xffff_ffff] {
        let as_int = float_to_raw_int_bits(&vec![NativeVariable::Float(bits)]);
        assert_eq!(as_int, NativeOutcome::Value(Some(NativeVariable::Int(bits as i32))));
        let back = int_bits_to_float(&vec![NativeVariable::Int(bits as i32)]);
        assert_eq!(back, NativeOutcome::Value(Some(NativeVariable::Float(bits))));
    }
    assert_eq!(
        float_to_raw_int_bits(&vec![NativeVariable::Float(1.5f32.to_bits())]),
        NativeOutcome::Value(Some(NativeVariable::Int(0x3fc0_0000)))
    );
}

#[test]
fn double_bits_go_through_long_and_back_unchanged() {
    for bits in [0u64, 1, 0x3ff0_0000_0000_0000, 0x7ff8_0000_0000_0001, 0x8000_0000_0000_0000, u64::MAX] {
        let as_long = double_to_raw_long_bits(&vec![NativeVariable::Double(bits)]);
        assert_eq!(as_long, NativeOutcome::Value(Some(NativeVariable::Long(bits as i64))));
        let back = long_bits_to_double(&vec![NativeVariable::Long(bits as i64)]);
        assert_eq!(back, NativeOutcome::Value(Some(NativeVariable::Double(bits))));
    }
    assert_eq!(
        long_bits_to_double(&vec![NativeVariable::Long(-1)]),
        NativeOutcome::Value(Some(NativeVariable::Double(f64::from_bits(u64::MAX).to_bits())))
    );
}

#[test]
fn natives_reject_arguments_of_another_shape() {
    assert_eq!(float_to_raw_int_bits(&vec![]), NativeOutcome::Malformed);
    assert_eq!(float_to_raw_int_bits(&vec![NativeVariable::Int(1)]), NativeOutcome::Malformed);
    assert_eq!(int_bits_to_float(&vec![NativeVariable::Float(1)]), NativeOutcome::Malformed);
    assert_eq!(long_bits_to_double(&vec![NativeVariable::Int(1)]), NativeOutcome::Malformed);
    assert_eq!(
        double_to_raw_long_bits(&vec![NativeVariable::Double(1), NativeVariable::Double(2)]),
        NativeOutcome::Malformed
    );
    assert_eq!(native_object_hash_code(&vec![]), NativeOutcome::Malformed);
}

#[test]
fn the_hash_code_of_an_object_is_its_identifier() {
    assert_eq!(
        native_object_hash_code(&vec![NativeVariable::Reference(42)]),
        NativeOutcome::Value(Some(NativeVariable::Int(42)))
    );
    assert_eq!(
        native_object_hash_code(&vec![NativeVariable::Reference(0x8000_0001)]),
        NativeOutcome::Value(Some(NativeVariable::Int(i32::MIN + 1)))
    );
}

#[test]
fn a_native_key_names_class_method_and_parameters() {
    assert_eq!(key_of("java/lang/Object", "hashCode", &vec![]), "java/lang/Object.hashCode()");
    let parameters = vec![
        FieldType::Object("java/lang/Object".to_string()),
        FieldType::Int,
        FieldType::Array(Box::new(FieldType::Long)),
    ];
    assert_eq!(
        key_of("java/lang/System", "arraycopy", &parameters),
        "java/lang/System.arraycopy(Ljava/lang/Object;I[J)"
    );
}

#[test]
fn arguments_come_from_the_locals_by_type() {
    let (upper, lower) = Variable::put_long(-2);
    let (d_upper, d_lower) = Variable::put_double(2.5f64.to_bits());
    let locals = vec![
        Variable::from_reference(9),
        Variable::from_int(0x1_23),
        Variable::from_int(-1),
        upper,
        lower,
        Variable::from_int(1),
        d_upper,
        d_lower,
        Variable::from_float_bits(7),
        Variable::from_int(70000),
        Variable::from_reference(3),
    ];
    let parameters = vec![
        FieldType::Byte,
        FieldType::Char,
        FieldType::Long,
        FieldType::Boolean,
        FieldType::Double,
        FieldType::Float,
        FieldType::Short,
        FieldType::Object("x".to_string()),
    ];
    let arguments = marshal_arguments(&parameters, &locals, false).unwrap();
    assert_eq!(
        arguments,
        vec![
            NativeVariable::Reference(9),
            NativeVariable::Byte(0x23),
            NativeVariable::Char(0xffff),
            NativeVariable::Long(-2),
            NativeVariable::Boolean(true),
            NativeVariable::Double(2.5f64.to_bits()),
            NativeVariable::Float(7),
            NativeVariable::Short(70000i32 as i16),
            NativeVariable::Reference(3),
        ]
    );
    let statics = marshal_arguments(&vec![FieldType::Int], &locals, true).unwrap();
    assert_eq!(statics, vec![NativeVariable::Int(9)]);
    assert!(marshal_arguments(&parameters, &locals[..10].to_vec(), false).is_none());
    assert!(marshal_arguments(&vec![FieldType::Long], &vec![Variable::from_int(1)], true).is_none());
    assert_eq!(marshal_arguments(&vec![], &vec![], true), Some(vec![]));
    assert!(marshal_arguments(&vec![], &vec![], false).is_none());
}

#[test]
fn a_native_result_lands_on_the_stack() {
    let mut stack = vec![];
    push_native_result(&mut stack, None);
    assert!(stack.is_empty());
    push_native_result(&mut stack, Some(NativeVariable::Boolean(true)));
    push_native_result(&mut stack, Some(NativeVariable::Byte(-1)));
    push_native_result(&mut stack, Some(NativeVariable::Char(0xffff)));
    push_native_result(&mut stack, Some(NativeVariable::Long(-2)));
    assert_eq!(stack.len(), 5);
    assert_eq!(stack[0].get_int(), 1);
    assert_eq!(stack[1].get_int(), -1);
    assert_eq!(stack[2].get_int(), 0xffff);
    assert_eq!(Variable::get_long(stack[3], stack[4]), -2);
}

#[test]
fn a_native_variable_gives_what_it_holds() {
    assert!(NativeVariable::Boolean(true).get_boolean());
    assert_eq!(NativeVariable::Byte(-3).get_byte(), -3);
    assert_eq!(NativeVariable::Char(65).get_char(), 65);
    assert_eq!(NativeVariable::Short(-4).get_short(), -4);
    assert_eq!(NativeVariable::Int(5).get_int(), 5);
    assert_eq!(NativeVariable::Long(6).get_long(), 6);
    assert_eq!(NativeVariable::Float(7).get_float(), 7);
    assert_eq!(NativeVariable::Double(8).get_double(), 8);
    assert_eq!(NativeVariable::Reference(9).get_ref(), 9);
}
