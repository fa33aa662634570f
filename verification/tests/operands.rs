use ir_to_x86::error::LowerError;
use ir_to_x86::ir::IrOperand;
use ir_to_x86::ir_to_as::{compile_ir_op_to_x86, get_asmx86_type_name, get_sreg};
use ir_to_x86::types::Type;

struct Out {
    result: Result<String, LowerError>,
    stack: String,
    statics: String,
    count: usize,
}

fn lower_from(op: &IrOperand, left: bool, count: usize) -> Out {
    assert!(op.can_lower(count));
    let mut stack = String::new();
    let mut statics = String::new();
    let mut count = count;
    let result = compile_ir_op_to_x86(op, left, &mut stack, &mut statics, &mut count);
    Out { result, stack, statics, count }
}

fn lower(op: &IrOperand, left: bool) -> Out {
    lower_from(op, left, 0)
}

fn boxed(op: IrOperand) -> Box<IrOperand> {
    Box::new(op)
}

fn local(offset: usize, vtype: Type) -> IrOperand {
    IrOperand::StackOperand { var_idx: 0, name: "v".to_string(), stack_offset: offset, vtype }
}

fn text(value: &str) -> IrOperand {
    IrOperand::StringLiteral { value: value.to_string() }
}

fn point() -> Type {
    Type::StructT {
        name: "point".to_string(),
        components: vec![
            ("x".to_string(), Type::IntegerT),
            ("flag".to_string(), Type::BoolT),
            ("y".to_string(), Type::IntegerT),
        ],
    }
}

fn field(base: IrOperand, name: &str) -> IrOperand {
    IrOperand::FieldAccess { base: boxed(base), name: name.to_string() }
}

#[test]
fn integer_literal_lowers_to_its_text() {
    let out = lower(&IrOperand::IntLiteral { value: "42".to_string() }, true);
    assert_eq!(out.result, Ok("42".to_string()));
    assert_eq!(out.stack, "");
    assert_eq!(out.statics, "");
    assert_eq!(out.count, 0);
}

#[test]
fn float_and_character_literals_lower_to_their_text() {
    let out = lower(&IrOperand::FloatLiteral { value: "2.5".to_string() }, false);
    assert_eq!(out.result, Ok("2.5".to_string()));
    assert_eq!(out.stack, "");
    let out = lower(&IrOperand::CharLiteral { value: "r".to_string() }, true);
    assert_eq!(out.result, Ok("r".to_string()));
    assert_eq!(out.stack, "");
}

#[test]
fn scratch_register_follows_the_side() {
    assert_eq!(get_sreg(true), "r9");
    assert_eq!(get_sreg(false), "r10");
}

#[test]
fn store_width_is_a_byte_for_booleans_and_characters() {
    assert_eq!(get_asmx86_type_name(&Type::BoolT), "BYTE");
    assert_eq!(get_asmx86_type_name(&Type::CharT), "BYTE");
    assert_eq!(get_asmx86_type_name(&Type::IntegerT), "QWORD");
    assert_eq!(get_asmx86_type_name(&Type::StringT), "QWORD");
    assert_eq!(get_asmx86_type_name(&point()), "QWORD");
}

#[test]
fn local_at_offset_zero_is_eight_below_the_frame_base() {
    let out = lower(&local(0, Type::IntegerT), true);
    assert_eq!(out.result, Ok("r9".to_string()));
    assert_eq!(out.stack, "    lea r9, [rbp-8]\n");
    assert_eq!(out.statics, "");
}

#[test]
fn local_at_offset_sixteen_is_twenty_four_below_the_frame_base() {
    let out = lower(&local(16, Type::IntegerT), false);
    assert_eq!(out.result, Ok("r10".to_string()));
    assert_eq!(out.stack, "    lea r10, [rbp-24]\n");
}

#[test]
fn local_far_into_the_frame() {
    let out = lower(&local(99992, Type::CharT), true);
    assert_eq!(out.stack, "    lea r9, [rbp-100000]\n");
}

#[test]
fn name_loads_the_address_of_the_symbol() {
    let op = IrOperand::Name { name: "counter".to_string(), vtype: Type::IntegerT };
    let out = lower(&op, true);
    assert_eq!(out.result, Ok("r9".to_string()));
    assert_eq!(out.stack, "    lea r9, [rel counter]\n");
    let out = lower(&op, false);
    assert_eq!(out.result, Ok("r10".to_string()));
    assert_eq!(out.stack, "    lea r10, [rel counter]\n");
}

#[test]
fn string_literal_is_defined_under_the_first_label() {
    let out = lower(&text("\"hi\""), true);
    assert_eq!(out.result, Ok("r9".to_string()));
    assert_eq!(out.stack, "    lea r9, [rel label_0]\n");
    assert_eq!(out.statics, "   label_0: db \"hi\",0x0\n");
    assert_eq!(out.count, 1);
}

#[test]
fn string_literals_take_the_labels_in_order() {
    let op = IrOperand::ArrayAccess { base: boxed(text("a")), value: boxed(text("b")) };
    let out = lower_from(&op, true, 9);
    assert_eq!(out.result, Ok("r9".to_string()));
    assert_eq!(out.statics, "   label_9: db a,0x0\n   label_10: db b,0x0\n");
    assert_eq!(
        out.stack,
        "    lea r9, [rel label_9]\n    lea r11, r9\n    lea r9, [rel label_10]\n    add r11, r9    mov r9, r11"
    );
    assert_eq!(out.count, 11);
}

#[test]
fn lowering_appends_to_what_the_buffers_hold() {
    let mut stack = "before\n".to_string();
    let mut statics = "data\n".to_string();
    let mut count = 3usize;
    let result = compile_ir_op_to_x86(&text("x"), false, &mut stack, &mut statics, &mut count);
    assert_eq!(result, Ok("r10".to_string()));
    assert_eq!(stack, "before\n    lea r10, [rel label_3]\n");
    assert_eq!(statics, "data\n   label_3: db x,0x0\n");
    assert_eq!(count, 4);
}

#[test]
fn relowering_an_operand_emits_it_again() {
    let op = local(8, Type::IntegerT);
    let mut stack = String::new();
    let mut statics = String::new();
    let mut count = 0usize;
    compile_ir_op_to_x86(&op, true, &mut stack, &mut statics, &mut count).unwrap();
    compile_ir_op_to_x86(&op, true, &mut stack, &mut statics, &mut count).unwrap();
    assert_eq!(stack, "    lea r9, [rbp-16]\n    lea r9, [rbp-16]\n");
}

#[test]
fn component_of_a_local_folds_into_one_address() {
    let out = lower(&field(local(16, point()), "y"), true);
    assert_eq!(out.result, Ok("r9".to_string()));
    assert_eq!(out.stack, "    lea r9, [rbp-33]\n");
    assert!(!out.stack.contains("add"));
    assert_eq!(out.stack.lines().count(), 1);
}

#[test]
fn first_component_of_a_local_is_at_the_local() {
    let out = lower(&field(local(16, point()), "x"), false);
    assert_eq!(out.stack, "    lea r10, [rbp-24]\n");
    let out = lower(&field(local(16, point()), "flag"), false);
    assert_eq!(out.stack, "    lea r10, [rbp-32]\n");
}

#[test]
fn component_behind_a_pointer_adds_its_offset() {
    let pointer = local(0, Type::PointerT { ptr_type: Box::new(point()) });
    let op = field(IrOperand::Deref { to_deref: boxed(pointer) }, "y");
    let out = lower(&op, true);
    assert_eq!(out.result, Ok("r9".to_string()));
    assert_eq!(out.stack, "    lea r9, [rbp-8]\n    mov r9,[r9]\nadd r9, 9");
}

#[test]
fn component_of_a_component_adds_the_inner_offset() {
    let outer = Type::StructT {
        name: "line".to_string(),
        components: vec![("from".to_string(), point()), ("to".to_string(), point())],
    };
    let op = field(field(local(0, outer), "to"), "y");
    let out = lower(&op, true);
    assert_eq!(out.result, Ok("r9".to_string()));
    assert_eq!(out.stack, "    lea r9, [rbp-25]\nadd r9, 9");
}

#[test]
fn missing_component_is_an_invariant_violation() {
    let out = lower(&field(local(16, point()), "z"), true);
    assert_eq!(out.result, Err(LowerError::InvariantViolation));
    assert_eq!(out.stack, "");
    assert_eq!(out.statics, "");
    assert_eq!(out.count, 0);
}

#[test]
fn component_of_what_is_no_struct_is_an_invariant_violation() {
    let out = lower(&field(local(16, Type::IntegerT), "x"), true);
    assert_eq!(out.result, Err(LowerError::InvariantViolation));
    let out = lower(&field(IrOperand::IntLiteral { value: "1".to_string() }, "x"), true);
    assert_eq!(out.result, Err(LowerError::InvariantViolation));
}

#[test]
fn lowering_that_stops_keeps_what_it_emitted() {
    let array = Type::ArrayT { size: 4, array_type: Box::new(Type::IntegerT) };
    let op = IrOperand::ArrayAccess {
        base: boxed(text("s")),
        value: boxed(field(local(0, array), "x")),
    };
    let out = lower(&op, true);
    assert_eq!(out.result, Err(LowerError::InvariantViolation));
    assert_eq!(out.stack, "    lea r9, [rel label_0]\n    lea r11, r9\n");
    assert_eq!(out.statics, "   label_0: db s,0x0\n");
    assert_eq!(out.count, 1);
}

#[test]
fn element_access_adds_the_index_to_the_base() {
    let array = Type::ArrayT { size: 4, array_type: Box::new(Type::IntegerT) };
    let op = IrOperand::ArrayAccess {
        base: boxed(local(0, array)),
        value: boxed(IrOperand::IntLiteral { value: "3".to_string() }),
    };
    let out = lower(&op, false);
    assert_eq!(out.result, Ok("r10".to_string()));
    assert_eq!(out.stack, "    lea r10, [rbp-8]\n    lea r11, r10\n    add r11, 3    mov r10, r11");
}

#[test]
fn dereference_loads_through_the_address() {
    let pointer = local(0, Type::PointerT { ptr_type: Box::new(Type::IntegerT) });
    let out = lower(&IrOperand::Deref { to_deref: boxed(pointer) }, true);
    assert_eq!(out.result, Ok("r9".to_string()));
    assert_eq!(out.stack, "    lea r9, [rbp-8]\n    mov r9,[r9]\n");
}

#[test]
fn address_of_loads_the_address() {
    let out = lower(&IrOperand::TakeRef { to_ref: boxed(local(8, Type::IntegerT)) }, false);
    assert_eq!(out.result, Ok("r10".to_string()));
    assert_eq!(out.stack, "    lea r10, [rbp-16]\nlea r10, r10\n");
}

#[test]
fn static_types_of_operands() {
    assert_eq!(IrOperand::IntLiteral { value: "1".to_string() }.get_type(), Some(Type::IntegerT));
    assert_eq!(IrOperand::FloatLiteral { value: "1.0".to_string() }.get_type(), Some(Type::FloatT));
    assert_eq!(IrOperand::CharLiteral { value: "c".to_string() }.get_type(), Some(Type::CharT));
    assert_eq!(text("s").get_type(), Some(Type::StringT));
    assert_eq!(local(0, point()).get_type(), Some(point()));
    assert_eq!(field(local(0, point()), "flag").get_type(), Some(Type::BoolT));
    assert_eq!(field(local(0, point()), "z").get_type(), None);
    let array = Type::ArrayT { size: 4, array_type: Box::new(Type::CharT) };
    let index = boxed(IrOperand::IntLiteral { value: "0".to_string() });
    assert_eq!(
        IrOperand::ArrayAccess { base: boxed(local(0, array)), value: index }.get_type(),
        Some(Type::CharT)
    );
    let slice = Type::SliceT { ptr_type: Box::new(Type::FloatT) };
    let index = boxed(IrOperand::IntLiteral { value: "0".to_string() });
    assert_eq!(
        IrOperand::ArrayAccess { base: boxed(local(0, slice)), value: index }.get_type(),
        Some(Type::FloatT)
    );
    let index = boxed(IrOperand::IntLiteral { value: "0".to_string() });
    assert_eq!(
        IrOperand::ArrayAccess { base: boxed(local(0, Type::IntegerT)), value: index }.get_type(),
        None
    );
    let pointer = Type::PointerT { ptr_type: Box::new(point()) };
    assert_eq!(IrOperand::Deref { to_deref: boxed(local(0, pointer)) }.get_type(), Some(point()));
    assert_eq!(IrOperand::Deref { to_deref: boxed(local(0, Type::BoolT)) }.get_type(), None);
    assert_eq!(
        IrOperand::TakeRef { to_ref: boxed(local(0, Type::BoolT)) }.get_type(),
        Some(Type::PointerT { ptr_type: Box::new(Type::BoolT) })
    );
}

#[test]
fn only_the_three_value_literals_are_immediates() {
    assert!(IrOperand::IntLiteral { value: "1".to_string() }.is_literal());
    assert!(IrOperand::FloatLiteral { value: "1.0".to_string() }.is_literal());
    assert!(IrOperand::CharLiteral { value: "c".to_string() }.is_literal());
    assert!(!text("s").is_literal());
    assert!(!local(0, Type::IntegerT).is_literal());
}

#[test]
fn operand_that_overflows_the_frame_offset_cannot_be_lowered() {
    assert!(!local(usize::MAX - 7, Type::IntegerT).check_fits());
    assert!(local(usize::MAX - 8, Type::IntegerT).check_fits());
    assert!(!field(local(usize::MAX - 16, point()), "y").check_fits());
    assert!(field(local(usize::MAX - 17, point()), "y").check_fits());
    assert!(field(local(usize::MAX - 16, point()), "x").check_fits());
}

#[test]
fn operand_whose_labels_run_out_cannot_be_lowered() {
    assert!(text("s").can_lower(usize::MAX - 1));
    assert!(!text("s").can_lower(usize::MAX));
    assert!(local(0, Type::IntegerT).can_lower(usize::MAX));
    let two = IrOperand::ArrayAccess { base: boxed(text("a")), value: boxed(text("b")) };
    assert_eq!(two.count_string_literals(), Some(2));
    assert!(!two.can_lower(usize::MAX - 1));
    assert!(two.can_lower(usize::MAX - 2));
}

#[test]
fn last_label_that_fits() {
    let out = lower_from(&text("s"), true, usize::MAX - 1);
    assert_eq!(out.count, usize::MAX);
    assert_eq!(out.stack, format!("    lea r9, [rel label_{}]\n", usize::MAX - 1));
}
