use ir_to_x86::error::LowerError;
use ir_to_x86::ir::{IrInstr, IrOperand, Target};
use ir_to_x86::ir_to_as::compile_ir_instr_to_x86;
use ir_to_x86::types::Type;
use std::collections::HashSet;

const LINUX: Target = Target::Linux { arm: false };
const MACOS: Target = Target::MacOs { arm: true };
const COPY: &str = "    mov rcx,QWORD [rbx]\n    mov QWORD [rax], rcx\n    add rax,8\n    add rbx, 8\n";
const RESTORE: &str = "    pop rdx\n   pop rcx\n   pop rbx\n";
const LEAVE: &str = "\n   mov rsp, rbp\n   pop rbp\n     ret\n";

fn literal(text: &str) -> IrOperand {
    IrOperand::IntLiteral { value: text.to_string() }
}

fn words(text: &str) -> IrOperand {
    IrOperand::StringLiteral { value: text.to_string() }
}

fn local(offset: usize, vtype: Type) -> IrOperand {
    IrOperand::StackOperand { var_idx: 0, name: "x".to_string(), stack_offset: offset, vtype }
}

fn bytes(size: usize) -> Type {
    Type::ArrayT { size, array_type: Box::new(Type::BoolT) }
}

fn lower_from(instr: &IrInstr, target: Target, labels: usize) -> (Result<String, LowerError>, String, usize) {
    assert!(instr.can_lower(labels));
    let mut depth = 4usize;
    let mut used = HashSet::new();
    used.insert(Type::IntegerT);
    let mut count = labels;
    let mut statics = String::new();
    let text = compile_ir_instr_to_x86(instr, &mut depth, &mut used, &mut count, &mut statics, &target);
    assert_eq!(depth, 4);
    assert_eq!(used.len(), 1);
    assert!(used.contains(&Type::IntegerT));
    (text, statics, count)
}

fn lower(instr: &IrInstr) -> Result<String, LowerError> {
    lower_from(instr, LINUX, 0).0
}

fn call(name: &str, args: Vec<IrOperand>) -> IrInstr {
    IrInstr::Call { func_name: name.to_string(), args }
}

fn numbers(n: usize) -> Vec<IrOperand> {
    (0..n).map(|i| literal(&format!("{}", i + 1))).collect()
}

#[test]
fn add_of_two_literals_stores_their_sum_at_the_first_slot() {
    let instr = IrInstr::Add {
        target: local(0, Type::IntegerT),
        left: literal("2"),
        right: literal("3"),
        vtype: Type::IntegerT,
    };
    let (text, statics, count) = lower_from(&instr, LINUX, 0);
    assert_eq!(
        text,
        Ok("    mov rax, 2\n    mov rbx, 3\n    add rax, rbx\n    lea r9, [rbp-8]\n    mov QWORD [r9], rax\n"
            .to_string())
    );
    assert_eq!(statics, "");
    assert_eq!(count, 0);
}

#[test]
fn add_of_two_locals_loads_through_their_registers() {
    let instr = IrInstr::Add {
        target: local(16, Type::IntegerT),
        left: local(0, Type::IntegerT),
        right: local(8, Type::IntegerT),
        vtype: Type::IntegerT,
    };
    assert_eq!(
        lower(&instr),
        Ok("    lea r9, [rbp-8]\n    lea r10, [rbp-16]\n    mov rax, QWORD [r9]\n    mov rbx, QWORD [r10]\n    add rax, rbx\n    lea r9, [rbp-24]\n    mov QWORD [r9], rax\n"
            .to_string())
    );
}

#[test]
fn sub_loads_the_right_operand_through_its_own_register() {
    let instr = IrInstr::Sub {
        target: local(0, Type::IntegerT),
        left: local(0, Type::IntegerT),
        right: local(8, Type::IntegerT),
        vtype: Type::IntegerT,
    };
    assert_eq!(
        lower(&instr),
        Ok("    lea r9, [rbp-8]\n    lea r10, [rbp-16]\n    mov rax, QWORD [r9]\n    mov rbx, QWORD [r10]\n    sub rax, rbx\n    lea r9, [rbp-8]\n    mov QWORD [r9], rax\n"
            .to_string())
    );
}

#[test]
fn mul_of_a_local_and_a_literal() {
    let instr = IrInstr::Mul {
        target: local(0, Type::IntegerT),
        left: local(8, Type::IntegerT),
        right: literal("10"),
        vtype: Type::IntegerT,
    };
    assert_eq!(
        lower(&instr),
        Ok("    lea r9, [rbp-16]\n    mov rax, QWORD [r9]\n    mov rbx, 10\n    imul rax, rbx\n    lea r9, [rbp-8]\n    mov QWORD [r9], rax\n"
            .to_string())
    );
}

#[test]
fn div_takes_its_right_operand_in_rdx() {
    let instr = IrInstr::Div {
        target: local(0, Type::IntegerT),
        left: literal("7"),
        right: local(8, Type::IntegerT),
        vtype: Type::IntegerT,
    };
    assert_eq!(
        lower(&instr),
        Ok("    lea r10, [rbp-16]\n    mov rax, 7\n    mov rdx, QWORD [r10]\n    idiv rax, rdx\n    lea r9, [rbp-8]\n    mov QWORD [r9], rax\n"
            .to_string())
    );
}

#[test]
fn and_of_two_literals_moves_the_literals() {
    let instr = IrInstr::And {
        target: local(0, Type::BoolT),
        left: literal("1"),
        right: literal("0"),
        vtype: Type::BoolT,
    };
    assert_eq!(
        lower(&instr),
        Ok("    mov rax, 1\n    mov rbx, 0\n    and rax, rbx\n    lea r9, [rbp-8]\n    mov BYTE [r9], rax\n"
            .to_string())
    );
}

#[test]
fn or_of_characters_stores_one_byte() {
    let instr = IrInstr::Or {
        target: local(3, Type::CharT),
        left: IrOperand::CharLiteral { value: "97".to_string() },
        right: local(4, Type::CharT),
        vtype: Type::CharT,
    };
    assert_eq!(
        lower(&instr),
        Ok("    lea r10, [rbp-12]\n    mov rax, 97\n    mov rbx, QWORD [r10]\n    or rax, rbx\n    lea r9, [rbp-11]\n    mov BYTE [r9], rax\n"
            .to_string())
    );
}

#[test]
fn literal_that_begins_like_a_register_stays_a_literal() {
    let instr = IrInstr::Add {
        target: local(0, Type::CharT),
        left: IrOperand::CharLiteral { value: "r".to_string() },
        right: literal("1"),
        vtype: Type::CharT,
    };
    assert_eq!(
        lower(&instr),
        Ok("    mov rax, r\n    mov rbx, 1\n    add rax, rbx\n    lea r9, [rbp-8]\n    mov BYTE [r9], rax\n"
            .to_string())
    );
}

#[test]
fn arithmetic_numbers_its_string_literals_left_right_target() {
    let instr = IrInstr::Add {
        target: IrOperand::Deref { to_deref: Box::new(words("t")) },
        left: words("l"),
        right: words("r"),
        vtype: Type::IntegerT,
    };
    let (text, statics, count) = lower_from(&instr, LINUX, 5);
    assert_eq!(
        text,
        Ok("    lea r9, [rel label_5]\n    lea r10, [rel label_6]\n    mov rax, QWORD [r9]\n    mov rbx, QWORD [r10]\n    add rax, rbx\n    lea r9, [rel label_7]\n    mov r9,[r9]\n    mov QWORD [r9], rax\n"
            .to_string())
    );
    assert_eq!(statics, "   label_5: db l,0x0\n   label_6: db r,0x0\n   label_7: db t,0x0\n");
    assert_eq!(count, 8);
}

#[test]
fn arithmetic_stops_at_an_operand_that_cannot_be_lowered() {
    let bad = IrOperand::FieldAccess { base: Box::new(local(0, Type::IntegerT)), name: "f".to_string() };
    let instr = IrInstr::Add { target: words("t"), left: words("l"), right: bad, vtype: Type::IntegerT };
    let (text, statics, count) = lower_from(&instr, LINUX, 0);
    assert_eq!(text, Err(LowerError::InvariantViolation));
    assert_eq!(statics, "   label_0: db l,0x0\n");
    assert_eq!(count, 1);
}

#[test]
fn comparisons_are_not_lowered() {
    let parts = || (local(0, Type::BoolT), literal("1"), literal("2"), Type::BoolT);
    let (target, left, right, vtype) = parts();
    assert_eq!(lower(&IrInstr::GreaterThan { target, left, right, vtype }), Err(LowerError::Unimplemented));
    let (target, left, right, vtype) = parts();
    assert_eq!(lower(&IrInstr::GreaterThanOrEq { target, left, right, vtype }), Err(LowerError::Unimplemented));
    let (target, left, right, vtype) = parts();
    assert_eq!(lower(&IrInstr::LessThan { target, left, right, vtype }), Err(LowerError::Unimplemented));
    let (target, left, right, vtype) = parts();
    assert_eq!(lower(&IrInstr::LessThanOrEq { target, left, right, vtype }), Err(LowerError::Unimplemented));
    let (target, left, right, vtype) = parts();
    assert_eq!(lower(&IrInstr::Equals { target, left, right, vtype }), Err(LowerError::Unimplemented));
    let (target, left, right, vtype) = parts();
    assert_eq!(lower(&IrInstr::NotEquals { target, left, right, vtype }), Err(LowerError::Unimplemented));
}

#[test]
fn negation_is_not_lowered_and_touches_nothing() {
    let instr = IrInstr::Not { target: local(0, Type::BoolT), value: words("s"), vtype: Type::BoolT };
    let (text, statics, count) = lower_from(&instr, LINUX, 2);
    assert_eq!(text, Err(LowerError::Unimplemented));
    assert_eq!(statics, "");
    assert_eq!(count, 2);
}

#[test]
fn move_of_an_integer_copies_one_word() {
    let instr = IrInstr::Mov {
        left: local(0, Type::IntegerT),
        right: local(8, Type::IntegerT),
        vtype: Type::IntegerT,
    };
    let expected = format!("    lea r9, [rbp-8]\n    lea r10, [rbp-16]\n  mov rax, r9\n  mov rbx, r10\n{}", COPY);
    assert_eq!(lower(&instr), Ok(expected));
}

#[test]
fn move_of_each_scalar_copies_one_word() {
    let pointer = || Type::PointerT { ptr_type: Box::new(Type::StringT) };
    for vtype in [Type::BoolT, Type::CharT, Type::IntegerT, pointer()] {
        let instr = IrInstr::Mov { left: local(0, vtype.clone()), right: local(8, vtype.clone()), vtype };
        let text = lower(&instr).unwrap();
        assert_eq!(text.matches(COPY).count(), 1);
        assert!(text.ends_with(COPY));
    }
}

#[test]
fn move_copies_a_word_for_every_eight_bytes_begun() {
    for (size, blocks) in [(0, 0), (1, 1), (7, 1), (8, 1), (9, 2), (16, 2), (17, 3), (64, 8)] {
        let instr = IrInstr::Mov { left: local(0, bytes(size)), right: local(64, bytes(size)), vtype: bytes(size) };
        let expected = format!(
            "    lea r9, [rbp-8]\n    lea r10, [rbp-72]\n  mov rax, r9\n  mov rbx, r10\n{}",
            COPY.repeat(blocks)
        );
        assert_eq!(lower(&instr), Ok(expected));
    }
}

#[test]
fn move_does_not_depend_on_what_the_source_holds() {
    let from_literal = IrInstr::Mov { left: local(0, Type::IntegerT), right: literal("5"), vtype: Type::IntegerT };
    let from_other = IrInstr::Mov { left: local(0, Type::IntegerT), right: literal("77"), vtype: Type::IntegerT };
    let a = lower(&from_literal).unwrap();
    let b = lower(&from_other).unwrap();
    assert_eq!(a, format!("    lea r9, [rbp-8]\n  mov rax, r9\n  mov rbx, 5\n{}", COPY));
    assert_eq!(b, format!("    lea r9, [rbp-8]\n  mov rax, r9\n  mov rbx, 77\n{}", COPY));
}

#[test]
fn scopes_call_the_frame_helpers() {
    assert_eq!(lower(&IrInstr::BeginScope), Ok("    call push_frame()".to_string()));
    assert_eq!(lower(&IrInstr::EndScope), Ok("    call pop_frame()".to_string()));
}

#[test]
fn goto_jumps_and_label_defines() {
    assert_eq!(lower(&IrInstr::Goto { target: "top".to_string() }), Ok("    jmp top".to_string()));
    assert_eq!(lower(&IrInstr::Label { name: "top".to_string() }), Ok("top:".to_string()));
}

#[test]
fn cond_goto_on_one_compares_with_zero_and_jumps_if_not_equal() {
    let instr = IrInstr::CondGoto { cond: literal("1"), target: "done".to_string() };
    assert_eq!(lower(&instr), Ok("cmp 1, 0\njne done".to_string()));
}

#[test]
fn cond_goto_on_zero_compares_with_zero_and_falls_through() {
    let instr = IrInstr::CondGoto { cond: literal("0"), target: "done".to_string() };
    assert_eq!(lower(&instr), Ok("cmp 0, 0\njne done".to_string()));
}

#[test]
fn cond_goto_on_a_local_lowers_it_first() {
    let instr = IrInstr::CondGoto { cond: local(8, Type::BoolT), target: "done".to_string() };
    assert_eq!(lower(&instr), Ok("    lea r9, [rbp-16]\ncmp r9, 0\njne done".to_string()));
}

#[test]
fn cond_goto_stops_at_a_condition_that_cannot_be_lowered() {
    let bad = IrOperand::FieldAccess { base: Box::new(words("s")), name: "f".to_string() };
    let instr = IrInstr::CondGoto { cond: bad, target: "done".to_string() };
    let (text, statics, count) = lower_from(&instr, LINUX, 0);
    assert_eq!(text, Err(LowerError::InvariantViolation));
    assert_eq!(statics, "");
    assert_eq!(count, 0);
}

#[test]
fn declaration_reserves_zeroed_words() {
    let declare = |vtype| IrInstr::VariableDeclaration { name: "v".to_string(), vtype };
    assert_eq!(lower(&declare(Type::IntegerT)), Ok("   xor r10,r10;\n    push r10".to_string()));
    assert_eq!(lower(&declare(Type::BoolT)), Ok("   xor r10,r10;\n    push r10".to_string()));
    assert_eq!(lower(&declare(Type::StringT)), Ok("   xor r10,r10;\n    push r10    push r10".to_string()));
    assert_eq!(lower(&declare(bytes(0))), Ok("   xor r10,r10;\n".to_string()));
    assert_eq!(lower(&declare(bytes(17))), Ok("   xor r10,r10;\n    push r10    push r10    push r10".to_string()));
}

#[test]
fn push_reserves_zeroed_words() {
    let push = |vtype| IrInstr::Push { vtype, val_idx: 0 };
    assert_eq!(lower(&push(Type::IntegerT)), Ok("   xor r10, r10\n    push r10\n".to_string()));
    assert_eq!(lower(&push(Type::CharT)), Ok("   xor r10, r10\n    push r10\n".to_string()));
    assert_eq!(lower(&push(Type::StringT)), Ok("   xor r10, r10\n    push r10\n    push r10\n".to_string()));
    assert_eq!(lower(&push(bytes(0))), Ok("   xor r10, r10\n".to_string()));
}

#[test]
fn pop_releases_words() {
    let pop = |vtype| IrInstr::Pop { vtype };
    assert_eq!(lower(&pop(Type::IntegerT)), Ok("    pop r10\n    xor r10,r10\n".to_string()));
    assert_eq!(lower(&pop(bytes(9))), Ok("    pop r10\n    pop r10\n    xor r10,r10\n".to_string()));
    assert_eq!(lower(&pop(bytes(0))), Ok("    xor r10,r10\n".to_string()));
}

#[test]
fn call_without_arguments() {
    assert_eq!(lower(&call("exit", vec![])), Ok(" call exit\n".to_string()));
}

#[test]
fn call_on_the_other_platform_carries_an_underscore() {
    let (text, _, _) = lower_from(&call("exit", vec![]), MACOS, 0);
    assert_eq!(text, Ok(" call _exit\n".to_string()));
    let (text, _, _) = lower_from(&call("exit", vec![]), Target::MacOs { arm: false }, 0);
    assert_eq!(text, Ok(" call _exit\n".to_string()));
    let (text, _, _) = lower_from(&call("exit", vec![]), Target::Linux { arm: true }, 0);
    assert_eq!(text, Ok(" call exit\n".to_string()));
}

#[test]
fn call_with_three_scalars_uses_the_first_three_registers() {
    assert_eq!(
        lower(&call("f", numbers(3))),
        Ok("    mov rdi, 1\n    mov rsi, 2\n    mov rdx, 3\n call f\n".to_string())
    );
}

#[test]
fn call_with_six_scalars_spills_nothing() {
    assert_eq!(
        lower(&call("f", numbers(6))),
        Ok("    mov rdi, 1\n    mov rsi, 2\n    mov rdx, 3\n    mov rcx, 4\n    mov r8, 5\n    mov r9, 6\n call f\n"
            .to_string())
    );
}

#[test]
fn call_with_eight_scalars_pushes_two_and_pops_two() {
    assert_eq!(
        lower(&call("f", numbers(8))),
        Ok("    mov rdi, 1\n    mov rsi, 2\n    mov rdx, 3\n    mov rcx, 4\n    mov r8, 5\n    mov r9, 6\n    push 7\n    push 8\n call f\n    pop r10\n    pop r10\n"
            .to_string())
    );
}

#[test]
fn call_pops_once_for_each_argument_beyond_the_sixth() {
    for n in 0..20 {
        let text = lower(&call("f", numbers(n))).unwrap();
        let extra = if n > 6 { n - 6 } else { 0 };
        assert_eq!(text.matches("    push ").count(), extra);
        assert_eq!(text.matches("    pop r10\n").count(), extra);
        let after = text.split(" call f\n").nth(1).unwrap();
        assert_eq!(after, "    pop r10\n".repeat(extra));
    }
}

#[test]
fn call_lowers_each_argument_before_it_places_it() {
    let args = vec![local(0, Type::IntegerT), literal("4"), local(8, Type::BoolT)];
    assert_eq!(
        lower(&call("f", args)),
        Ok("    lea r9, [rbp-8]\n    mov rdi, r9\n    mov rsi, 4\n    lea r9, [rbp-16]\n    mov rdx, r9\n call f\n"
            .to_string())
    );
}

#[test]
fn call_with_a_string_passes_two_words() {
    let (text, statics, count) = lower_from(&call("puts", vec![words("\"hi\"")]), LINUX, 0);
    assert_eq!(
        text,
        Ok("    lea r9, [rel label_0]\n    mov rdi, QWORD [r9]\n    mov rsi, QWORD [r9-8]\n call puts\n"
            .to_string())
    );
    assert_eq!(statics, "   label_0: db \"hi\",0x0\n");
    assert_eq!(count, 1);
}

#[test]
fn call_whose_string_straddles_the_registers_pops_one_word() {
    let mut args = numbers(5);
    args.push(local(0, Type::StringT));
    assert_eq!(
        lower(&call("f", args)),
        Ok("    mov rdi, 1\n    mov rsi, 2\n    mov rdx, 3\n    mov rcx, 4\n    mov r8, 5\n    lea r9, [rbp-8]\n    mov r9, QWORD [r9]\n    push r9\n call f\n    pop r10\n"
            .to_string())
    );
}

#[test]
fn call_with_a_float_is_not_lowered() {
    let args = vec![words("a"), IrOperand::FloatLiteral { value: "1.5".to_string() }, words("b")];
    let (text, statics, count) = lower_from(&call("f", args), LINUX, 0);
    assert_eq!(text, Err(LowerError::Unimplemented));
    assert_eq!(statics, "   label_0: db a,0x0\n");
    assert_eq!(count, 1);
}

#[test]
fn call_with_an_array_is_not_lowered() {
    assert_eq!(lower(&call("f", vec![local(0, bytes(4))])), Err(LowerError::Unimplemented));
}

#[test]
fn call_with_a_struct_that_has_components_is_not_lowered() {
    let one = Type::StructT { name: "one".to_string(), components: vec![("a".to_string(), Type::IntegerT)] };
    assert_eq!(lower(&call("f", vec![local(0, one)])), Err(LowerError::Unimplemented));
}

#[test]
fn call_with_a_struct_without_components_passes_nothing() {
    let unit = Type::StructT { name: "unit".to_string(), components: vec![] };
    assert_eq!(
        lower(&call("f", vec![local(0, unit), literal("1")])),
        Ok("    lea r9, [rbp-8]\n    mov rdi, 1\n call f\n".to_string())
    );
}

#[test]
fn call_with_an_argument_that_has_no_type_is_an_invariant_violation() {
    let bad = IrOperand::Deref { to_deref: Box::new(local(0, Type::IntegerT)) };
    assert_eq!(lower(&call("f", vec![literal("1"), bad])), Err(LowerError::InvariantViolation));
}

#[test]
fn call_with_result_of_one_word_stores_the_first_return_register() {
    let instr = IrInstr::CallWithRet {
        target: local(0, Type::IntegerT),
        func_name: "f".to_string(),
        args: numbers(1),
        vtype: Type::IntegerT,
    };
    assert_eq!(
        lower(&instr),
        Ok("    mov rdi, 1\n call f\n    lea r9, [rbp-8]\n    mov QWORD[r9], rax\n".to_string())
    );
}

#[test]
fn call_with_result_of_one_byte_stores_the_first_return_register() {
    let instr = IrInstr::CallWithRet {
        target: local(0, Type::BoolT),
        func_name: "f".to_string(),
        args: vec![],
        vtype: Type::BoolT,
    };
    assert_eq!(lower(&instr), Ok(" call f\n    lea r9, [rbp-8]\n    mov QWORD[r9], rax\n".to_string()));
}

#[test]
fn call_with_result_of_two_words_stores_both_return_registers() {
    let instr = IrInstr::CallWithRet {
        target: local(8, Type::StringT),
        func_name: "f".to_string(),
        args: vec![],
        vtype: Type::StringT,
    };
    let (text, _, _) = lower_from(&instr, MACOS, 0);
    assert_eq!(
        text,
        Ok(" call _f\n    lea r9, [rbp-16]\n    mov QWORD[r9], rax\n    mov QWORD[r9-8], rdx\n".to_string())
    );
    let nine = IrInstr::CallWithRet { target: local(8, bytes(9)), func_name: "f".to_string(), args: vec![], vtype: bytes(9) };
    assert_eq!(
        lower(&nine),
        Ok(" call f\n    lea r9, [rbp-16]\n    mov QWORD[r9], rax\n    mov QWORD[r9-8], rdx\n".to_string())
    );
}

#[test]
fn call_with_result_wider_than_two_words_is_not_lowered() {
    let instr = IrInstr::CallWithRet {
        target: IrOperand::Deref { to_deref: Box::new(words("t")) },
        func_name: "f".to_string(),
        args: vec![words("a")],
        vtype: bytes(17),
    };
    let (text, statics, count) = lower_from(&instr, LINUX, 0);
    assert_eq!(text, Err(LowerError::Unimplemented));
    assert_eq!(statics, "   label_0: db a,0x0\n   label_1: db t,0x0\n");
    assert_eq!(count, 2);
}

#[test]
fn call_with_result_pops_after_it_has_stored() {
    let instr = IrInstr::CallWithRet {
        target: local(0, Type::IntegerT),
        func_name: "f".to_string(),
        args: numbers(7),
        vtype: Type::IntegerT,
    };
    assert_eq!(
        lower(&instr),
        Ok("    mov rdi, 1\n    mov rsi, 2\n    mov rdx, 3\n    mov rcx, 4\n    mov r8, 5\n    mov r9, 6\n    push 7\n call f\n    lea r9, [rbp-8]\n    mov QWORD[r9], rax\n    pop r10\n"
            .to_string())
    );
}

#[test]
fn return_of_a_literal_moves_it_into_the_return_register() {
    let instr = IrInstr::Ret { to_return: literal("5") };
    assert_eq!(lower(&instr), Ok(format!("{}   mov rax, 5{}", RESTORE, LEAVE)));
}

#[test]
fn return_of_a_local_lowers_it_after_the_registers_are_restored() {
    let instr = IrInstr::Ret { to_return: local(0, Type::BoolT) };
    assert_eq!(lower(&instr), Ok(format!("{}    lea r9, [rbp-8]\n   mov rax, r9{}", RESTORE, LEAVE)));
}

#[test]
fn return_of_nothing_only_leaves_the_frame() {
    let instr = IrInstr::Ret { to_return: local(0, bytes(0)) };
    assert_eq!(lower(&instr), Ok(format!("{}    lea r9, [rbp-8]\n{}", RESTORE, LEAVE)));
}

#[test]
fn return_of_two_words_is_not_lowered() {
    let (text, statics, count) = lower_from(&IrInstr::Ret { to_return: words("s") }, LINUX, 0);
    assert_eq!(text, Err(LowerError::Unimplemented));
    assert_eq!(statics, "   label_0: db s,0x0\n");
    assert_eq!(count, 1);
    assert_eq!(lower(&IrInstr::Ret { to_return: local(0, bytes(9)) }), Err(LowerError::Unimplemented));
    assert_eq!(lower(&IrInstr::Ret { to_return: local(0, bytes(16)) }), Err(LowerError::Unimplemented));
}

#[test]
fn return_of_more_than_two_words_only_leaves_the_frame() {
    let instr = IrInstr::Ret { to_return: local(0, bytes(17)) };
    assert_eq!(lower(&instr), Ok(format!("{}    lea r9, [rbp-8]\n{}", RESTORE, LEAVE)));
}

#[test]
fn return_of_what_has_no_type_is_an_invariant_violation() {
    let bad = IrOperand::Deref { to_deref: Box::new(words("s")) };
    let (text, statics, count) = lower_from(&IrInstr::Ret { to_return: bad }, LINUX, 0);
    assert_eq!(text, Err(LowerError::InvariantViolation));
    assert_eq!(statics, "");
    assert_eq!(count, 0);
}

#[test]
fn labels_count_up_over_the_instructions_of_a_unit() {
    let unit = vec![
        call("puts", vec![words("\"a\"")]),
        IrInstr::CondGoto { cond: literal("1"), target: "l".to_string() },
        call("puts", vec![words("\"b\""), words("\"c\"")]),
        IrInstr::Ret { to_return: literal("0") },
    ];
    let mut depth = 0usize;
    let mut used = HashSet::new();
    let mut count = 0usize;
    let mut statics = String::new();
    let mut text = String::new();
    for instr in &unit {
        assert!(instr.can_lower(count));
        text += &compile_ir_instr_to_x86(instr, &mut depth, &mut used, &mut count, &mut statics, &LINUX).unwrap();
    }
    assert_eq!(count, 3);
    assert_eq!(statics, "   label_0: db \"a\",0x0\n   label_1: db \"b\",0x0\n   label_2: db \"c\",0x0\n");
    for n in 0..3 {
        assert_eq!(text.matches(&format!("[rel label_{}]", n)).count(), 1);
        assert_eq!(statics.matches(&format!("label_{}:", n)).count(), 1);
    }
    let first = text.find("label_0").unwrap();
    let second = text.find("label_1").unwrap();
    let third = text.find("label_2").unwrap();
    assert!(first < second && second < third);
}

#[test]
fn instruction_with_sizes_that_do_not_fit_cannot_be_lowered() {
    let huge = Type::ArrayT { size: usize::MAX, array_type: Box::new(Type::IntegerT) };
    assert!(!IrInstr::Pop { vtype: huge.clone() }.check_fits());
    assert!(!IrInstr::Push { vtype: huge.clone(), val_idx: 0 }.check_fits());
    assert!(!IrInstr::VariableDeclaration { name: "v".to_string(), vtype: huge.clone() }.check_fits());
    assert!(!IrInstr::Mov { left: literal("1"), right: literal("2"), vtype: huge.clone() }.check_fits());
    assert!(!IrInstr::Ret { to_return: local(0, huge.clone()) }.check_fits());
    assert!(!IrInstr::Ret { to_return: local(usize::MAX, Type::IntegerT) }.check_fits());
    assert!(call("f", vec![local(0, huge.clone())]).check_fits());
    assert_eq!(lower(&call("f", vec![local(0, huge.clone())])), Err(LowerError::Unimplemented));
    let pointer = Type::PointerT { ptr_type: Box::new(huge.clone()) };
    assert_eq!(
        lower(&call("f", vec![local(0, pointer)])),
        Ok("    lea r9, [rbp-8]\n    mov rdi, r9\n call f\n".to_string())
    );
    assert!(IrInstr::Ret { to_return: local(0, Type::IntegerT) }.check_fits());
    assert!(IrInstr::BeginScope.can_lower(usize::MAX));
}

#[test]
fn instruction_whose_labels_run_out_cannot_be_lowered() {
    let instr = call("f", vec![words("a"), words("b")]);
    assert_eq!(instr.count_string_literals(), Some(2));
    assert!(instr.can_lower(usize::MAX - 2));
    assert!(!instr.can_lower(usize::MAX - 1));
    let instr = IrInstr::Add { target: words("t"), left: words("l"), right: words("r"), vtype: Type::IntegerT };
    assert_eq!(instr.count_string_literals(), Some(3));
    let instr = IrInstr::Equals { target: words("t"), left: words("l"), right: words("r"), vtype: Type::IntegerT };
    assert_eq!(instr.count_string_literals(), Some(0));
}

#[test]
fn word_store_for_the_largest_size_that_fits() {
    let instr = IrInstr::Pop { vtype: bytes(24) };
    assert_eq!(lower(&instr), Ok("    pop r10\n    pop r10\n    pop r10\n    xor r10,r10\n".to_string()));
}
