//! What lowering makes of the buffers of a unit: the meaning of the
//! executable lowering, as functions on mathematical values.

use vstd::prelude::*;
use crate::error::LowerError;
use crate::ir::{InstrModel, OperandModel, Target};
use crate::lines::{
    add_index, add_offset, apply, call_line, clear_after_pop, clear_for_declaration,
    clear_for_push, compare_with_zero, copy_source, copy_target, copy_word, enter_scope, jump,
    jump_if_not_equal, label_definition, label_name, leave_frame, leave_scope, load_address,
    load_base, load_frame_address, load_return, load_symbol, load_through, load_value, move_sum,
    pop_line, push_word, reserve_declared_word, restore_saved, sreg, static_entry,
    store_accumulator, store_first_return, store_second_return, store_width, words,
};
use crate::text::repeat;
use crate::types::TypeModel;
use crate::x86::{free_slots, marshal};

verus! {

/// The buffers of a compilation unit while it is lowered.
pub struct Unit {
    /// The instruction stream.
    pub code: Seq<char>,
    /// The static data.
    pub statics: Seq<char>,
    /// The number of labels taken so far.
    pub labels: nat,
}

impl Unit {
    /// The unit with `code` appended to its instruction stream.
    pub open spec fn emit(self, code: Seq<char>) -> Unit {
        Unit { code: self.code + code, statics: self.statics, labels: self.labels }
    }

    /// The unit with the data of one more string literal, under a fresh
    /// label.
    pub open spec fn define(self, content: Seq<char>) -> Unit {
        Unit {
            code: self.code,
            statics: self.statics + static_entry(self.labels, content),
            labels: self.labels + 1,
        }
    }
}

/// The outcome of lowering a construct: the buffers afterwards, and the
/// operand text that the construct yields or why lowering stopped.
pub struct Lowered {
    pub unit: Unit,
    pub result: Result<Seq<char>, LowerError>,
}

/// What lowering the operand `op` makes of the buffers `unit`. `left`
/// selects the scratch register.
///
/// A literal yields its own text and emits nothing. Everything else yields
/// the scratch register, loaded with an address: of a fresh label for a
/// string literal, of the symbol for a name, of the frame slot for a local.
/// A component of a local folds its offset into the address of the slot; a
/// component of anything else adds the offset to the lowered base. Where
/// lowering stops, the buffers keep what was emitted up to there.
pub open spec fn lower_operand(op: OperandModel, left: bool, unit: Unit) -> Lowered
    decreases op,
{
    let reg = sreg(left);
    match op {
        OperandModel::IntLiteral { value } => Lowered { unit, result: Ok(value) },
        OperandModel::FloatLiteral { value } => Lowered { unit, result: Ok(value) },
        OperandModel::CharLiteral { value } => Lowered { unit, result: Ok(value) },
        OperandModel::StringLiteral { value } => Lowered {
            unit: unit.define(value).emit(load_symbol(reg, label_name(unit.labels))),
            result: Ok(reg),
        },
        OperandModel::Name { name, .. } => Lowered {
            unit: unit.emit(load_symbol(reg, name)),
            result: Ok(reg),
        },
        OperandModel::StackOperand { stack_offset, .. } => Lowered {
            unit: unit.emit(load_frame_address(reg, stack_offset + 8)),
            result: Ok(reg),
        },
        OperandModel::FieldAccess { base, name } => match base.field_offset(name) {
            None => Lowered { unit, result: Err(LowerError::InvariantViolation) },
            Some(offset) => match *base {
                OperandModel::StackOperand { stack_offset, .. } => Lowered {
                    unit: unit.emit(load_frame_address(reg, stack_offset + 8 + offset)),
                    result: Ok(reg),
                },
                _ => {
                    let b = lower_operand(*base, left, unit);
                    match b.result {
                        Ok(address) => Lowered {
                            unit: b.unit.emit(add_offset(address, offset)),
                            result: Ok(reg),
                        },
                        Err(_) => b,
                    }
                },
            },
        },
        OperandModel::ArrayAccess { base, value } => {
            let b = lower_operand(*base, left, unit);
            match b.result {
                Ok(address) => {
                    let v = lower_operand(*value, left, b.unit.emit(load_base(address)));
                    match v.result {
                        Ok(index) => Lowered {
                            unit: v.unit.emit(add_index(index)).emit(move_sum(reg)),
                            result: Ok(reg),
                        },
                        Err(_) => v,
                    }
                },
                Err(_) => b,
            }
        },
        OperandModel::Deref { to_deref } => {
            let b = lower_operand(*to_deref, left, unit);
            match b.result {
                Ok(address) => Lowered {
                    unit: b.unit.emit(load_through(reg, address)),
                    result: Ok(reg),
                },
                Err(_) => b,
            }
        },
        OperandModel::TakeRef { to_ref } => {
            let b = lower_operand(*to_ref, left, unit);
            match b.result {
                Ok(place) => Lowered {
                    unit: b.unit.emit(load_address(reg, place)),
                    result: Ok(reg),
                },
                Err(_) => b,
            }
        },
    }
}

/// Lowering ended well with the buffers `unit`: the instruction's text is
/// what the instruction stream holds.
pub open spec fn done(unit: Unit) -> Lowered {
    Lowered { unit, result: Ok(unit.code) }
}

/// What lowering an arithmetic or bitwise instruction makes of the buffers:
/// the left operand, the right operand, their values loaded into the
/// accumulator and into `second`, the operation, the target, and the store
/// of the accumulator at the target in the width of `vtype`.
pub open spec fn lower_binary(
    mnemonic: Seq<char>,
    second: Seq<char>,
    target: OperandModel,
    left: OperandModel,
    right: OperandModel,
    vtype: TypeModel,
    unit: Unit,
) -> Lowered {
    let l = lower_operand(left, true, unit);
    match l.result {
        Err(_) => l,
        Ok(left_text) => {
            let r = lower_operand(right, false, l.unit);
            match r.result {
                Err(_) => r,
                Ok(right_text) => {
                    let computed = r.unit.emit(
                        load_value("rax"@, left_text, !left.is_immediate()),
                    ).emit(load_value(second, right_text, !right.is_immediate())).emit(
                        apply(mnemonic, second),
                    );
                    let t = lower_operand(target, true, computed);
                    match t.result {
                        Err(_) => t,
                        Ok(address) => done(
                            t.unit.emit(store_accumulator(store_width(vtype), address)),
                        ),
                    }
                },
            }
        },
    }
}

/// What lowering a copy of `size` bytes makes of the buffers: target and
/// source, then one word copied for every eight bytes begun.
pub open spec fn lower_move(
    target: OperandModel,
    source: OperandModel,
    size: nat,
    unit: Unit,
) -> Lowered {
    let t = lower_operand(target, true, unit);
    match t.result {
        Err(_) => t,
        Ok(target_text) => {
            let s = lower_operand(source, false, t.unit);
            match s.result {
                Err(_) => s,
                Ok(source_text) => done(
                    s.unit.emit(copy_target(target_text)).emit(copy_source(source_text)).emit(
                        repeat(copy_word(), words(size)),
                    ),
                ),
            }
        },
    }
}

/// The outcome of placing the arguments of a call.
pub struct ArgsLowered {
    /// The buffers afterwards.
    pub unit: Unit,
    /// The integer argument registers that are taken.
    pub taken: Seq<bool>,
    /// The number of words that went to the stack.
    pub spills: nat,
    /// Why placing stopped, where it did.
    pub failure: Option<LowerError>,
}

/// What lowering and placing the first `n` of `args`, from left to right,
/// makes of the buffers. Each argument is lowered as a left operand and then
/// placed under its static type. The first argument that cannot be lowered,
/// has no type or cannot be placed stops the call.
pub open spec fn place_args(args: Seq<OperandModel>, n: nat, unit: Unit) -> ArgsLowered
    decreases n,
{
    if n == 0 || n > args.len() {
        ArgsLowered { unit, taken: free_slots(), spills: 0, failure: None }
    } else {
        let prev = place_args(args, (n - 1) as nat, unit);
        if prev.failure is Some {
            prev
        } else {
            let arg = args[n - 1];
            let l = lower_operand(arg, true, prev.unit);
            let placed = match l.result {
                Err(e) => Err(e),
                Ok(text) => match arg.type_of() {
                    None => Err(LowerError::InvariantViolation),
                    Some(t) => marshal(prev.taken, text, t),
                },
            };
            match placed {
                Err(e) => ArgsLowered {
                    unit: l.unit,
                    taken: prev.taken,
                    spills: prev.spills,
                    failure: Some(e),
                },
                Ok(p) => ArgsLowered {
                    unit: l.unit.emit(p.text),
                    taken: p.taken,
                    spills: prev.spills + p.spills,
                    failure: None,
                },
            }
        }
    }
}

/// What lowering a call makes of the buffers: the arguments, the call, for
/// a captured result the target and the store of the return registers, and
/// one pop for every word that went to the stack. `captured` holds the
/// target and the type of the result.
pub open spec fn lower_call(
    platform: Target,
    func_name: Seq<char>,
    args: Seq<OperandModel>,
    captured: Option<(OperandModel, TypeModel)>,
    unit: Unit,
) -> Lowered {
    let a = place_args(args, args.len(), unit);
    match a.failure {
        Some(e) => Lowered { unit: a.unit, result: Err(e) },
        None => {
            let called = a.unit.emit(call_line(platform, func_name));
            match captured {
                None => done(called.emit(repeat(pop_line(), a.spills))),
                Some((target, vtype)) => {
                    let t = lower_operand(target, true, called);
                    match t.result {
                        Err(_) => t,
                        Ok(address) => if vtype.size() > 16 {
                            Lowered { unit: t.unit, result: Err(LowerError::Unimplemented) }
                        } else if vtype.size() > 8 {
                            done(
                                t.unit.emit(store_first_return(address)).emit(
                                    store_second_return(address),
                                ).emit(repeat(pop_line(), a.spills)),
                            )
                        } else {
                            done(
                                t.unit.emit(store_first_return(address)).emit(
                                    repeat(pop_line(), a.spills),
                                ),
                            )
                        },
                    }
                },
            }
        },
    }
}

/// What lowering a return makes of the buffers: the saved registers are
/// restored, the value is lowered and, where it is between one and eight
/// bytes wide, moved into the return register; then the frame is left. A
/// value of nine to sixteen bytes is not returned yet.
pub open spec fn lower_return(value: OperandModel, unit: Unit) -> Lowered {
    match value.type_of() {
        None => Lowered { unit, result: Err(LowerError::InvariantViolation) },
        Some(t) => {
            let v = lower_operand(value, true, unit.emit(restore_saved()));
            match v.result {
                Err(_) => v,
                Ok(text) => if t.size() == 0 || t.size() > 16 {
                    done(v.unit.emit(leave_frame()))
                } else if t.size() <= 8 {
                    done(v.unit.emit(load_return(text)).emit(leave_frame()))
                } else {
                    Lowered { unit: v.unit, result: Err(LowerError::Unimplemented) }
                },
            }
        },
    }
}

/// What lowering a conditional jump makes of the buffers: the condition, its
/// comparison with zero, and the jump that is taken where they differ.
pub open spec fn lower_branch(cond: OperandModel, target: Seq<char>, unit: Unit) -> Lowered {
    let c = lower_operand(cond, true, unit);
    match c.result {
        Err(_) => c,
        Ok(text) => done(c.unit.emit(compare_with_zero(text)).emit(jump_if_not_equal(target))),
    }
}

/// What lowering the instruction `instr` for `platform` makes of the
/// buffers `unit`, whose instruction stream starts out as the text so far of
/// this instruction. Where lowering ends well it yields the instruction's
/// text. Comparisons and negation are not lowered yet.
pub open spec fn lower_instr(instr: InstrModel, platform: Target, unit: Unit) -> Lowered {
    match instr {
        InstrModel::Arithmetic { operation, target, left, right, vtype } => lower_binary(
            operation.mnemonic(),
            operation.second(),
            target,
            left,
            right,
            vtype,
            unit,
        ),
        InstrModel::Comparison { .. } | InstrModel::Not { .. } => Lowered {
            unit,
            result: Err(LowerError::Unimplemented),
        },
        InstrModel::Mov { left, right, vtype } => lower_move(left, right, vtype.size(), unit),
        InstrModel::BeginScope => done(unit.emit(enter_scope())),
        InstrModel::EndScope => done(unit.emit(leave_scope())),
        InstrModel::Call { func_name, args, captured } => lower_call(
            platform,
            func_name,
            args,
            captured,
            unit,
        ),
        InstrModel::Goto { target } => done(unit.emit(jump(target))),
        InstrModel::CondGoto { cond, target } => lower_branch(cond, target, unit),
        InstrModel::Label { name } => done(unit.emit(label_definition(name))),
        InstrModel::VariableDeclaration { vtype, .. } => done(
            unit.emit(clear_for_declaration()).emit(
                repeat(reserve_declared_word(), words(vtype.size())),
            ),
        ),
        InstrModel::Push { vtype, .. } => done(
            unit.emit(clear_for_push()).emit(repeat(push_word(), words(vtype.size()))),
        ),
        InstrModel::Pop { vtype } => done(
            unit.emit(repeat(pop_line(), words(vtype.size()))).emit(clear_after_pop()),
        ),
        InstrModel::Ret { to_return } => lower_return(to_return, unit),
    }
}

} // verus!
