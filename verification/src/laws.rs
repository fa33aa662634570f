//! What holds of lowering whatever is lowered.

use vstd::prelude::*;
use crate::error::LowerError;
use crate::ir::{literals_of, InstrModel, OperandModel, Target};
use crate::lowering::{
    done, lower_binary, lower_call, lower_instr, lower_move, lower_operand, place_args, Lowered,
    Unit,
};
use crate::lines::{
    add_index, add_offset, apply, call_line, copy_source, copy_target, copy_word, label_name,
    load_address, load_base, load_frame_address, load_symbol, load_through, load_value, move_sum,
    pop_line, restore_saved, sreg, static_entry, words,
};
use crate::text::{decimal, lemma_decimal_injective, repeat};
use crate::types::TypeModel;
use crate::x86::{first_taken, free_slots, lemma_next_after_first_taken, marshal};

verus! {

/// The data definitions of the literals `lits`, labelled from `first` on.
pub open spec fn entries(lits: Seq<Seq<char>>, first: nat) -> Seq<char>
    decreases lits.len(),
{
    if lits.len() == 0 {
        Seq::empty()
    } else {
        entries(lits.drop_last(), first) + static_entry(
            (first + lits.len() - 1) as nat,
            lits.last(),
        )
    }
}

/// From `before` to `after` the static data grew by the definitions of the
/// first of `lits`, as many as labels were taken, labelled in their order
/// from the first free label on.
pub open spec fn labelled(before: Unit, after: Unit, lits: Seq<Seq<char>>) -> bool {
    &&& before.labels <= after.labels <= before.labels + lits.len()
    &&& after.statics == before.statics + entries(
        lits.take(after.labels - before.labels),
        before.labels,
    )
}

/// From `before` to `after` every one of `lits` was defined.
pub open spec fn all_labelled(before: Unit, after: Unit, lits: Seq<Seq<char>>) -> bool {
    labelled(before, after, lits) && after.labels == before.labels + lits.len()
}

/// The definitions of two runs of literals are those of the first run,
/// followed by those of the second under the labels that come next.
pub proof fn lemma_entries_concat(a: Seq<Seq<char>>, b: Seq<Seq<char>>, first: nat)
    ensures
        entries(a + b, first) == entries(a, first) + entries(b, first + a.len()),
    decreases b.len(),
{
    if b.len() == 0 {
        assert(a + b =~= a);
        assert(entries(a, first) + entries(b, first + a.len()) =~= entries(a, first));
    } else {
        lemma_entries_concat(a, b.drop_last(), first);
        assert((a + b).drop_last() =~= a + b.drop_last());
        assert((a + b).last() == b.last());
        assert(entries(a + b, first) =~= entries(a, first) + entries(b, first + a.len()));
    }
}

/// Nothing lowered, nothing defined.
pub proof fn lemma_labelled_nothing(unit: Unit, lits: Seq<Seq<char>>)
    ensures
        labelled(unit, unit, lits),
{
    assert(lits.take(0) =~= Seq::empty());
    assert(unit.statics =~= unit.statics + entries(lits.take(0), unit.labels));
}

/// What comes after a run that was defined in full continues it.
pub proof fn lemma_labelled_compose(
    u0: Unit,
    u1: Unit,
    u2: Unit,
    a: Seq<Seq<char>>,
    b: Seq<Seq<char>>,
)
    requires
        all_labelled(u0, u1, a),
        labelled(u1, u2, b),
    ensures
        labelled(u0, u2, a + b),
        all_labelled(u1, u2, b) ==> all_labelled(u0, u2, a + b),
{
    let k = u2.labels - u1.labels;
    assert(a.take(a.len() as int) =~= a);
    assert((a + b).take(a.len() + k) =~= a + b.take(k));
    lemma_entries_concat(a, b.take(k), u0.labels);
    assert(u2.statics =~= u0.statics + entries((a + b).take(a.len() + k), u0.labels));
}

/// A run that stopped early is also the beginning of any longer run.
pub proof fn lemma_labelled_widen(u0: Unit, u1: Unit, a: Seq<Seq<char>>, b: Seq<Seq<char>>)
    requires
        labelled(u0, u1, a),
    ensures
        labelled(u0, u1, a + b),
{
    let k = u1.labels - u0.labels;
    assert((a + b).take(k) =~= a.take(k));
}

/// Every string literal that lowering an operand meets is defined under the
/// next free label, in the order in which lowering meets it; where lowering
/// ends well, every literal of the operand is defined.
pub proof fn law_operand_labels_in_order(op: OperandModel, left: bool, unit: Unit)
    ensures
        labelled(unit, lower_operand(op, left, unit).unit, op.string_literals()),
        lower_operand(op, left, unit).result is Ok ==> all_labelled(
            unit,
            lower_operand(op, left, unit).unit,
            op.string_literals(),
        ),
    decreases op,
{
    let lits = op.string_literals();
    lemma_labelled_nothing(unit, lits);
    match op {
        OperandModel::StringLiteral { value } => {
            assert(lits.take(1) =~= lits);
            assert(lits.drop_last() =~= Seq::<Seq<char>>::empty());
            assert(entries(lits, unit.labels) =~= static_entry(unit.labels, value));
        },
        OperandModel::FieldAccess { base, name } => {
            if base.field_offset(name) is Some && !(*base is StackOperand) {
                law_operand_labels_in_order(*base, left, unit);
            }
        },
        OperandModel::ArrayAccess { base, value } => {
            law_operand_labels_in_order(*base, left, unit);
            let b = lower_operand(*base, left, unit);
            if b.result is Ok {
                let next = b.unit.emit(load_base(b.result->Ok_0));
                law_operand_labels_in_order(*value, left, next);
                let v = lower_operand(*value, left, next);
                lemma_labelled_compose(
                    unit,
                    next,
                    v.unit,
                    base.string_literals(),
                    value.string_literals(),
                );
            } else {
                lemma_labelled_widen(unit, b.unit, base.string_literals(), value.string_literals());
            }
        },
        OperandModel::Deref { to_deref } => {
            law_operand_labels_in_order(*to_deref, left, unit);
        },
        OperandModel::TakeRef { to_ref } => {
            law_operand_labels_in_order(*to_ref, left, unit);
        },
        _ => {},
    }
}

/// Different labels have different names.
pub proof fn law_labels_distinct(a: nat, b: nat)
    requires
        a != b,
    ensures
        label_name(a) != label_name(b),
{
    if label_name(a) == label_name(b) {
        let prefix = "label_"@;
        assert(label_name(a).subrange(prefix.len() as int, label_name(a).len() as int)
            =~= decimal(a));
        assert(label_name(b).subrange(prefix.len() as int, label_name(b).len() as int)
            =~= decimal(b));
        lemma_decimal_injective(a, b);
    }
}

/// A local that lies `stack_offset` bytes into the frame is addressed at
/// `stack_offset + 8` bytes below the frame base, by one instruction, and
/// yields the scratch register.
pub proof fn law_local_address(
    var_idx: nat,
    name: Seq<char>,
    stack_offset: nat,
    vtype: TypeModel,
    left: bool,
    unit: Unit,
)
    ensures
        lower_operand(
            OperandModel::StackOperand { var_idx, name, stack_offset, vtype },
            left,
            unit,
        ) == (Lowered {
            unit: unit.emit(load_frame_address(sreg(left), stack_offset + 8)),
            result: Ok(sreg(left)),
        }),
{
}

/// A component of a local is addressed by one instruction, at the offset of
/// the local plus 8 plus the offset of the component below the frame base;
/// nothing is added afterwards.
pub proof fn law_field_of_local_folds(
    var_idx: nat,
    name: Seq<char>,
    stack_offset: nat,
    vtype: TypeModel,
    field: Seq<char>,
    left: bool,
    unit: Unit,
)
    requires
        vtype.field_offset(field) is Some,
    ensures
        lower_operand(
            OperandModel::FieldAccess {
                base: Box::new(OperandModel::StackOperand { var_idx, name, stack_offset, vtype }),
                name: field,
            },
            left,
            unit,
        ) == (Lowered {
            unit: unit.emit(
                load_frame_address(
                    sreg(left),
                    stack_offset + 8 + vtype.field_offset(field)->Some_0,
                ),
            ),
            result: Ok(sreg(left)),
        }),
{
}

/// A word covers a size of one to eight bytes; in general the words of a
/// size are the fewest that cover it.
pub proof fn lemma_words_cover(size: nat)
    ensures
        size <= 8 * words(size) < size + 8,
        1 <= size <= 8 ==> words(size) == 1,
{
}

/// A scalar is between one and eight bytes wide.
pub proof fn lemma_scalar_size(t: TypeModel)
    requires
        t.is_scalar(),
    ensures
        1 <= t.size() <= 8,
{
}

/// A copy between two locals addresses the target and the source and then
/// copies whole words from the source to the target, as few as cover the
/// size of the type: `8 * words(size)` bytes, whatever the locals hold. A
/// scalar is copied as one word.
pub proof fn law_move_copies_whole_words(instr: InstrModel, platform: Target, unit: Unit)
    requires
        instr matches InstrModel::Mov { left, right, .. } && left is StackOperand
            && right is StackOperand,
    ensures
        ({
            let target = instr->Mov_left;
            let source = instr->Mov_right;
            let size = instr->Mov_vtype.size();
            &&& lower_instr(instr, platform, unit) == done(
                unit.emit(
                    load_frame_address(sreg(true), (target->StackOperand_stack_offset + 8) as nat),
                ).emit(
                    load_frame_address(sreg(false), (source->StackOperand_stack_offset + 8) as nat),
                ).emit(copy_target(sreg(true))).emit(copy_source(sreg(false))).emit(
                    repeat(copy_word(), words(size)),
                ),
            )
            &&& size <= 8 * words(size) < size + 8
            &&& instr->Mov_vtype.is_scalar() ==> repeat(copy_word(), words(size)) == copy_word()
        }),
{
    let size = instr->Mov_vtype.size();
    lemma_words_cover(size);
    if instr->Mov_vtype.is_scalar() {
        lemma_scalar_size(instr->Mov_vtype);
        assert(repeat(copy_word(), 0) =~= Seq::<char>::empty());
        assert(repeat(copy_word(), 1) =~= copy_word());
    }
}

/// Where every argument of a call is a scalar and all are lowered and
/// placed, the first six take the integer argument registers in their
/// order, and each further one is one spilled word.
pub proof fn law_scalar_args_spill_beyond_six(args: Seq<OperandModel>, n: nat, unit: Unit)
    requires
        n <= args.len(),
        forall|i: int|
            0 <= i < n ==> (#[trigger] args[i]).type_of() is Some
                && args[i].type_of()->Some_0.is_scalar(),
        place_args(args, n, unit).failure is None,
    ensures
        place_args(args, n, unit).taken == first_taken(if n <= 6 { n } else { 6 }),
        place_args(args, n, unit).spills == if n <= 6 { 0 } else { (n - 6) as nat },
    decreases n,
{
    if n == 0 {
        assert(free_slots() =~= first_taken(0));
    } else {
        let prev = place_args(args, (n - 1) as nat, unit);
        law_scalar_args_spill_beyond_six(args, (n - 1) as nat, unit);
        lemma_next_after_first_taken((n - 1) as nat);
        assert(args[n - 1].type_of()->Some_0.is_scalar());
    }
}

/// A call with scalar arguments that are all lowered and placed pops, after
/// the call, exactly the words that it pushed before it: none for up to six
/// arguments, and one for each argument beyond the sixth.
pub proof fn law_call_pops_what_it_pushed(
    platform: Target,
    func_name: Seq<char>,
    args: Seq<OperandModel>,
    unit: Unit,
)
    requires
        forall|i: int|
            0 <= i < args.len() ==> (#[trigger] args[i]).type_of() is Some
                && args[i].type_of()->Some_0.is_scalar(),
        place_args(args, args.len(), unit).failure is None,
    ensures
        lower_call(platform, func_name, args, None, unit) == done(
            place_args(args, args.len(), unit).unit.emit(call_line(platform, func_name)).emit(
                repeat(
                    pop_line(),
                    if args.len() <= 6 {
                        0
                    } else {
                        (args.len() - 6) as nat
                    },
                ),
            ),
        ),
{
    law_scalar_args_spill_beyond_six(args, args.len(), unit);
}

/// Every string literal that lowering the arguments of a call meets is
/// defined under the next free label, in order.
pub proof fn law_args_labels_in_order(args: Seq<OperandModel>, n: nat, unit: Unit)
    requires
        n <= args.len(),
    ensures
        labelled(unit, place_args(args, n, unit).unit, literals_of(args, n)),
        place_args(args, n, unit).failure is None ==> all_labelled(
            unit,
            place_args(args, n, unit).unit,
            literals_of(args, n),
        ),
    decreases n,
{
    if n == 0 {
        lemma_labelled_nothing(unit, literals_of(args, n));
    } else {
        let prev = place_args(args, (n - 1) as nat, unit);
        law_args_labels_in_order(args, (n - 1) as nat, unit);
        if prev.failure is Some {
            lemma_labelled_widen(
                unit,
                prev.unit,
                literals_of(args, (n - 1) as nat),
                args[n - 1].string_literals(),
            );
        } else {
            law_operand_labels_in_order(args[n - 1], true, prev.unit);
            let l = lower_operand(args[n - 1], true, prev.unit);
            lemma_labelled_compose(
                unit,
                prev.unit,
                l.unit,
                literals_of(args, (n - 1) as nat),
                args[n - 1].string_literals(),
            );
        }
    }
}

/// The labels of an arithmetic or bitwise instruction: those of the left
/// operand, of the right operand and of the target, in this order.
proof fn lemma_binary_labels(
    mnemonic: Seq<char>,
    second: Seq<char>,
    target: OperandModel,
    left: OperandModel,
    right: OperandModel,
    vtype: TypeModel,
    unit: Unit,
)
    ensures
        ({
            let lits = left.string_literals() + right.string_literals() + target.string_literals();
            let l = lower_binary(mnemonic, second, target, left, right, vtype, unit);
            &&& labelled(unit, l.unit, lits)
            &&& l.result is Ok ==> all_labelled(unit, l.unit, lits)
        }),
{
    let a = left.string_literals();
    let b = right.string_literals();
    let c = target.string_literals();
    law_operand_labels_in_order(left, true, unit);
    let l = lower_operand(left, true, unit);
    if l.result is Err {
        lemma_labelled_widen(unit, l.unit, a, b);
        lemma_labelled_widen(unit, l.unit, a + b, c);
    } else {
        law_operand_labels_in_order(right, false, l.unit);
        let r = lower_operand(right, false, l.unit);
        lemma_labelled_compose(unit, l.unit, r.unit, a, b);
        if r.result is Err {
            lemma_labelled_widen(unit, r.unit, a + b, c);
        } else {
            let computed = lower_binary_computed(mnemonic, second, left, right, unit);
            law_operand_labels_in_order(target, true, computed);
            let t = lower_operand(target, true, computed);
            lemma_labelled_compose(unit, computed, t.unit, a + b, c);
        }
    }
}

/// The buffers of an arithmetic or bitwise instruction once both operands
/// are loaded and the operation is applied.
spec fn lower_binary_computed(
    mnemonic: Seq<char>,
    second: Seq<char>,
    left: OperandModel,
    right: OperandModel,
    unit: Unit,
) -> Unit {
    let l = lower_operand(left, true, unit);
    let r = lower_operand(right, false, l.unit);
    r.unit.emit(
        load_value("rax"@, l.result->Ok_0, !left.is_immediate()),
    ).emit(load_value(second, r.result->Ok_0, !right.is_immediate())).emit(
        apply(mnemonic, second),
    )
}

/// The labels of a copy: those of the target, then those of the source.
proof fn lemma_move_labels(target: OperandModel, source: OperandModel, size: nat, unit: Unit)
    ensures
        ({
            let lits = target.string_literals() + source.string_literals();
            let l = lower_move(target, source, size, unit);
            &&& labelled(unit, l.unit, lits)
            &&& l.result is Ok ==> all_labelled(unit, l.unit, lits)
        }),
{
    let a = target.string_literals();
    let b = source.string_literals();
    law_operand_labels_in_order(target, true, unit);
    let t = lower_operand(target, true, unit);
    if t.result is Err {
        lemma_labelled_widen(unit, t.unit, a, b);
    } else {
        law_operand_labels_in_order(source, false, t.unit);
        let s = lower_operand(source, false, t.unit);
        lemma_labelled_compose(unit, t.unit, s.unit, a, b);
    }
}

/// The labels of a call: those of the arguments, then those of the target
/// of a captured result.
proof fn lemma_call_labels(
    platform: Target,
    func_name: Seq<char>,
    args: Seq<OperandModel>,
    captured: Option<(OperandModel, TypeModel)>,
    unit: Unit,
)
    ensures
        ({
            let lits = match captured {
                Some((target, _)) => literals_of(args, args.len()) + target.string_literals(),
                None => literals_of(args, args.len()),
            };
            let l = lower_call(platform, func_name, args, captured, unit);
            &&& labelled(unit, l.unit, lits)
            &&& l.result is Ok ==> all_labelled(unit, l.unit, lits)
        }),
{
    let a = literals_of(args, args.len());
    law_args_labels_in_order(args, args.len(), unit);
    let placed = place_args(args, args.len(), unit);
    match captured {
        Some((target, _)) => {
            let c = target.string_literals();
            if placed.failure is Some {
                lemma_labelled_widen(unit, placed.unit, a, c);
            } else {
                let called = placed.unit.emit(call_line(platform, func_name));
                law_operand_labels_in_order(target, true, called);
                let t = lower_operand(target, true, called);
                lemma_labelled_compose(unit, called, t.unit, a, c);
            }
        },
        None => {},
    }
}

/// Every string literal that lowering an instruction meets is defined under
/// the next free label, in the order in which lowering meets it; where
/// lowering ends well, every literal of the instruction is defined. So the
/// labels of a unit count up from its first label without a gap, and no two
/// literals share one.
pub proof fn law_instr_labels_in_order(instr: InstrModel, platform: Target, unit: Unit)
    ensures
        labelled(unit, lower_instr(instr, platform, unit).unit, instr.string_literals()),
        lower_instr(instr, platform, unit).result is Ok ==> all_labelled(
            unit,
            lower_instr(instr, platform, unit).unit,
            instr.string_literals(),
        ),
{
    lemma_labelled_nothing(unit, instr.string_literals());
    match instr {
        InstrModel::Arithmetic { operation, target, left, right, vtype } => {
            lemma_binary_labels(
                operation.mnemonic(),
                operation.second(),
                target,
                left,
                right,
                vtype,
                unit,
            );
        },
        InstrModel::Mov { left, right, vtype } => {
            lemma_move_labels(left, right, vtype.size(), unit);
        },
        InstrModel::Call { func_name, args, captured } => {
            lemma_call_labels(platform, func_name, args, captured, unit);
        },
        InstrModel::CondGoto { cond, .. } => {
            law_operand_labels_in_order(cond, true, unit);
        },
        InstrModel::Ret { to_return } => {
            if to_return.type_of() is Some {
                law_operand_labels_in_order(to_return, true, unit.emit(restore_saved()));
            }
        },
        _ => {},
    }
}

/// Lowering an operand ends well exactly where every component that it
/// looks up exists, and stops with an invariant violation where one does
/// not. Where it ends well, a literal yields its own text and every other
/// operand the scratch register of its side.
pub proof fn law_operand_outcome(op: OperandModel, left: bool, unit: Unit)
    ensures
        lower_operand(op, left, unit).result is Ok <==> op.resolves(),
        lower_operand(op, left, unit).result matches Err(e) ==> e
            == LowerError::InvariantViolation,
        lower_operand(op, left, unit).result matches Ok(text) ==> text == (match op {
            OperandModel::IntLiteral { value } => value,
            OperandModel::FloatLiteral { value } => value,
            OperandModel::CharLiteral { value } => value,
            _ => sreg(left),
        }),
    decreases op,
{
    match op {
        OperandModel::FieldAccess { base, name } => {
            law_operand_outcome(*base, left, unit);
        },
        OperandModel::ArrayAccess { base, value } => {
            law_operand_outcome(*base, left, unit);
            let b = lower_operand(*base, left, unit);
            law_operand_outcome(*value, left, b.unit.emit(load_base(b.result->Ok_0)));
        },
        OperandModel::Deref { to_deref } => {
            law_operand_outcome(*to_deref, left, unit);
        },
        OperandModel::TakeRef { to_ref } => {
            law_operand_outcome(*to_ref, left, unit);
        },
        _ => {},
    }
}

/// The buffers `long` are the buffers `short` with `code` before their
/// instruction stream and `statics` before their static data.
pub open spec fn prefixed(long: Unit, short: Unit, code: Seq<char>, statics: Seq<char>) -> bool {
    &&& long.code == code + short.code
    &&& long.statics == statics + short.statics
    &&& long.labels == short.labels
}

/// Lowering an operand leaves what the buffers hold as it is and appends to
/// it; what it appends and what it yields depend on the operand, the side
/// and the number of labels taken, not on what the buffers hold.
pub proof fn law_operand_appends(
    op: OperandModel,
    left: bool,
    long: Unit,
    short: Unit,
    code: Seq<char>,
    statics: Seq<char>,
)
    requires
        prefixed(long, short, code, statics),
    ensures
        prefixed(
            lower_operand(op, left, long).unit,
            lower_operand(op, left, short).unit,
            code,
            statics,
        ),
        lower_operand(op, left, long).result == lower_operand(op, left, short).result,
    decreases op,
{
    let a = lower_operand(op, left, long);
    let b = lower_operand(op, left, short);
    match op {
        OperandModel::StringLiteral { value } => {
            assert(long.define(value).statics =~= statics + short.define(value).statics);
            lemma_emit_keeps_prefix(
                long.define(value),
                short.define(value),
                code,
                statics,
                load_symbol(sreg(left), label_name(long.labels)),
            );
        },
        OperandModel::Name { name, .. } => {
            lemma_emit_keeps_prefix(
                long,
                short,
                code,
                statics,
                load_symbol(sreg(left), name),
            );
        },
        OperandModel::StackOperand { stack_offset, .. } => {
            lemma_emit_keeps_prefix(
                long,
                short,
                code,
                statics,
                load_frame_address(sreg(left), stack_offset + 8),
            );
        },
        OperandModel::FieldAccess { base, name } => {
            match base.field_offset(name) {
                Some(offset) => match *base {
                    OperandModel::StackOperand { stack_offset, .. } => {
                        lemma_emit_keeps_prefix(
                            long,
                            short,
                            code,
                            statics,
                            load_frame_address(sreg(left), stack_offset + 8 + offset),
                        );
                    },
                    _ => {
                        law_operand_appends(*base, left, long, short, code, statics);
                        let x = lower_operand(*base, left, long);
                        let y = lower_operand(*base, left, short);
                        if x.result is Ok {
                            lemma_emit_keeps_prefix(
                                x.unit,
                                y.unit,
                                code,
                                statics,
                                add_offset(x.result->Ok_0, offset),
                            );
                        }
                    },
                },
                None => {},
            }
        },
        OperandModel::ArrayAccess { base, value } => {
            law_operand_appends(*base, left, long, short, code, statics);
            let x = lower_operand(*base, left, long);
            let y = lower_operand(*base, left, short);
            if x.result is Ok {
                let loaded = load_base(x.result->Ok_0);
                lemma_emit_keeps_prefix(x.unit, y.unit, code, statics, loaded);
                law_operand_appends(
                    *value,
                    left,
                    x.unit.emit(loaded),
                    y.unit.emit(loaded),
                    code,
                    statics,
                );
                let v = lower_operand(*value, left, x.unit.emit(loaded));
                let w = lower_operand(*value, left, y.unit.emit(loaded));
                if v.result is Ok {
                    let added = add_index(v.result->Ok_0);
                    lemma_emit_keeps_prefix(v.unit, w.unit, code, statics, added);
                    lemma_emit_keeps_prefix(
                        v.unit.emit(added),
                        w.unit.emit(added),
                        code,
                        statics,
                        move_sum(sreg(left)),
                    );
                }
            }
        },
        OperandModel::Deref { to_deref } => {
            law_operand_appends(*to_deref, left, long, short, code, statics);
            let x = lower_operand(*to_deref, left, long);
            let y = lower_operand(*to_deref, left, short);
            if x.result is Ok {
                lemma_emit_keeps_prefix(
                    x.unit,
                    y.unit,
                    code,
                    statics,
                    load_through(sreg(left), x.result->Ok_0),
                );
            }
        },
        OperandModel::TakeRef { to_ref } => {
            law_operand_appends(*to_ref, left, long, short, code, statics);
            let x = lower_operand(*to_ref, left, long);
            let y = lower_operand(*to_ref, left, short);
            if x.result is Ok {
                lemma_emit_keeps_prefix(
                    x.unit,
                    y.unit,
                    code,
                    statics,
                    load_address(sreg(left), x.result->Ok_0),
                );
            }
        },
        _ => {},
    }
}

/// Emitting the same text into both keeps one set of buffers the other with
/// a prefix.
proof fn lemma_emit_keeps_prefix(
    long: Unit,
    short: Unit,
    code: Seq<char>,
    statics: Seq<char>,
    emitted: Seq<char>,
)
    requires
        prefixed(long, short, code, statics),
    ensures
        prefixed(long.emit(emitted), short.emit(emitted), code, statics),
{
    assert(long.emit(emitted).code =~= code + short.emit(emitted).code);
}

/// An argument is placed exactly where its type can be passed, whatever
/// registers are taken and whatever text names it.
pub proof fn lemma_marshal_outcome(taken: Seq<bool>, op: Seq<char>, t: TypeModel)
    ensures
        marshal(taken, op, t) is Ok <==> t.can_be_passed(),
        marshal(taken, op, t) matches Err(e) ==> e == LowerError::Unimplemented,
{
}

/// The arguments of a call are all lowered and placed exactly where each of
/// them can be passed.
pub proof fn law_args_outcome(args: Seq<OperandModel>, n: nat, unit: Unit)
    requires
        n <= args.len(),
    ensures
        place_args(args, n, unit).failure is None <==> (forall|i: int|
            0 <= i < n ==> (#[trigger] args[i]).can_be_passed()),
    decreases n,
{
    if n > 0 {
        law_args_outcome(args, (n - 1) as nat, unit);
        let prev = place_args(args, (n - 1) as nat, unit);
        let arg = args[n - 1];
        law_operand_outcome(arg, true, prev.unit);
        let l = lower_operand(arg, true, prev.unit);
        if l.result is Ok && arg.type_of() is Some {
            lemma_marshal_outcome(prev.taken, l.result->Ok_0, arg.type_of()->Some_0);
        }
        if place_args(args, n, unit).failure is None {
            assert forall|i: int| 0 <= i < n implies (#[trigger] args[i]).can_be_passed() by {
                if i < n - 1 {
                } else {
                    assert(arg.can_be_passed());
                }
            }
        } else {
            if prev.failure is None {
                assert(!arg.can_be_passed());
            }
        }
    }
}

/// Lowering an instruction ends well exactly where the instruction has a
/// lowering.
pub proof fn law_instr_outcome(instr: InstrModel, platform: Target, unit: Unit)
    ensures
        lower_instr(instr, platform, unit).result is Ok <==> instr.lowers(),
{
    match instr {
        InstrModel::Arithmetic { operation, target, left, right, vtype } => {
            lemma_binary_outcome(
                operation.mnemonic(),
                operation.second(),
                target,
                left,
                right,
                vtype,
                unit,
            );
        },
        InstrModel::Mov { left, right, vtype } => {
            law_operand_outcome(left, true, unit);
            law_operand_outcome(right, false, lower_operand(left, true, unit).unit);
        },
        InstrModel::Call { func_name, args, captured } => {
            law_args_outcome(args, args.len(), unit);
            if let Some((target, _)) = captured {
                let a = place_args(args, args.len(), unit);
                law_operand_outcome(target, true, a.unit.emit(call_line(platform, func_name)));
            }
        },
        InstrModel::CondGoto { cond, .. } => {
            law_operand_outcome(cond, true, unit);
        },
        InstrModel::Ret { to_return } => {
            law_operand_outcome(to_return, true, unit.emit(restore_saved()));
        },
        _ => {},
    }
}

/// An arithmetic or bitwise instruction is lowered exactly where its three
/// operands can be lowered.
proof fn lemma_binary_outcome(
    mnemonic: Seq<char>,
    second: Seq<char>,
    target: OperandModel,
    left: OperandModel,
    right: OperandModel,
    vtype: TypeModel,
    unit: Unit,
)
    ensures
        lower_binary(mnemonic, second, target, left, right, vtype, unit).result is Ok <==> (
        left.resolves() && right.resolves() && target.resolves()),
{
    law_operand_outcome(left, true, unit);
    let l = lower_operand(left, true, unit);
    law_operand_outcome(right, false, l.unit);
    law_operand_outcome(target, true, lower_binary_computed(mnemonic, second, left, right, unit));
}

/// The string literals of the first `n` of `instrs`, in the order in which
/// lowering meets them.
pub open spec fn literals_of_instrs(instrs: Seq<InstrModel>, n: nat) -> Seq<Seq<char>>
    decreases n,
{
    if n == 0 || n > instrs.len() {
        Seq::empty()
    } else {
        literals_of_instrs(instrs, (n - 1) as nat) + instrs[n - 1].string_literals()
    }
}

/// The static data and the labels of a unit once the first `n` of `instrs`
/// are lowered one after the other, each into an instruction stream of its
/// own, and whether an instruction without a lowering has stopped the unit.
pub open spec fn lower_each(instrs: Seq<InstrModel>, n: nat, platform: Target, start: Unit) -> (
    Unit,
    bool,
)
    decreases n,
{
    if n == 0 || n > instrs.len() {
        (start, false)
    } else {
        let (prev, stopped) = lower_each(instrs, (n - 1) as nat, platform, start);
        if stopped {
            (prev, true)
        } else {
            let l = lower_instr(
                instrs[n - 1],
                platform,
                Unit { code: Seq::empty(), statics: prev.statics, labels: prev.labels },
            );
            (l.unit, l.result is Err)
        }
    }
}

/// Over the instructions of a unit the labels count up without a gap: every
/// string literal that lowering meets is defined under the next free label,
/// in the order in which lowering meets it, so the literal that is met as
/// the `k`-th of a unit that starts without labels is defined under the
/// label `k`, counted from zero.
pub proof fn law_unit_labels_in_order(
    instrs: Seq<InstrModel>,
    n: nat,
    platform: Target,
    start: Unit,
)
    requires
        n <= instrs.len(),
    ensures
        labelled(start, lower_each(instrs, n, platform, start).0, literals_of_instrs(instrs, n)),
        !lower_each(instrs, n, platform, start).1 ==> all_labelled(
            start,
            lower_each(instrs, n, platform, start).0,
            literals_of_instrs(instrs, n),
        ),
    decreases n,
{
    if n == 0 {
        lemma_labelled_nothing(start, literals_of_instrs(instrs, n));
    } else {
        law_unit_labels_in_order(instrs, (n - 1) as nat, platform, start);
        let (prev, stopped) = lower_each(instrs, (n - 1) as nat, platform, start);
        let before = literals_of_instrs(instrs, (n - 1) as nat);
        let here = instrs[n - 1].string_literals();
        if stopped {
            lemma_labelled_widen(start, prev, before, here);
        } else {
            let fresh = Unit { code: Seq::empty(), statics: prev.statics, labels: prev.labels };
            law_instr_labels_in_order(instrs[n - 1], platform, fresh);
            let l = lower_instr(instrs[n - 1], platform, fresh);
            lemma_labelled_compose(start, fresh, l.unit, before, here);
        }
    }
}

} // verus!
