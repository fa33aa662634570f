//! The intermediate representation that the back end consumes: operands,
//! instructions and the compilation target.

use vstd::prelude::*;
use crate::types::{Type, TypeModel};

verus! {

/// The platform that the assembly is written for.
#[derive(Debug, Clone, Copy, PartialEq, Eq, Structural)]
pub enum Target {
    /// Symbols of called functions carry a leading underscore.
    MacOs { arm: bool },
    /// Symbols of called functions are written as they are.
    Linux { arm: bool },
}

/// An operand of an instruction.
#[allow(inconsistent_fields)]
#[derive(Debug)]
pub enum IrOperand {
    /// An integer literal, held as its text.
    IntLiteral { value: String },
    /// A float literal, held as its text.
    FloatLiteral { value: String },
    /// A character literal, held as its text.
    CharLiteral { value: String },
    /// A string literal, held as the text of its bytes.
    StringLiteral { value: String },
    /// A global or external symbol.
    Name { name: String, vtype: Type },
    /// A local variable that lives `stack_offset` bytes into the frame.
    StackOperand { var_idx: usize, name: String, stack_offset: usize, vtype: Type },
    /// The element of `base` at the index `value`.
    ArrayAccess { base: Box<IrOperand>, value: Box<IrOperand> },
    /// The component of `base` called `name`.
    FieldAccess { base: Box<IrOperand>, name: String },
    /// What the pointer `to_deref` points to.
    Deref { to_deref: Box<IrOperand> },
    /// The address of `to_ref`.
    TakeRef { to_ref: Box<IrOperand> },
}

/// The mathematical value of an [`IrOperand`].
#[allow(inconsistent_fields)]
pub enum OperandModel {
    IntLiteral { value: Seq<char> },
    FloatLiteral { value: Seq<char> },
    CharLiteral { value: Seq<char> },
    StringLiteral { value: Seq<char> },
    Name { name: Seq<char>, vtype: TypeModel },
    StackOperand { var_idx: nat, name: Seq<char>, stack_offset: nat, vtype: TypeModel },
    ArrayAccess { base: Box<OperandModel>, value: Box<OperandModel> },
    FieldAccess { base: Box<OperandModel>, name: Seq<char> },
    Deref { to_deref: Box<OperandModel> },
    TakeRef { to_ref: Box<OperandModel> },
}

/// An instruction.
#[allow(inconsistent_fields)]
#[derive(Debug)]
pub enum IrInstr {
    Add { target: IrOperand, left: IrOperand, right: IrOperand, vtype: Type },
    Sub { target: IrOperand, left: IrOperand, right: IrOperand, vtype: Type },
    Mul { target: IrOperand, left: IrOperand, right: IrOperand, vtype: Type },
    Div { target: IrOperand, left: IrOperand, right: IrOperand, vtype: Type },
    And { target: IrOperand, left: IrOperand, right: IrOperand, vtype: Type },
    Or { target: IrOperand, left: IrOperand, right: IrOperand, vtype: Type },
    GreaterThan { target: IrOperand, left: IrOperand, right: IrOperand, vtype: Type },
    GreaterThanOrEq { target: IrOperand, left: IrOperand, right: IrOperand, vtype: Type },
    LessThan { target: IrOperand, left: IrOperand, right: IrOperand, vtype: Type },
    LessThanOrEq { target: IrOperand, left: IrOperand, right: IrOperand, vtype: Type },
    Equals { target: IrOperand, left: IrOperand, right: IrOperand, vtype: Type },
    NotEquals { target: IrOperand, left: IrOperand, right: IrOperand, vtype: Type },
    Not { target: IrOperand, value: IrOperand, vtype: Type },
    /// Copies a value of type `vtype` from `right` to `left`.
    Mov { left: IrOperand, right: IrOperand, vtype: Type },
    BeginScope,
    EndScope,
    Call { func_name: String, args: Vec<IrOperand> },
    CallWithRet { target: IrOperand, func_name: String, args: Vec<IrOperand>, vtype: Type },
    Goto { target: String },
    CondGoto { cond: IrOperand, target: String },
    Label { name: String },
    VariableDeclaration { name: String, vtype: Type },
    Push { vtype: Type, val_idx: usize },
    Pop { vtype: Type },
    Ret { to_return: IrOperand },
}

/// The operations on two operands that are lowered.
pub enum Operation {
    Add,
    Sub,
    Mul,
    Div,
    And,
    Or,
}

/// The comparisons of two operands.
pub enum Relation {
    GreaterThan,
    GreaterThanOrEq,
    LessThan,
    LessThanOrEq,
    Equals,
    NotEquals,
}

/// The mathematical value of an [`IrInstr`].
#[allow(inconsistent_fields)]
pub enum InstrModel {
    /// `target` becomes `left`, `operation`, `right`.
    Arithmetic {
        operation: Operation,
        target: OperandModel,
        left: OperandModel,
        right: OperandModel,
        vtype: TypeModel,
    },
    /// `target` becomes whether `left` stands in `relation` to `right`.
    Comparison {
        relation: Relation,
        target: OperandModel,
        left: OperandModel,
        right: OperandModel,
        vtype: TypeModel,
    },
    Not { target: OperandModel, value: OperandModel, vtype: TypeModel },
    Mov { left: OperandModel, right: OperandModel, vtype: TypeModel },
    BeginScope,
    EndScope,
    /// A call; `captured` holds the target and the type of a result that is
    /// kept.
    Call {
        func_name: Seq<char>,
        args: Seq<OperandModel>,
        captured: Option<(OperandModel, TypeModel)>,
    },
    Goto { target: Seq<char> },
    CondGoto { cond: OperandModel, target: Seq<char> },
    Label { name: Seq<char> },
    VariableDeclaration { name: Seq<char>, vtype: TypeModel },
    Push { vtype: TypeModel, val_idx: nat },
    Pop { vtype: TypeModel },
    Ret { to_return: OperandModel },
}

impl IrOperand {
    /// The mathematical value of the operand.
    pub open spec fn model(self) -> OperandModel
        decreases self,
    {
        match self {
            IrOperand::IntLiteral { value } => OperandModel::IntLiteral { value: value@ },
            IrOperand::FloatLiteral { value } => OperandModel::FloatLiteral { value: value@ },
            IrOperand::CharLiteral { value } => OperandModel::CharLiteral { value: value@ },
            IrOperand::StringLiteral { value } => OperandModel::StringLiteral { value: value@ },
            IrOperand::Name { name, vtype } => OperandModel::Name { name: name@, vtype: vtype@ },
            IrOperand::StackOperand { var_idx, name, stack_offset, vtype } => {
                OperandModel::StackOperand {
                    var_idx: var_idx as nat,
                    name: name@,
                    stack_offset: stack_offset as nat,
                    vtype: vtype@,
                }
            },
            IrOperand::ArrayAccess { base, value } => OperandModel::ArrayAccess {
                base: Box::new(base.model()),
                value: Box::new(value.model()),
            },
            IrOperand::FieldAccess { base, name } => OperandModel::FieldAccess {
                base: Box::new(base.model()),
                name: name@,
            },
            IrOperand::Deref { to_deref } => OperandModel::Deref {
                to_deref: Box::new(to_deref.model()),
            },
            IrOperand::TakeRef { to_ref } => OperandModel::TakeRef {
                to_ref: Box::new(to_ref.model()),
            },
        }
    }
}

impl View for IrOperand {
    type V = OperandModel;

    open spec fn view(&self) -> OperandModel {
        self.model()
    }
}

/// The mathematical values of operands.
pub open spec fn models(ops: Seq<IrOperand>) -> Seq<OperandModel> {
    Seq::new(ops.len(), |i: int| ops[i]@)
}

impl View for IrInstr {
    type V = InstrModel;

    open spec fn view(&self) -> InstrModel {
        match *self {
            IrInstr::Add { target, left, right, vtype } => InstrModel::Arithmetic {
                operation: Operation::Add,
                target: target@,
                left: left@,
                right: right@,
                vtype: vtype@,
            },
            IrInstr::Sub { target, left, right, vtype } => InstrModel::Arithmetic {
                operation: Operation::Sub,
                target: target@,
                left: left@,
                right: right@,
                vtype: vtype@,
            },
            IrInstr::Mul { target, left, right, vtype } => InstrModel::Arithmetic {
                operation: Operation::Mul,
                target: target@,
                left: left@,
                right: right@,
                vtype: vtype@,
            },
            IrInstr::Div { target, left, right, vtype } => InstrModel::Arithmetic {
                operation: Operation::Div,
                target: target@,
                left: left@,
                right: right@,
                vtype: vtype@,
            },
            IrInstr::And { target, left, right, vtype } => InstrModel::Arithmetic {
                operation: Operation::And,
                target: target@,
                left: left@,
                right: right@,
                vtype: vtype@,
            },
            IrInstr::Or { target, left, right, vtype } => InstrModel::Arithmetic {
                operation: Operation::Or,
                target: target@,
                left: left@,
                right: right@,
                vtype: vtype@,
            },
            IrInstr::GreaterThan { target, left, right, vtype } => InstrModel::Comparison {
                relation: Relation::GreaterThan,
                target: target@,
                left: left@,
                right: right@,
                vtype: vtype@,
            },
            IrInstr::GreaterThanOrEq { target, left, right, vtype } => InstrModel::Comparison {
                relation: Relation::GreaterThanOrEq,
                target: target@,
                left: left@,
                right: right@,
                vtype: vtype@,
            },
            IrInstr::LessThan { target, left, right, vtype } => InstrModel::Comparison {
                relation: Relation::LessThan,
                target: target@,
                left: left@,
                right: right@,
                vtype: vtype@,
            },
            IrInstr::LessThanOrEq { target, left, right, vtype } => InstrModel::Comparison {
                relation: Relation::LessThanOrEq,
                target: target@,
                left: left@,
                right: right@,
                vtype: vtype@,
            },
            IrInstr::Equals { target, left, right, vtype } => InstrModel::Comparison {
                relation: Relation::Equals,
                target: target@,
                left: left@,
                right: right@,
                vtype: vtype@,
            },
            IrInstr::NotEquals { target, left, right, vtype } => InstrModel::Comparison {
                relation: Relation::NotEquals,
                target: target@,
                left: left@,
                right: right@,
                vtype: vtype@,
            },
            IrInstr::Not { target, value, vtype } => InstrModel::Not {
                target: target@,
                value: value@,
                vtype: vtype@,
            },
            IrInstr::Mov { left, right, vtype } => InstrModel::Mov {
                left: left@,
                right: right@,
                vtype: vtype@,
            },
            IrInstr::BeginScope => InstrModel::BeginScope,
            IrInstr::EndScope => InstrModel::EndScope,
            IrInstr::Call { func_name, args } => InstrModel::Call {
                func_name: func_name@,
                args: models(args@),
                captured: None,
            },
            IrInstr::CallWithRet { target, func_name, args, vtype } => InstrModel::Call {
                func_name: func_name@,
                args: models(args@),
                captured: Some((target@, vtype@)),
            },
            IrInstr::Goto { target } => InstrModel::Goto { target: target@ },
            IrInstr::CondGoto { cond, target } => InstrModel::CondGoto {
                cond: cond@,
                target: target@,
            },
            IrInstr::Label { name } => InstrModel::Label { name: name@ },
            IrInstr::VariableDeclaration { name, vtype } => InstrModel::VariableDeclaration {
                name: name@,
                vtype: vtype@,
            },
            IrInstr::Push { vtype, val_idx } => InstrModel::Push {
                vtype: vtype@,
                val_idx: val_idx as nat,
            },
            IrInstr::Pop { vtype } => InstrModel::Pop { vtype: vtype@ },
            IrInstr::Ret { to_return } => InstrModel::Ret { to_return: to_return@ },
        }
    }
}

impl OperandModel {
    /// Whether the operand is an integer, float or character literal, which
    /// lowers to its own text and needs no register.
    pub open spec fn is_immediate(self) -> bool {
        self is IntLiteral || self is FloatLiteral || self is CharLiteral
    }

    /// The static type of the operand, where it has one.
    pub open spec fn type_of(self) -> Option<TypeModel>
        decreases self,
    {
        match self {
            OperandModel::IntLiteral { .. } => Some(TypeModel::Integer),
            OperandModel::FloatLiteral { .. } => Some(TypeModel::Float),
            OperandModel::CharLiteral { .. } => Some(TypeModel::Char),
            OperandModel::StringLiteral { .. } => Some(TypeModel::Str),
            OperandModel::Name { vtype, .. } => Some(vtype),
            OperandModel::StackOperand { vtype, .. } => Some(vtype),
            OperandModel::ArrayAccess { base, .. } => match base.type_of() {
                Some(t) => t.element(),
                None => None,
            },
            OperandModel::FieldAccess { base, name } => match base.type_of() {
                Some(t) => t.field_type(name),
                None => None,
            },
            OperandModel::Deref { to_deref } => match to_deref.type_of() {
                Some(t) => t.pointee(),
                None => None,
            },
            OperandModel::TakeRef { to_ref } => match to_ref.type_of() {
                Some(t) => Some(TypeModel::Pointer { to: Box::new(t) }),
                None => None,
            },
        }
    }

    /// The byte offset of the component `name` in the type of the operand,
    /// where the operand has a type and the type has the component.
    pub open spec fn field_offset(self, name: Seq<char>) -> Option<nat> {
        match self.type_of() {
            Some(t) => t.field_offset(name),
            None => None,
        }
    }

    /// Every component that lowering the operand looks up exists: the base
    /// of each access to a component has a type with a component of that
    /// name.
    pub open spec fn resolves(self) -> bool
        decreases self,
    {
        match self {
            OperandModel::FieldAccess { base, name } => base.field_offset(name) is Some && (*base
                is StackOperand || base.resolves()),
            OperandModel::ArrayAccess { base, value } => base.resolves() && value.resolves(),
            OperandModel::Deref { to_deref } => to_deref.resolves(),
            OperandModel::TakeRef { to_ref } => to_ref.resolves(),
            _ => true,
        }
    }

    /// Whether the operand can be an argument of a call: it can be lowered
    /// and has a type that can be passed.
    pub open spec fn can_be_passed(self) -> bool {
        self.resolves() && self.type_of() is Some && self.type_of()->Some_0.can_be_passed()
    }

    /// The string literals in the operand, in the order in which lowering
    /// meets them.
    pub open spec fn string_literals(self) -> Seq<Seq<char>>
        decreases self,
    {
        match self {
            OperandModel::StringLiteral { value } => seq![value],
            OperandModel::ArrayAccess { base, value } => base.string_literals()
                + value.string_literals(),
            OperandModel::FieldAccess { base, .. } => base.string_literals(),
            OperandModel::Deref { to_deref } => to_deref.string_literals(),
            OperandModel::TakeRef { to_ref } => to_ref.string_literals(),
            _ => Seq::empty(),
        }
    }

    /// Every frame offset and every component offset that lowering the
    /// operand computes fits a machine word.
    pub open spec fn fits(self) -> bool
        decreases self,
    {
        match self {
            OperandModel::StackOperand { stack_offset, .. } => stack_offset + 8 <= usize::MAX,
            OperandModel::ArrayAccess { base, value } => base.fits() && value.fits(),
            OperandModel::FieldAccess { base, name } => match base.type_of() {
                Some(t) => t.offset_fits(name) && match t.field_offset(name) {
                    Some(offset) => match *base {
                        OperandModel::StackOperand { stack_offset, .. } => stack_offset + 8
                            + offset <= usize::MAX,
                        _ => base.fits(),
                    },
                    None => true,
                },
                None => true,
            },
            OperandModel::Deref { to_deref } => to_deref.fits(),
            OperandModel::TakeRef { to_ref } => to_ref.fits(),
            _ => true,
        }
    }
}

/// The string literals in the first `n` of `ops`, in the order in which
/// lowering meets them.
pub open spec fn literals_of(ops: Seq<OperandModel>, n: nat) -> Seq<Seq<char>>
    decreases n,
{
    if n == 0 || n > ops.len() {
        Seq::empty()
    } else {
        literals_of(ops, (n - 1) as nat) + ops[n - 1].string_literals()
    }
}

/// More operands hold at least as many string literals.
pub proof fn lemma_literals_of_grows(ops: Seq<OperandModel>, i: nat, j: nat)
    requires
        i <= j <= ops.len(),
    ensures
        literals_of(ops, i).len() <= literals_of(ops, j).len(),
    decreases j,
{
    if i < j {
        lemma_literals_of_grows(ops, i, (j - 1) as nat);
    }
}

impl Operation {
    /// The mnemonic of the native instruction.
    pub open spec fn mnemonic(self) -> Seq<char> {
        match self {
            Operation::Add => "add"@,
            Operation::Sub => "sub"@,
            Operation::Mul => "imul"@,
            Operation::Div => "idiv"@,
            Operation::And => "and"@,
            Operation::Or => "or"@,
        }
    }

    /// The register that holds the right operand.
    pub open spec fn second(self) -> Seq<char> {
        match self {
            Operation::Div => "rdx"@,
            _ => "rbx"@,
        }
    }
}

impl InstrModel {
    /// The string literals in the operands that lowering the instruction
    /// lowers, in the order in which it meets them.
    pub open spec fn string_literals(self) -> Seq<Seq<char>> {
        match self {
            InstrModel::Arithmetic { target, left, right, .. } => left.string_literals()
                + right.string_literals() + target.string_literals(),
            InstrModel::Mov { left, right, .. } => left.string_literals() + right.string_literals(),
            InstrModel::Call { args, captured, .. } => match captured {
                Some((target, _)) => literals_of(args, args.len()) + target.string_literals(),
                None => literals_of(args, args.len()),
            },
            InstrModel::CondGoto { cond, .. } => cond.string_literals(),
            InstrModel::Ret { to_return } => to_return.string_literals(),
            _ => Seq::empty(),
        }
    }

    /// Whether the instruction has a lowering: its operands can be lowered,
    /// the arguments of a call can be passed, a captured result is at most
    /// sixteen bytes wide, and a returned value has a type and is not nine to
    /// sixteen bytes wide. Comparisons and negation have none.
    pub open spec fn lowers(self) -> bool {
        match self {
            InstrModel::Arithmetic { target, left, right, .. } => left.resolves()
                && right.resolves() && target.resolves(),
            InstrModel::Comparison { .. } | InstrModel::Not { .. } => false,
            InstrModel::Mov { left, right, .. } => left.resolves() && right.resolves(),
            InstrModel::Call { args, captured, .. } => {
                &&& forall|i: int| 0 <= i < args.len() ==> (#[trigger] args[i]).can_be_passed()
                &&& captured matches Some((target, vtype)) ==> target.resolves() && vtype.size()
                    <= 16
            },
            InstrModel::CondGoto { cond, .. } => cond.resolves(),
            InstrModel::Ret { to_return } => {
                &&& to_return.resolves()
                &&& to_return.type_of() matches Some(t) && !(9 <= t.size() <= 16)
            },
            _ => true,
        }
    }

    /// Every size, frame offset and count that lowering the instruction
    /// computes fits a machine word. An argument of a call spills at most two
    /// words, so the count of spilled words fits where twice the number of
    /// arguments does.
    pub open spec fn fits(self) -> bool {
        match self {
            InstrModel::Arithmetic { target, left, right, .. } => target.fits() && left.fits()
                && right.fits(),
            InstrModel::Mov { left, right, vtype } => left.fits() && right.fits() && vtype.fits(),
            InstrModel::Call { args, captured, .. } => {
                &&& forall|i: int| 0 <= i < args.len() ==> (#[trigger] args[i]).fits()
                &&& 2 * args.len() <= usize::MAX
                &&& captured matches Some((target, vtype)) ==> target.fits() && vtype.fits()
            },
            InstrModel::CondGoto { cond, .. } => cond.fits(),
            InstrModel::VariableDeclaration { vtype, .. } => vtype.fits(),
            InstrModel::Push { vtype, .. } => vtype.fits(),
            InstrModel::Pop { vtype } => vtype.fits(),
            InstrModel::Ret { to_return } => to_return.fits() && match to_return.type_of() {
                Some(t) => t.fits(),
                None => true,
            },
            _ => true,
        }
    }
}

impl IrOperand {
    /// Whether the operand is an integer, float or character literal.
    pub fn is_literal(&self) -> (r: bool)
        ensures
            r == self@.is_immediate(),
    {
        match self {
            IrOperand::IntLiteral { .. }
            | IrOperand::FloatLiteral { .. }
            | IrOperand::CharLiteral { .. } => true,
            _ => false,
        }
    }

    /// The static type of the operand, or `None` where it has none: an
    /// index into what is neither array nor slice, a component that the base
    /// does not have, a dereference of what is no pointer.
    pub fn get_type(&self) -> (r: Option<Type>)
        ensures
            r is Some <==> self@.type_of() is Some,
            r matches Some(t) ==> self@.type_of() == Some(t@),
        decreases self,
    {
        match self {
            IrOperand::IntLiteral { .. } => Some(Type::IntegerT),
            IrOperand::FloatLiteral { .. } => Some(Type::FloatT),
            IrOperand::CharLiteral { .. } => Some(Type::CharT),
            IrOperand::StringLiteral { .. } => Some(Type::StringT),
            IrOperand::Name { name: _, vtype } => Some(vtype.deep_clone()),
            IrOperand::StackOperand { var_idx: _, name: _, stack_offset: _, vtype } => Some(
                vtype.deep_clone(),
            ),
            IrOperand::ArrayAccess { base, value: _ } => match base.get_type() {
                Some(Type::ArrayT { size: _, array_type }) => Some(*array_type),
                Some(Type::SliceT { ptr_type }) => Some(*ptr_type),
                _ => None,
            },
            IrOperand::FieldAccess { base, name } => match base.get_type() {
                Some(t) => t.get_variable_type(name),
                None => None,
            },
            IrOperand::Deref { to_deref } => match to_deref.get_type() {
                Some(Type::PointerT { ptr_type }) => Some(*ptr_type),
                _ => None,
            },
            IrOperand::TakeRef { to_ref } => match to_ref.get_type() {
                Some(t) => Some(Type::PointerT { ptr_type: Box::new(t) }),
                None => None,
            },
        }
    }
}

/// The sum of two counts, where both are known and the sum fits a machine
/// word.
fn add_counts(a: Option<usize>, b: Option<usize>) -> (r: Option<usize>)
    ensures
        r matches Some(n) ==> a is Some && b is Some && n == a->Some_0 + b->Some_0,
        r is None ==> a is None || b is None || a->Some_0 + b->Some_0 > usize::MAX,
{
    match (a, b) {
        (Some(x), Some(y)) => x.checked_add(y),
        _ => None,
    }
}

/// The count `r` is the length of `lits`, where that fits a machine word.
pub open spec fn counts(r: Option<usize>, lits: Seq<Seq<char>>) -> bool {
    match r {
        Some(n) => n == lits.len(),
        None => lits.len() > usize::MAX,
    }
}

impl IrOperand {
    /// Whether every frame offset and every component offset that lowering
    /// the operand computes fits a machine word.
    pub fn check_fits(&self) -> (r: bool)
        ensures
            r == self@.fits(),
        decreases self,
    {
        match self {
            IrOperand::StackOperand { var_idx: _, name: _, stack_offset, vtype: _ } => {
                stack_offset.checked_add(8).is_some()
            },
            IrOperand::ArrayAccess { base, value } => base.check_fits() && value.check_fits(),
            IrOperand::FieldAccess { base, name } => {
                let base_type = match base.get_type() {
                    Some(t) => t,
                    None => {
                        return true;
                    },
                };
                if !base_type.check_offset_fits(name) {
                    return false;
                }
                let offset = match base_type.get_variable_offset(name) {
                    Some(n) => n,
                    None => {
                        return true;
                    },
                };
                match &**base {
                    IrOperand::StackOperand { var_idx: _, name: _, stack_offset, vtype: _ } => {
                        match stack_offset.checked_add(8) {
                            Some(below) => below.checked_add(offset).is_some(),
                            None => false,
                        }
                    },
                    _ => base.check_fits(),
                }
            },
            IrOperand::Deref { to_deref } => to_deref.check_fits(),
            IrOperand::TakeRef { to_ref } => to_ref.check_fits(),
            _ => true,
        }
    }

    /// The number of string literals in the operand, or `None` where it
    /// exceeds the machine word.
    pub fn count_string_literals(&self) -> (r: Option<usize>)
        ensures
            counts(r, self@.string_literals()),
        decreases self,
    {
        match self {
            IrOperand::StringLiteral { .. } => Some(1),
            IrOperand::ArrayAccess { base, value } => add_counts(
                base.count_string_literals(),
                value.count_string_literals(),
            ),
            IrOperand::FieldAccess { base, name: _ } => base.count_string_literals(),
            IrOperand::Deref { to_deref } => to_deref.count_string_literals(),
            IrOperand::TakeRef { to_ref } => to_ref.count_string_literals(),
            _ => Some(0),
        }
    }

    /// Whether the operand can be lowered when `labels` labels are taken:
    /// whether it fits and its string literals can still be numbered.
    pub fn can_lower(&self, labels: usize) -> (r: bool)
        ensures
            r == (self@.fits() && labels + self@.string_literals().len() <= usize::MAX),
    {
        self.check_fits() && add_counts(Some(labels), self.count_string_literals()).is_some()
    }
}

/// Whether every one of `ops` fits.
fn check_all_fit(ops: &Vec<IrOperand>) -> (r: bool)
    ensures
        r == (forall|i: int| 0 <= i < ops@.len() ==> (#[trigger] models(ops@)[i]).fits()),
{
    let mut i: usize = 0;
    while i < ops.len()
        invariant
            i <= ops.len(),
            forall|j: int| 0 <= j < i ==> (#[trigger] models(ops@)[j]).fits(),
        decreases ops.len() - i,
    {
        assert(models(ops@)[i as int] == ops@[i as int]@);
        if !ops[i].check_fits() {
            return false;
        }
        i += 1;
    }
    true
}

/// The number of string literals in `ops`, or `None` where it exceeds the
/// machine word.
fn count_all_literals(ops: &Vec<IrOperand>) -> (r: Option<usize>)
    ensures
        counts(r, literals_of(models(ops@), ops@.len())),
{
    let mut total: usize = 0;
    let mut i: usize = 0;
    while i < ops.len()
        invariant
            i <= ops.len(),
            total == literals_of(models(ops@), i as nat).len(),
        decreases ops.len() - i,
    {
        proof {
            lemma_literals_of_grows(models(ops@), (i + 1) as nat, ops@.len());
        }
        total = match add_counts(Some(total), ops[i].count_string_literals()) {
            Some(n) => n,
            None => {
                return None;
            },
        };
        i += 1;
    }
    Some(total)
}

impl IrInstr {
    /// Whether every size, frame offset and count that lowering the
    /// instruction computes fits a machine word.
    pub fn check_fits(&self) -> (r: bool)
        ensures
            r == self@.fits(),
    {
        match self {
            IrInstr::Add { target, left, right, vtype: _ }
            | IrInstr::Sub { target, left, right, vtype: _ }
            | IrInstr::Mul { target, left, right, vtype: _ }
            | IrInstr::Div { target, left, right, vtype: _ }
            | IrInstr::And { target, left, right, vtype: _ }
            | IrInstr::Or { target, left, right, vtype: _ } => target.check_fits()
                && left.check_fits() && right.check_fits(),
            IrInstr::Mov { left, right, vtype } => left.check_fits() && right.check_fits()
                && vtype.checked_size().is_some(),
            IrInstr::Call { func_name: _, args } => check_all_fit(args) && args.len()
                <= usize::MAX / 2,
            IrInstr::CallWithRet { target, func_name: _, args, vtype } => check_all_fit(args)
                && args.len() <= usize::MAX / 2 && target.check_fits()
                && vtype.checked_size().is_some(),
            IrInstr::CondGoto { cond, target: _ } => cond.check_fits(),
            IrInstr::VariableDeclaration { name: _, vtype } => vtype.checked_size().is_some(),
            IrInstr::Push { vtype, val_idx: _ } => vtype.checked_size().is_some(),
            IrInstr::Pop { vtype } => vtype.checked_size().is_some(),
            IrInstr::Ret { to_return } => to_return.check_fits() && match to_return.get_type() {
                Some(t) => t.checked_size().is_some(),
                None => true,
            },
            _ => true,
        }
    }

    /// The number of string literals in the operands that lowering the
    /// instruction lowers, or `None` where it exceeds the machine word.
    pub fn count_string_literals(&self) -> (r: Option<usize>)
        ensures
            counts(r, self@.string_literals()),
    {
        match self {
            IrInstr::Add { target, left, right, vtype: _ }
            | IrInstr::Sub { target, left, right, vtype: _ }
            | IrInstr::Mul { target, left, right, vtype: _ }
            | IrInstr::Div { target, left, right, vtype: _ }
            | IrInstr::And { target, left, right, vtype: _ }
            | IrInstr::Or { target, left, right, vtype: _ } => add_counts(
                add_counts(left.count_string_literals(), right.count_string_literals()),
                target.count_string_literals(),
            ),
            IrInstr::Mov { left, right, vtype: _ } => add_counts(
                left.count_string_literals(),
                right.count_string_literals(),
            ),
            IrInstr::Call { func_name: _, args } => count_all_literals(args),
            IrInstr::CallWithRet { target, func_name: _, args, vtype: _ } => add_counts(
                count_all_literals(args),
                target.count_string_literals(),
            ),
            IrInstr::CondGoto { cond, target: _ } => cond.count_string_literals(),
            IrInstr::Ret { to_return } => to_return.count_string_literals(),
            _ => Some(0),
        }
    }

    /// Whether the instruction can be lowered when `labels` labels are
    /// taken: whether it fits and its string literals can still be numbered.
    pub fn can_lower(&self, labels: usize) -> (r: bool)
        ensures
            r == (self@.fits() && labels + self@.string_literals().len() <= usize::MAX),
    {
        self.check_fits() && add_counts(Some(labels), self.count_string_literals()).is_some()
    }
}

} // verus!
