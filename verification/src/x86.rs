//! The registers of the target and the marshaling of call arguments into
//! argument registers and stack slots.

use vstd::prelude::*;
use crate::error::LowerError;
use crate::types::{Type, TypeModel};

verus! {

/// The general-purpose registers of the target.
#[allow(unused)]
#[derive(Debug, Clone, Copy, PartialEq, Eq, Structural)]
pub enum Registers {
    Rip,
    Rsp,
    Rax,
    Rdi,
    Rsi,
    Rdx,
    Rcx,
    R8,
    R9,
    R10,
    R11,
    Rbx,
    Rbp,
    R12,
    R13,
    R14,
    R15,
}

/// The number of integer argument registers.
pub const INT_SLOTS: usize = 6;

/// The number of floating-point argument registers.
pub const FLOAT_SLOTS: usize = 8;

/// The name of the `i`-th integer argument register.
pub open spec fn int_arg_name(i: int) -> Seq<char> {
    if i == 0 {
        "rdi"@
    } else if i == 1 {
        "rsi"@
    } else if i == 2 {
        "rdx"@
    } else if i == 3 {
        "rcx"@
    } else if i == 4 {
        "r8"@
    } else {
        "r9"@
    }
}

/// The name of the `i`-th floating-point argument register.
pub open spec fn float_arg_name(i: int) -> Seq<char> {
    if i == 0 {
        "xmm0"@
    } else if i == 1 {
        "xmm1"@
    } else if i == 2 {
        "xmm2"@
    } else if i == 3 {
        "xmm3"@
    } else if i == 4 {
        "xmm4"@
    } else if i == 5 {
        "xmm5"@
    } else if i == 6 {
        "xmm6"@
    } else {
        "xmm7"@
    }
}

/// The operand-size keyword for an access of `size` bytes; empty where the
/// target has none.
pub open spec fn width_name(size: nat) -> Seq<char> {
    if size == 1 {
        "BYTE"@
    } else if size == 2 {
        "WORD"@
    } else if size == 4 {
        "DWORD"@
    } else if size == 8 {
        "QWORD"@
    } else {
        ""@
    }
}

/// `i` is the first of the slots below `limit` that is still free.
pub open spec fn is_first_free(taken: Seq<bool>, limit: int, i: int) -> bool {
    &&& 0 <= i < limit
    &&& i < taken.len()
    &&& !taken[i]
    &&& forall|j: int| 0 <= j < i ==> #[trigger] taken[j]
}

/// The first of the slots below `limit` that is still free, if there is one.
pub open spec fn first_free(taken: Seq<bool>, limit: int) -> Option<int> {
    if exists|i: int| is_first_free(taken, limit, i) {
        Some(choose|i: int| is_first_free(taken, limit, i))
    } else {
        None
    }
}

/// At most one slot is the first free one.
pub proof fn lemma_first_free_unique(taken: Seq<bool>, limit: int, i: int)
    requires
        is_first_free(taken, limit, i),
    ensures
        first_free(taken, limit) == Some(i),
{
    let k = choose|k: int| is_first_free(taken, limit, k);
    assert(is_first_free(taken, limit, k));
    if k < i {
        assert(taken[k]);
    }
    if i < k {
        assert(taken[i]);
    }
}

/// What placing one argument does: the slots afterwards, the text emitted
/// and the number of words that went to the stack.
pub struct Placement {
    pub taken: Seq<bool>,
    pub text: Seq<char>,
    pub spills: nat,
}

/// The text that loads one word of an argument into the register `reg`:
/// the operand itself, or the word at `offset` bytes below the address that
/// the operand names.
pub open spec fn register_load(
    reg: Seq<char>,
    op: Seq<char>,
    size: nat,
    offset: nat,
    address_of: bool,
) -> Seq<char> {
    if !address_of {
        "    mov "@ + reg + ", "@ + op + "\n"@
    } else if offset != 0 {
        "    mov "@ + reg + ", "@ + width_name(size) + " ["@ + op + "-"@ + crate::text::decimal(
            offset,
        ) + "]\n"@
    } else {
        "    mov "@ + reg + ", "@ + width_name(size) + " ["@ + op + "]\n"@
    }
}

/// The text that pushes an argument on the stack.
pub open spec fn stack_push(op: Seq<char>) -> Seq<char> {
    "    push "@ + op + "\n"@
}

/// Placing one word: into the first free integer register, or on the stack
/// where none is free.
pub open spec fn place_word(
    taken: Seq<bool>,
    op: Seq<char>,
    size: nat,
    offset: nat,
    address_of: bool,
) -> Placement {
    match first_free(taken, INT_SLOTS as int) {
        Some(i) => Placement {
            taken: taken.update(i, true),
            text: register_load(int_arg_name(i), op, size, offset, address_of),
            spills: 0,
        },
        None => Placement { taken, text: stack_push(op), spills: 1 },
    }
}

/// Placing one argument of type `t`, named by the operand text `op`.
///
/// A scalar takes one word. A string or a slice takes two: the words at
/// offsets 0 and 8 of the address that the operand names, each placed on its
/// own, so that one may land in a register and the other on the stack. A
/// struct without components takes nothing.
///
/// A struct with components is not placed. Decomposing it component by
/// component, each at its offset but under the type of the whole struct,
/// would decompose the same struct again for every component and never end;
/// under which type a component goes instead is a question of the calling
/// convention that is left open here. Floats and arrays are not placed
/// either.
pub open spec fn marshal(taken: Seq<bool>, op: Seq<char>, t: TypeModel) -> Result<
    Placement,
    LowerError,
> {
    match t {
        TypeModel::Bool | TypeModel::Char | TypeModel::Integer | TypeModel::Pointer { .. } => Ok(
            place_word(taken, op, 8, 0, false),
        ),
        TypeModel::Str | TypeModel::Slice { .. } => {
            let low = place_word(taken, op, 8, 0, true);
            let high = place_word(low.taken, op, 8, 8, true);
            Ok(
                Placement {
                    taken: high.taken,
                    text: low.text + high.text,
                    spills: low.spills + high.spills,
                },
            )
        },
        TypeModel::Struct { fields, .. } => if fields.len() == 0 {
            Ok(Placement { taken, text: Seq::empty(), spills: 0 })
        } else {
            Err(LowerError::Unimplemented)
        },
        TypeModel::Float | TypeModel::Array { .. } => Err(LowerError::Unimplemented),
    }
}

/// Six integer argument registers, all free.
pub open spec fn free_slots() -> Seq<bool> {
    Seq::new(6, |i: int| false)
}

/// Six integer argument registers of which the first `k` are taken.
pub open spec fn first_taken(k: nat) -> Seq<bool> {
    Seq::new(6, |i: int| i < k)
}

/// Placing the first `n` of `args`, each an operand text with its type, one
/// after the other. The first argument that cannot be placed stops it.
pub open spec fn marshal_each(taken: Seq<bool>, args: Seq<(Seq<char>, TypeModel)>, n: nat) -> Result<
    Placement,
    LowerError,
>
    decreases n,
{
    if n == 0 || n > args.len() {
        Ok(Placement { taken, text: Seq::empty(), spills: 0 })
    } else {
        match marshal_each(taken, args, (n - 1) as nat) {
            Err(e) => Err(e),
            Ok(prev) => match marshal(prev.taken, args[n - 1].0, args[n - 1].1) {
                Err(e) => Err(e),
                Ok(p) => Ok(
                    Placement {
                        taken: p.taken,
                        text: prev.text + p.text,
                        spills: prev.spills + p.spills,
                    },
                ),
            },
        }
    }
}

/// The text that passes the first `n` of `args` as scalars to a call that
/// has placed nothing yet: the first six in the integer argument registers,
/// in their order, the others pushed on the stack, in their order.
pub open spec fn scalar_passing(args: Seq<(Seq<char>, TypeModel)>, n: nat) -> Seq<char>
    decreases n,
{
    if n == 0 || n > args.len() {
        Seq::empty()
    } else if n <= 6 {
        scalar_passing(args, (n - 1) as nat) + register_load(
            int_arg_name(n - 1),
            args[n - 1].0,
            8,
            0,
            false,
        )
    } else {
        scalar_passing(args, (n - 1) as nat) + stack_push(args[n - 1].0)
    }
}

/// Where the first `k` registers are taken, the next free one is the
/// `k`-th, and none is free once all six are taken.
pub proof fn lemma_next_after_first_taken(k: nat)
    ensures
        k < 6 ==> first_free(first_taken(k), INT_SLOTS as int) == Some(k as int),
        k < 6 ==> first_taken(k).update(k as int, true) == first_taken(k + 1),
        k >= 6 ==> first_free(first_taken(k), INT_SLOTS as int) is None,
        k >= 6 ==> first_taken(k) == first_taken(6),
{
    if k < 6 {
        lemma_first_free_unique(first_taken(k), INT_SLOTS as int, k as int);
        assert(first_taken(k).update(k as int, true) =~= first_taken(k + 1));
    } else {
        assert(forall|i: int| !is_first_free(first_taken(k), INT_SLOTS as int, i));
        assert(first_taken(k) =~= first_taken(6));
    }
}

/// Scalar arguments fill the six integer argument registers from left to
/// right and spill nothing; from the seventh on each is pushed on the stack,
/// in source order, and counted as one spilled word.
pub proof fn law_scalars_fill_registers_then_stack(args: Seq<(Seq<char>, TypeModel)>, n: nat)
    requires
        n <= args.len(),
        forall|i: int| 0 <= i < n ==> (#[trigger] args[i]).1.is_scalar(),
    ensures
        marshal_each(free_slots(), args, n) == Ok::<Placement, LowerError>(
            Placement {
                taken: first_taken(if n <= 6 { n } else { 6 }),
                text: scalar_passing(args, n),
                spills: if n <= 6 { 0 } else { (n - 6) as nat },
            },
        ),
    decreases n,
{
    if n == 0 {
        assert(free_slots() =~= first_taken(0));
    } else {
        law_scalars_fill_registers_then_stack(args, (n - 1) as nat);
        lemma_next_after_first_taken((n - 1) as nat);
        assert(args[n - 1].1.is_scalar());
    }
}

/// The state of the two slot trackers.
pub struct SlotsModel {
    /// For each integer argument register, whether it is taken.
    pub int_taken: Seq<bool>,
    /// For each floating-point argument register, whether it is taken.
    pub float_taken: Seq<bool>,
}

/// The argument registers that one call site has handed out so far.
pub struct ArgCPU {
    int_registers: [u8; 6],
    float_registers: [u8; 8],
}

impl View for ArgCPU {
    type V = SlotsModel;

    closed spec fn view(&self) -> SlotsModel {
        SlotsModel {
            int_taken: Seq::new(6, |i: int| self.int_registers[i] != 0),
            float_taken: Seq::new(8, |i: int| self.float_registers[i] != 0),
        }
    }
}

fn int_arg_text(i: usize) -> (r: &'static str)
    requires
        i < 6,
    ensures
        r@ == int_arg_name(i as int),
{
    if i == 0 {
        "rdi"
    } else if i == 1 {
        "rsi"
    } else if i == 2 {
        "rdx"
    } else if i == 3 {
        "rcx"
    } else if i == 4 {
        "r8"
    } else {
        "r9"
    }
}

fn float_arg_text(i: usize) -> (r: &'static str)
    requires
        i < 8,
    ensures
        r@ == float_arg_name(i as int),
{
    if i == 0 {
        "xmm0"
    } else if i == 1 {
        "xmm1"
    } else if i == 2 {
        "xmm2"
    } else if i == 3 {
        "xmm3"
    } else if i == 4 {
        "xmm4"
    } else if i == 5 {
        "xmm5"
    } else if i == 6 {
        "xmm6"
    } else {
        "xmm7"
    }
}

fn width_text(size: usize) -> (r: &'static str)
    ensures
        r@ == width_name(size as nat),
{
    if size == 1 {
        "BYTE"
    } else if size == 2 {
        "WORD"
    } else if size == 4 {
        "DWORD"
    } else if size == 8 {
        "QWORD"
    } else {
        ""
    }
}

impl ArgCPU {
    /// The trackers of a call site that has placed nothing yet.
    pub fn new() -> (r: Self)
        ensures
            r@.int_taken == free_slots(),
            r@.float_taken == Seq::new(8, |i: int| false),
    {
        let r = Self {
            int_registers: [0, 0, 0, 0, 0, 0],
            float_registers: [0, 0, 0, 0, 0, 0, 0, 0],
        };
        assert(r@.int_taken =~= free_slots());
        assert(r@.float_taken =~= Seq::new(8, |i: int| false));
        r
    }

    /// Both trackers always have their full number of slots.
    pub proof fn lemma_slot_counts(&self)
        ensures
            self@.int_taken.len() == INT_SLOTS,
            self@.float_taken.len() == FLOAT_SLOTS,
    {
    }

    /// Takes the first free integer argument register and returns its name,
    /// or returns `None` where all six are taken.
    pub fn get_next_location(&mut self) -> (r: Option<String>)
        ensures
            final(self)@.float_taken == old(self)@.float_taken,
            match first_free(old(self)@.int_taken, INT_SLOTS as int) {
                Some(i) => {
                    &&& r matches Some(name) && name@ == int_arg_name(i)
                    &&& final(self)@.int_taken == old(self)@.int_taken.update(i, true)
                },
                None => r is None && final(self)@.int_taken == old(self)@.int_taken,
            },
    {
        let mut i: usize = 0;
        while i < INT_SLOTS
            invariant
                i <= INT_SLOTS,
                *self == *old(self),
                forall|j: int| 0 <= j < i ==> #[trigger] self@.int_taken[j],
            decreases INT_SLOTS - i,
        {
            if self.int_registers[i] == 0 {
                proof {
                    lemma_first_free_unique(self@.int_taken, INT_SLOTS as int, i as int);
                }
                self.int_registers[i] = 8;
                assert(self@.int_taken =~= old(self)@.int_taken.update(i as int, true));
                assert(self@.float_taken =~= old(self)@.float_taken);
                return Some(String::from_str(int_arg_text(i)));
            }
            i += 1;
        }
        assert(forall|k: int| !is_first_free(self@.int_taken, INT_SLOTS as int, k));
        None
    }

    /// Takes the first free floating-point argument register and returns its
    /// name, or returns `None` where all eight are taken.
    pub fn get_next_fp_location(&mut self) -> (r: Option<String>)
        ensures
            final(self)@.int_taken == old(self)@.int_taken,
            match first_free(old(self)@.float_taken, FLOAT_SLOTS as int) {
                Some(i) => {
                    &&& r matches Some(name) && name@ == float_arg_name(i)
                    &&& final(self)@.float_taken == old(self)@.float_taken.update(i, true)
                },
                None => r is None && final(self)@.float_taken == old(self)@.float_taken,
            },
    {
        let mut i: usize = 0;
        while i < FLOAT_SLOTS
            invariant
                i <= FLOAT_SLOTS,
                *self == *old(self),
                forall|j: int| 0 <= j < i ==> #[trigger] self@.float_taken[j],
            decreases FLOAT_SLOTS - i,
        {
            if self.float_registers[i] == 0 {
                proof {
                    lemma_first_free_unique(self@.float_taken, FLOAT_SLOTS as int, i as int);
                }
                self.float_registers[i] = 8;
                assert(self@.float_taken =~= old(self)@.float_taken.update(i as int, true));
                assert(self@.int_taken =~= old(self)@.int_taken);
                return Some(String::from_str(float_arg_text(i)));
            }
            i += 1;
        }
        assert(forall|k: int| !is_first_free(self@.float_taken, FLOAT_SLOTS as int, k));
        None
    }

    /// Places one word of an argument and returns the text that does so.
    fn generate_basic_arg(
        &mut self,
        op_name: &str,
        size: usize,
        offset: usize,
        to_pop_stack: &mut usize,
        is_address_of: bool,
    ) -> (r: String)
        requires
            *old(to_pop_stack) + place_word(
                old(self)@.int_taken,
                op_name@,
                size as nat,
                offset as nat,
                is_address_of,
            ).spills <= usize::MAX,
        ensures
            final(self)@.float_taken == old(self)@.float_taken,
            ({
                let p = place_word(
                    old(self)@.int_taken,
                    op_name@,
                    size as nat,
                    offset as nat,
                    is_address_of,
                );
                &&& final(self)@.int_taken == p.taken
                &&& r@ == p.text
                &&& *final(to_pop_stack) == *old(to_pop_stack) + p.spills
            }),
    {
        let mut out = String::new();
        if let Some(rname) = self.get_next_location() {
            out.append("    mov ");
            out.append(rname.as_str());
            out.append(", ");
            if !is_address_of {
                out.append(op_name);
                out.append("\n");
            } else {
                out.append(width_text(size));
                out.append(" [");
                out.append(op_name);
                if offset != 0 {
                    out.append("-");
                    crate::text::push_decimal(&mut out, offset);
                }
                out.append("]\n");
            }
            return out;
        }
        *to_pop_stack += 1;
        out.append("    push ");
        out.append(op_name);
        out.append("\n");
        out
    }

    /// Places one argument of type `arg_t`, named by the operand text
    /// `arg_v`, and returns the text that does so. Each word that goes to the
    /// stack adds one to `to_pop_stack`. An argument that cannot be placed
    /// changes nothing.
    pub fn generate_arg(&mut self, arg_v: &str, arg_t: &Type, to_pop_stack: &mut usize) -> (r:
        Result<String, LowerError>)
        requires
            marshal(old(self)@.int_taken, arg_v@, arg_t@) matches Ok(p) ==> *old(to_pop_stack)
                + p.spills <= usize::MAX,
        ensures
            r is Ok <==> arg_t@.can_be_passed(),
            r matches Err(e) ==> e == LowerError::Unimplemented,
            final(self)@.float_taken == old(self)@.float_taken,
            match marshal(old(self)@.int_taken, arg_v@, arg_t@) {
                Ok(p) => {
                    &&& r matches Ok(text) && text@ == p.text
                    &&& final(self)@.int_taken == p.taken
                    &&& *final(to_pop_stack) == *old(to_pop_stack) + p.spills
                },
                Err(e) => {
                    &&& r == Err::<String, LowerError>(e)
                    &&& final(self)@.int_taken == old(self)@.int_taken
                    &&& *final(to_pop_stack) == *old(to_pop_stack)
                },
            },
    {
        match arg_t {
            Type::BoolT | Type::CharT | Type::IntegerT | Type::PointerT { .. } => Ok(
                self.generate_basic_arg(arg_v, 8, 0, to_pop_stack, false),
            ),
            Type::StringT | Type::SliceT { .. } => {
                let mut out = self.generate_basic_arg(arg_v, 8, 0, to_pop_stack, true);
                let high = self.generate_basic_arg(arg_v, 8, 8, to_pop_stack, true);
                out.append(high.as_str());
                Ok(out)
            },
            Type::StructT { name: _, components } => {
                if components.len() == 0 {
                    Ok(String::new())
                } else {
                    Err(LowerError::Unimplemented)
                }
            },
            Type::FloatT | Type::ArrayT { .. } => Err(LowerError::Unimplemented),
        }
    }
}

} // verus!
