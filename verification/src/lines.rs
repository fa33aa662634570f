//! The text of the single instructions and data definitions that lowering
//! emits.

use vstd::prelude::*;
use crate::ir::Target;
use crate::text::decimal;
use crate::types::TypeModel;

verus! {

/// The scratch register that holds an operand: `r9` for the left operand of
/// an instruction, `r10` for the right one.
pub open spec fn sreg(left: bool) -> Seq<char> {
    if left {
        "r9"@
    } else {
        "r10"@
    }
}

/// The label of the `n`-th string literal of a unit.
pub open spec fn label_name(n: nat) -> Seq<char> {
    "label_"@ + decimal(n)
}

/// The data definition of a string literal: its label, its bytes and the
/// closing zero byte.
pub open spec fn static_entry(n: nat, content: Seq<char>) -> Seq<char> {
    "   "@ + label_name(n) + ": db "@ + content + ",0x0\n"@
}

/// Loads the address of a symbol into `reg`.
pub open spec fn load_symbol(reg: Seq<char>, symbol: Seq<char>) -> Seq<char> {
    "    lea "@ + reg + ", [rel "@ + symbol + "]\n"@
}

/// Loads into `reg` the address that lies `below` bytes under the frame
/// base.
pub open spec fn load_frame_address(reg: Seq<char>, below: nat) -> Seq<char> {
    "    lea "@ + reg + ", [rbp-"@ + decimal(below) + "]\n"@
}

/// Adds the byte offset of a component to the address in `reg`.
pub open spec fn add_offset(reg: Seq<char>, offset: nat) -> Seq<char> {
    "add "@ + reg + ", "@ + decimal(offset)
}

/// Loads the address of the base of an indexed access into `r11`.
pub open spec fn load_base(base: Seq<char>) -> Seq<char> {
    "    lea r11, "@ + base + "\n"@
}

/// Adds the index to the address in `r11`.
pub open spec fn add_index(index: Seq<char>) -> Seq<char> {
    "    add r11, "@ + index
}

/// Moves the address in `r11` to `reg`.
pub open spec fn move_sum(reg: Seq<char>) -> Seq<char> {
    "    mov "@ + reg + ", r11"@
}

/// Loads into `reg` the word at the address `address`.
pub open spec fn load_through(reg: Seq<char>, address: Seq<char>) -> Seq<char> {
    "    mov "@ + reg + ",["@ + address + "]\n"@
}

/// Loads the address of `place` into `reg`.
pub open spec fn load_address(reg: Seq<char>, place: Seq<char>) -> Seq<char> {
    "lea "@ + reg + ", "@ + place + "\n"@
}

/// Loads the value of an operand into `dst`: through the address in its
/// register, or the immediate itself.
pub open spec fn load_value(dst: Seq<char>, operand: Seq<char>, in_register: bool) -> Seq<char> {
    if in_register {
        "    mov "@ + dst + ", QWORD ["@ + operand + "]\n"@
    } else {
        "    mov "@ + dst + ", "@ + operand + "\n"@
    }
}

/// Applies the operation `mnemonic` to the accumulator and `second`.
pub open spec fn apply(mnemonic: Seq<char>, second: Seq<char>) -> Seq<char> {
    "    "@ + mnemonic + " rax, "@ + second + "\n"@
}

/// The operand-size keyword of a store of a value of type `t`: one byte for
/// booleans and characters, eight bytes for everything else.
pub open spec fn store_width(t: TypeModel) -> Seq<char> {
    if t is Bool || t is Char {
        "BYTE"@
    } else {
        "QWORD"@
    }
}

/// Stores the accumulator at `address`.
pub open spec fn store_accumulator(width: Seq<char>, address: Seq<char>) -> Seq<char> {
    "    mov "@ + width + " ["@ + address + "], rax\n"@
}

/// The number of eight-byte words that `size` bytes take.
pub open spec fn words(size: nat) -> nat {
    (size + 7) / 8
}

/// Points the first copy register at the target of a copy.
pub open spec fn copy_target(target: Seq<char>) -> Seq<char> {
    "  mov rax, "@ + target + "\n"@
}

/// Points the second copy register at the source of a copy.
pub open spec fn copy_source(source: Seq<char>) -> Seq<char> {
    "  mov rbx, "@ + source + "\n"@
}

/// Copies one word from source to target and moves both on by a word.
pub open spec fn copy_word() -> Seq<char> {
    "    mov rcx,QWORD [rbx]\n    mov QWORD [rax], rcx\n    add rax,8\n    add rbx, 8\n"@
}

/// Calls the function `name`, whose symbol carries a leading underscore on
/// one of the targets.
pub open spec fn call_line(target: Target, name: Seq<char>) -> Seq<char> {
    if target is MacOs {
        " call _"@ + name + "\n"@
    } else {
        " call "@ + name + "\n"@
    }
}

/// Takes one spilled argument off the stack.
pub open spec fn pop_line() -> Seq<char> {
    "    pop r10\n"@
}

/// Stores the first return register at `address`.
pub open spec fn store_first_return(address: Seq<char>) -> Seq<char> {
    "    mov QWORD["@ + address + "], rax\n"@
}

/// Stores the second return register eight bytes below `address`.
pub open spec fn store_second_return(address: Seq<char>) -> Seq<char> {
    "    mov QWORD["@ + address + "-8], rdx\n"@
}

/// Clears the scratch register before the slots of a declared variable are
/// reserved.
pub open spec fn clear_for_declaration() -> Seq<char> {
    "   xor r10,r10;\n"@
}

/// Reserves one zeroed slot for a declared variable.
pub open spec fn reserve_declared_word() -> Seq<char> {
    "    push r10"@
}

/// Clears the scratch register before slots are pushed.
pub open spec fn clear_for_push() -> Seq<char> {
    "   xor r10, r10\n"@
}

/// Pushes one zeroed slot.
pub open spec fn push_word() -> Seq<char> {
    "    push r10\n"@
}

/// Clears the scratch register after slots were popped.
pub open spec fn clear_after_pop() -> Seq<char> {
    "    xor r10,r10\n"@
}

/// Enters a lexical scope.
pub open spec fn enter_scope() -> Seq<char> {
    "    call push_frame()"@
}

/// Leaves a lexical scope.
pub open spec fn leave_scope() -> Seq<char> {
    "    call pop_frame()"@
}

/// Restores the three saved registers before a return.
pub open spec fn restore_saved() -> Seq<char> {
    "    pop rdx\n   pop rcx\n   pop rbx\n"@
}

/// Moves the returned value into the return register.
pub open spec fn load_return(value: Seq<char>) -> Seq<char> {
    "   mov rax, "@ + value
}

/// Leaves the frame and returns.
pub open spec fn leave_frame() -> Seq<char> {
    "\n   mov rsp, rbp\n   pop rbp\n     ret\n"@
}

/// Compares the condition with zero.
pub open spec fn compare_with_zero(cond: Seq<char>) -> Seq<char> {
    "cmp "@ + cond + ", 0\n"@
}

/// Jumps to `target` where the last comparison found a difference.
pub open spec fn jump_if_not_equal(target: Seq<char>) -> Seq<char> {
    "jne "@ + target
}

/// Jumps to `target`.
pub open spec fn jump(target: Seq<char>) -> Seq<char> {
    "    jmp "@ + target
}

/// Defines the label `name`.
pub open spec fn label_definition(name: Seq<char>) -> Seq<char> {
    name + ":"@
}

} // verus!
