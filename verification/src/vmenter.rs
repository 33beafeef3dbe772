//! The structural signature of the routine through which execution enters
//! the protector's virtual machine.
//!
//! Such a routine begins by saving the flags, which lifts to a push of a
//! disjunction, and somewhere dispatches through a loaded pointer, which
//! lifts to a jump to a load from a bare register. The match is a loose
//! heuristic: nothing relates the two blocks beyond standing in one function.

use vstd::prelude::*;
use crate::ir::{BasicBlock, ExprInfo, InstrInfo, Instruction, LowLevelFunction};
use crate::view::{spec_functions_at, BinaryView, Function};

verus! {

/// The instruction pushes a disjunction: the lifted form of a flags save.
pub open spec fn spec_instruction_is_pushfd(instruction: Instruction) -> bool {
    match instruction.info {
        InstrInfo::Push(ExprInfo::Or(_, _)) => true,
        _ => false,
    }
}

/// The instruction jumps to what a load from a bare register gives: the
/// lifted form of an indirect jump through a register.
pub open spec fn spec_instruction_is_register_dispatch(instruction: Instruction) -> bool {
    match instruction.info {
        InstrInfo::Jump(ExprInfo::Load(source)) => *source is Reg,
        _ => false,
    }
}

/// The block's first instruction is a flags save. The rest of the block is
/// free.
pub open spec fn spec_block_is_vmenter_start(block: BasicBlock) -> bool {
    block.spec_first() is Some && spec_instruction_is_pushfd(block.spec_first()->0)
}

/// The block's last instruction is a dispatch through a register. The rest
/// of the block is free.
pub open spec fn spec_block_is_vmenter_end(block: BasicBlock) -> bool {
    block.spec_last() is Some && spec_instruction_is_register_dispatch(block.spec_last()->0)
}

/// The entry block carries the start signature and at least one block, the
/// entry block or another, carries the end signature.
pub open spec fn spec_function_is_vm_enter(function: LowLevelFunction) -> bool {
    &&& function.spec_entry_block() is Some
    &&& spec_block_is_vmenter_start(function.spec_entry_block()->0)
    &&& exists|i: int|
        0 <= i < function.blocks@.len() && spec_block_is_vmenter_end(#[trigger] function.blocks@[i])
}

/// The candidate could be lifted and its lifted form is a VM-enter routine.
pub open spec fn spec_candidate_is_vm_enter(candidate: Function) -> bool {
    candidate.lifted is Some && spec_function_is_vm_enter(candidate.lifted->0)
}

/// At least one of the candidates is a VM-enter routine.
pub open spec fn spec_any_candidate_is_vm_enter(candidates: Seq<Function>) -> bool {
    exists|k: int|
        0 <= k < candidates.len() && spec_candidate_is_vm_enter(#[trigger] candidates[k])
}

/// At least one of the functions that start at `destination_addr` is a
/// VM-enter routine.
pub open spec fn spec_destination_is_vmenter(bv: BinaryView, destination_addr: u64) -> bool {
    spec_any_candidate_is_vm_enter(spec_functions_at(bv.functions@, destination_addr))
}

/// Whether the instruction is the lifted form of a flags save.
pub fn instruction_is_pushfd(instruction: &Instruction) -> (r: bool)
    ensures
        r == spec_instruction_is_pushfd(*instruction),
{
    if let InstrInfo::Push(operand) = &instruction.info {
        if let ExprInfo::Or(_, _) = operand {
            return true;
        }
    }
    false
}

/// Whether the block looks like the first block of a VM-enter routine.
pub fn block_is_vmenter_start(block: &BasicBlock) -> (r: bool)
    ensures
        r == spec_block_is_vmenter_start(*block),
{
    if let Some(first_inst) = block.first() {
        if instruction_is_pushfd(first_inst) {
            return true;
        }
    }
    false
}

/// Whether the block looks like the block on which a VM-enter routine
/// leaves for the interpreter.
pub fn block_is_vmenter_end(block: &BasicBlock) -> (r: bool)
    ensures
        r == spec_block_is_vmenter_end(*block),
{
    if let Some(last_ins) = block.last() {
        if let InstrInfo::Jump(target) = &last_ins.info {
            if let ExprInfo::Load(source) = target {
                if let ExprInfo::Reg(_) = &**source {
                    return true;
                }
            }
        }
    }
    false
}

/// Whether the lifted function looks like a VM-enter routine.
pub fn function_is_vm_enter(function: &LowLevelFunction) -> (r: bool)
    ensures
        r == spec_function_is_vm_enter(*function),
{
    if let Some(first_block) = function.entry_block() {
        if block_is_vmenter_start(first_block) {
            let mut i: usize = 0;
            while i < function.blocks.len()
                invariant
                    i <= function.blocks.len(),
                    function.spec_entry_block() is Some,
                    spec_block_is_vmenter_start(function.spec_entry_block()->0),
                    forall|k: int|
                        0 <= k < i ==> !spec_block_is_vmenter_end(#[trigger] function.blocks@[k]),
                decreases function.blocks.len() - i,
            {
                if block_is_vmenter_end(&function.blocks[i]) {
                    return true;
                }
                i += 1;
            }
        }
    }
    false
}

/// Whether the destination looks like a VM-enter routine. Every function
/// that starts there is tried; one that cannot be lifted is passed over, and
/// the first match settles the answer.
pub fn destination_is_vmenter(bv: &BinaryView, destination_addr: u64) -> (r: bool)
    ensures
        r == spec_destination_is_vmenter(*bv, destination_addr),
{
    let candidates = bv.functions_at(destination_addr);
    let mut i: usize = 0;
    while i < candidates.len()
        invariant
            i <= candidates.len(),
            candidates@.len() == spec_functions_at(bv.functions@, destination_addr).len(),
            forall|k: int|
                0 <= k < candidates@.len() ==> *(#[trigger] candidates@[k]) == spec_functions_at(
                    bv.functions@,
                    destination_addr,
                )[k],
            forall|k: int|
                0 <= k < i ==> !spec_candidate_is_vm_enter(
                    #[trigger] spec_functions_at(bv.functions@, destination_addr)[k],
                ),
        decreases candidates.len() - i,
    {
        let code_entry_func = candidates[i];
        if let Ok(llil_code_entry_func) = code_entry_func.low_level_il() {
            if function_is_vm_enter(llil_code_entry_func) {
                assert(spec_candidate_is_vm_enter(
                    spec_functions_at(bv.functions@, destination_addr)[i as int],
                ));
                return true;
            }
        }
        i += 1;
    }
    false
}

/// With several functions at one address, one convincing match is enough:
/// the destination is a VM-enter routine exactly when some function of the
/// binary starts there, could be lifted, and carries the signature. The
/// other functions at that address, and lift failures among them, do not
/// count against it.
pub proof fn lemma_destination_any_of(bv: BinaryView, destination_addr: u64)
    ensures
        spec_destination_is_vmenter(bv, destination_addr) <==> exists|i: int|
            0 <= i < bv.functions@.len() && (#[trigger] bv.functions@[i]).start == destination_addr
                && spec_candidate_is_vm_enter(bv.functions@[i]),
{
    let functions = bv.functions@;
    let found = spec_functions_at(functions, destination_addr);
    crate::view::lemma_functions_at_members(functions, destination_addr);
    if spec_destination_is_vmenter(bv, destination_addr) {
        let k = choose|k: int| 0 <= k < found.len() && spec_candidate_is_vm_enter(#[trigger] found[k]);
        assert(functions.contains(found[k]));
        let i = choose|i: int| 0 <= i < functions.len() && functions[i] == found[k];
        assert(functions[i].start == destination_addr);
    }
    if exists|i: int|
        0 <= i < functions.len() && (#[trigger] functions[i]).start == destination_addr
            && spec_candidate_is_vm_enter(functions[i]) {
        let i = choose|i: int|
            0 <= i < functions.len() && (#[trigger] functions[i]).start == destination_addr
                && spec_candidate_is_vm_enter(functions[i]);
        assert(found.contains(functions[i]));
        let k = choose|k: int| 0 <= k < found.len() && found[k] == functions[i];
        assert(spec_candidate_is_vm_enter(found[k]));
    }
}

/// No function at the address, or none that could be lifted, gives no
/// match.
pub proof fn lemma_destination_without_lifted_candidate(bv: BinaryView, destination_addr: u64)
    requires
        forall|i: int|
            0 <= i < bv.functions@.len() && (#[trigger] bv.functions@[i]).start == destination_addr
                ==> bv.functions@[i].lifted is None,
    ensures
        !spec_destination_is_vmenter(bv, destination_addr),
{
    lemma_destination_any_of(bv, destination_addr);
}

} // verus!
