//! The per-function classifier: does a function begin by jumping into the
//! protector's sections, and if so, into virtualized or into mutated code?

use vstd::prelude::*;
use crate::ir::{ExprInfo, InstrInfo, Instruction};
use crate::range::{ranges_contain, spec_ranges_contain, AddressRange};
use crate::view::{BinaryView, Function};
use crate::vmenter::{destination_is_vmenter, spec_destination_is_vmenter};

verus! {

/// How a function enters the protector's code. The address is that of the
/// function's first instruction, the tail call that redirects execution.
#[derive(Clone, Copy, Debug, PartialEq, Eq, Structural)]
pub enum CodeEntryDescription {
    /// The destination is a VM-enter routine: the code is virtualized.
    VMEnter(u64),
    /// The destination belongs to the protector but is no VM-enter routine:
    /// the code is taken to be mutated.
    MutEnter(u64),
}

/// The first instruction of the function's entry block. There is none where
/// the function could not be lifted, has no block, or has an empty entry
/// block.
pub open spec fn spec_first_instruction(func: Function) -> Option<Instruction> {
    if func.lifted is Some && func.lifted->0.spec_entry_block() is Some {
        func.lifted->0.spec_entry_block()->0.spec_first()
    } else {
        None
    }
}

/// The destination of a tail call to a statically known address.
pub open spec fn spec_direct_tail_call_target(instruction: Instruction) -> Option<u64> {
    match instruction.info {
        InstrInfo::TailCall(ExprInfo::ConstPtr(destination)) => Some(destination),
        _ => None,
    }
}

/// The destination to which the function's first instruction redirects
/// execution into one of `ranges`, for a function that itself starts
/// outside of them.
pub open spec fn spec_protector_jump(func: Function, ranges: Seq<AddressRange>) -> Option<u64> {
    if spec_ranges_contain(ranges, func.start) {
        None
    } else if spec_first_instruction(func) is None {
        None
    } else {
        match spec_direct_tail_call_target(spec_first_instruction(func)->0) {
            Some(destination) => if spec_ranges_contain(ranges, destination) {
                Some(destination)
            } else {
                None
            },
            None => None,
        }
    }
}

/// The classification of `func` against the protector's `ranges`.
///
/// A function that starts inside the ranges is the protector's own and is no
/// entry. Otherwise the function is an entry where its first instruction is
/// a tail call to a constant address inside the ranges: a virtualized one
/// where that destination is a VM-enter routine, a mutated one by
/// elimination where it is not.
pub open spec fn spec_classify(bv: BinaryView, func: Function, ranges: Seq<AddressRange>) -> Option<
    CodeEntryDescription,
> {
    match spec_protector_jump(func, ranges) {
        Some(destination) => {
            let address = spec_first_instruction(func)->0.address;
            if spec_destination_is_vmenter(bv, destination) {
                Some(CodeEntryDescription::VMEnter(address))
            } else {
                Some(CodeEntryDescription::MutEnter(address))
            }
        },
        None => None,
    }
}

/// Classifies one function. Only the first instruction of the entry block
/// is inspected, so an obfuscated entry in a later block goes unnoticed.
/// Every way of not matching, a failed lift among them, gives `None`.
pub fn search_for_themida_code_entries(
    bv: &BinaryView,
    func: &Function,
    themida_section_ranges: &[AddressRange],
) -> (r: Option<CodeEntryDescription>)
    ensures
        r == spec_classify(*bv, *func, themida_section_ranges@),
{
    let func_addr: u64 = func.start;
    if ranges_contain(themida_section_ranges, func_addr) {
        return None;
    }
    let llil_func = match func.low_level_il() {
        Ok(il) => il,
        Err(_) => {
            return None;
        },
    };
    if let Some(first_block) = llil_func.entry_block() {
        if let Some(first_inst) = first_block.first() {
            if let InstrInfo::TailCall(target) = &first_inst.info {
                if let ExprInfo::ConstPtr(value) = target {
                    let jmp_destination: u64 = *value;
                    if ranges_contain(themida_section_ranges, jmp_destination) {
                        if destination_is_vmenter(bv, jmp_destination) {
                            return Some(CodeEntryDescription::VMEnter(first_inst.address));
                        }
                        return Some(CodeEntryDescription::MutEnter(first_inst.address));
                    }
                }
            }
        }
    }
    None
}

/// A function that starts inside a protector range is never an entry,
/// whatever its instructions are.
pub proof fn lemma_protector_function_excluded(
    bv: BinaryView,
    func: Function,
    ranges: Seq<AddressRange>,
)
    requires
        spec_ranges_contain(ranges, func.start),
    ensures
        spec_classify(bv, func, ranges) is None,
{
}

/// A function is no entry where its first instruction is no tail call,
/// where the tail call's target is no constant pointer, or where the target
/// lies outside every range.
pub proof fn lemma_direct_jump_gate(bv: BinaryView, func: Function, ranges: Seq<AddressRange>)
    requires
        spec_first_instruction(func) is Some,
        ({
            let info = spec_first_instruction(func)->0.info;
            ||| !(info is TailCall)
            ||| info is TailCall && !(info->TailCall_0 is ConstPtr)
            ||| info is TailCall && info->TailCall_0 is ConstPtr && !spec_ranges_contain(
                ranges,
                info->TailCall_0->ConstPtr_0,
            )
        }),
    ensures
        spec_classify(bv, func, ranges) is None,
{
}

/// A function without a first instruction, be it for an empty entry block
/// or for want of any block, is no entry.
pub proof fn lemma_no_first_instruction(bv: BinaryView, func: Function, ranges: Seq<AddressRange>)
    requires
        spec_first_instruction(func) is None,
    ensures
        spec_classify(bv, func, ranges) is None,
{
}

/// Against an empty list of ranges no function is an entry.
pub proof fn lemma_empty_ranges(bv: BinaryView, func: Function, ranges: Seq<AddressRange>)
    requires
        ranges.len() == 0,
    ensures
        spec_classify(bv, func, ranges) is None,
{
}

/// A function that could not be lifted is no entry: the failure is an
/// ordinary non-match.
pub proof fn lemma_lift_failure_is_no_entry(
    bv: BinaryView,
    func: Function,
    ranges: Seq<AddressRange>,
)
    requires
        func.lifted is None,
    ensures
        spec_classify(bv, func, ranges) is None,
{
}

/// An entry is reported at the address of the function's first instruction,
/// and as virtualized exactly when the tail call's destination is a
/// VM-enter routine.
pub proof fn lemma_entry_shape(bv: BinaryView, func: Function, ranges: Seq<AddressRange>)
    requires
        spec_classify(bv, func, ranges) is Some,
    ensures
        !spec_ranges_contain(ranges, func.start),
        spec_first_instruction(func) is Some,
        spec_direct_tail_call_target(spec_first_instruction(func)->0) is Some,
        spec_ranges_contain(ranges, spec_direct_tail_call_target(spec_first_instruction(func)->0)->0),
        spec_classify(bv, func, ranges)->0 == (if spec_destination_is_vmenter(
            bv,
            spec_direct_tail_call_target(spec_first_instruction(func)->0)->0,
        ) {
            CodeEntryDescription::VMEnter(spec_first_instruction(func)->0.address)
        } else {
            CodeEntryDescription::MutEnter(spec_first_instruction(func)->0.address)
        }),
{
}

/// The classification reads the ranges only through the addresses they
/// cover: two lists that cover the same addresses classify alike.
pub proof fn lemma_same_cover_same_class(
    bv: BinaryView,
    func: Function,
    ranges: Seq<AddressRange>,
    others: Seq<AddressRange>,
)
    requires
        forall|addr: u64| spec_ranges_contain(ranges, addr) == spec_ranges_contain(others, addr),
    ensures
        spec_classify(bv, func, ranges) == spec_classify(bv, func, others),
{
}

} // verus!
