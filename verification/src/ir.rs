//! A function's low-level intermediate representation, as plain data.
//!
//! A lifted function is a sequence of basic blocks, the first of which is its
//! entry. A block is a sequence of instructions, and an instruction carries
//! its address and a tagged description with its operand expression.

use vstd::prelude::*;

verus! {

/// An expression of the intermediate representation. The tags that no
/// pattern of this library reads are folded into `Other`.
#[derive(Debug)]
pub enum ExprInfo {
    /// A pointer whose value is statically known.
    ConstPtr(u64),
    /// A bare register, by its number.
    Reg(u32),
    /// A read from memory at the address that the inner expression gives.
    Load(Box<ExprInfo>),
    /// The bitwise disjunction of two expressions.
    Or(Box<ExprInfo>, Box<ExprInfo>),
    /// Any other expression.
    Other,
}

/// What an instruction does. The tags that no pattern of this library reads
/// are folded into `Other`.
#[derive(Debug)]
pub enum InstrInfo {
    /// Pushes the operand on the stack.
    Push(ExprInfo),
    /// Jumps to the target, staying in the function.
    Jump(ExprInfo),
    /// Leaves the function for the target, without return.
    TailCall(ExprInfo),
    /// Any other instruction.
    Other,
}

/// One instruction at its address.
#[derive(Debug)]
pub struct Instruction {
    pub address: u64,
    pub info: InstrInfo,
}

/// A basic block: its instructions in order.
#[derive(Debug)]
pub struct BasicBlock {
    pub instructions: Vec<Instruction>,
}

/// A lifted function: its basic blocks in order, the entry block first.
#[derive(Debug)]
pub struct LowLevelFunction {
    pub blocks: Vec<BasicBlock>,
}

impl BasicBlock {
    /// The block's first instruction, if it has one.
    pub open spec fn spec_first(&self) -> Option<Instruction> {
        if self.instructions@.len() > 0 {
            Some(self.instructions@[0])
        } else {
            None
        }
    }

    /// The block's last instruction, if it has one.
    pub open spec fn spec_last(&self) -> Option<Instruction> {
        if self.instructions@.len() > 0 {
            Some(self.instructions@[self.instructions@.len() - 1])
        } else {
            None
        }
    }

    /// The block's first instruction, if it has one.
    pub fn first(&self) -> (r: Option<&Instruction>)
        ensures
            r is Some <==> self.spec_first() is Some,
            r is Some ==> *r->0 == self.spec_first()->0,
    {
        if self.instructions.len() > 0 {
            Some(&self.instructions[0])
        } else {
            None
        }
    }

    /// The block's last instruction, if it has one.
    pub fn last(&self) -> (r: Option<&Instruction>)
        ensures
            r is Some <==> self.spec_last() is Some,
            r is Some ==> *r->0 == self.spec_last()->0,
    {
        let n: usize = self.instructions.len();
        if n > 0 {
            Some(&self.instructions[n - 1])
        } else {
            None
        }
    }
}

impl LowLevelFunction {
    /// The function's entry block, if it has any block.
    pub open spec fn spec_entry_block(&self) -> Option<BasicBlock> {
        if self.blocks@.len() > 0 {
            Some(self.blocks@[0])
        } else {
            None
        }
    }

    /// The function's entry block, if it has any block.
    pub fn entry_block(&self) -> (r: Option<&BasicBlock>)
        ensures
            r is Some <==> self.spec_entry_block() is Some,
            r is Some ==> *r->0 == self.spec_entry_block()->0,
    {
        if self.blocks.len() > 0 {
            Some(&self.blocks[0])
        } else {
            None
        }
    }
}

} // verus!
