//! The binary under analysis: its sections and its functions.

use vstd::prelude::*;
use crate::ir::LowLevelFunction;
use crate::range::Section;

verus! {

/// Says that a function could not be lifted to the intermediate
/// representation.
#[derive(Clone, Copy, Debug, PartialEq, Eq, Structural)]
pub struct LiftError;

/// A function of the binary. `lifted` holds its intermediate representation
/// where lifting succeeded.
#[derive(Debug)]
pub struct Function {
    pub start: u64,
    pub name: String,
    pub lifted: Option<LowLevelFunction>,
}

impl Function {
    /// The function's intermediate representation, or the lift failure.
    pub fn low_level_il(&self) -> (r: Result<&LowLevelFunction, LiftError>)
        ensures
            r is Ok <==> self.lifted is Some,
            r is Ok ==> *r->Ok_0 == self.lifted->0,
    {
        match &self.lifted {
            Some(il) => Ok(il),
            None => Err(LiftError),
        }
    }
}

/// The binary as the analysis sees it. Several functions may start at one
/// address.
#[derive(Debug)]
pub struct BinaryView {
    pub sections: Vec<Section>,
    pub functions: Vec<Function>,
}

/// The functions among `functions` that start at `addr`, in their order.
pub open spec fn spec_functions_at(functions: Seq<Function>, addr: u64) -> Seq<Function>
    decreases functions.len(),
{
    if functions.len() == 0 {
        Seq::empty()
    } else {
        let rest = spec_functions_at(functions.drop_last(), addr);
        if functions.last().start == addr {
            rest.push(functions.last())
        } else {
            rest
        }
    }
}

impl BinaryView {
    /// The functions that start at `addr`, in their order.
    pub open spec fn spec_functions_at(&self, addr: u64) -> Seq<Function> {
        spec_functions_at(self.functions@, addr)
    }

    /// Every function that starts at `addr`: none, one or several.
    pub fn functions_at(&self, addr: u64) -> (r: Vec<&Function>)
        ensures
            r@.len() == self.spec_functions_at(addr).len(),
            forall|k: int| 0 <= k < r@.len() ==> *(#[trigger] r@[k]) == self.spec_functions_at(addr)[k],
    {
        let mut out: Vec<&Function> = Vec::new();
        let mut i: usize = 0;
        while i < self.functions.len()
            invariant
                i <= self.functions.len(),
                out@.len() == spec_functions_at(self.functions@.take(i as int), addr).len(),
                forall|k: int| 0 <= k < out@.len() ==> *(#[trigger] out@[k]) == spec_functions_at(
                    self.functions@.take(i as int),
                    addr,
                )[k],
            decreases self.functions.len() - i,
        {
            proof {
                assert(self.functions@.take(i + 1).drop_last() == self.functions@.take(i as int));
            }
            if self.functions[i].start == addr {
                out.push(&self.functions[i]);
            }
            i += 1;
        }
        proof {
            assert(self.functions@.take(self.functions@.len() as int) == self.functions@);
        }
        out
    }
}

/// A function is among those found at `addr` exactly when it stands in the
/// list and starts at `addr`.
pub proof fn lemma_functions_at_members(functions: Seq<Function>, addr: u64)
    ensures
        forall|k: int|
            0 <= k < spec_functions_at(functions, addr).len() ==> {
                &&& (#[trigger] spec_functions_at(functions, addr)[k]).start == addr
                &&& functions.contains(spec_functions_at(functions, addr)[k])
            },
        forall|i: int|
            0 <= i < functions.len() && (#[trigger] functions[i]).start == addr
                ==> spec_functions_at(functions, addr).contains(functions[i]),
    decreases functions.len(),
{
    let found = spec_functions_at(functions, addr);
    if functions.len() > 0 {
        let front = functions.drop_last();
        let rest = spec_functions_at(front, addr);
        lemma_functions_at_members(front, addr);
        assert forall|k: int| 0 <= k < found.len() implies {
            &&& (#[trigger] found[k]).start == addr
            &&& functions.contains(found[k])
        } by {
            if k < rest.len() {
                assert(found[k] == rest[k]);
                let j = choose|j: int| 0 <= j < front.len() && front[j] == rest[k];
                assert(functions[j] == found[k]);
            } else {
                assert(functions[functions.len() - 1] == found[k]);
            }
        }
        assert forall|i: int|
            0 <= i < functions.len() && (#[trigger] functions[i]).start == addr implies found.contains(
            functions[i],
        ) by {
            if i < front.len() {
                assert(front[i] == functions[i]);
                let k = choose|k: int| 0 <= k < rest.len() && rest[k] == front[i];
                assert(found[k] == functions[i]);
            } else {
                assert(found[found.len() - 1] == functions[i]);
            }
        }
    }
}

} // verus!
