//! Address ranges of the protector's sections.

use vstd::prelude::*;
use vstd::string::StringExecFns;

verus! {

/// A half-open interval of addresses: `start` is inside, `end` is not.
#[derive(Clone, Copy, Debug, PartialEq, Eq, Structural)]
pub struct AddressRange {
    pub start: u64,
    pub end: u64,
}

/// A range into which an obfuscated code entry redirects execution.
pub type CodeEntryDestRange = AddressRange;

impl AddressRange {
    /// A range is well formed when it does not end before it starts.
    pub open spec fn wf(&self) -> bool {
        self.start <= self.end
    }

    /// Whether `addr` lies in `[start, end)`.
    pub open spec fn spec_contains(&self, addr: u64) -> bool {
        self.start <= addr < self.end
    }

    /// Makes the range `[start, end)`, or nothing where `end` lies before
    /// `start`.
    pub fn new(start: u64, end: u64) -> (r: Option<AddressRange>)
        ensures
            r == (if start <= end {
                Some(AddressRange { start, end })
            } else {
                None
            }),
            r is Some ==> r->0.wf(),
    {
        if start <= end {
            Some(AddressRange { start, end })
        } else {
            None
        }
    }

    /// Whether `addr` lies in `[start, end)`.
    pub fn contains(&self, addr: u64) -> (r: bool)
        ensures
            r == self.spec_contains(addr),
    {
        self.start <= addr && addr < self.end
    }
}

/// Whether `addr` lies in at least one of `ranges`.
pub open spec fn spec_ranges_contain(ranges: Seq<AddressRange>, addr: u64) -> bool {
    exists|i: int| 0 <= i < ranges.len() && (#[trigger] ranges[i]).spec_contains(addr)
}

/// Whether `addr` lies in at least one of `ranges`, by a linear scan.
pub fn ranges_contain(ranges: &[AddressRange], addr: u64) -> (r: bool)
    ensures
        r == spec_ranges_contain(ranges@, addr),
{
    let mut i: usize = 0;
    while i < ranges.len()
        invariant
            i <= ranges.len(),
            forall|k: int| 0 <= k < i ==> !(#[trigger] ranges@[k]).spec_contains(addr),
        decreases ranges.len() - i,
    {
        if ranges[i].contains(addr) {
            return true;
        }
        i += 1;
    }
    false
}

/// A section of the binary, as the host reports it.
#[derive(Debug)]
pub struct Section {
    pub name: String,
    pub start: u64,
    pub end: u64,
}

impl Section {
    /// The addresses that the section covers.
    pub open spec fn spec_range(&self) -> AddressRange {
        AddressRange { start: self.start, end: self.end }
    }

    /// Whether the section carries one of the protector's names.
    pub open spec fn spec_is_protector(&self) -> bool {
        is_protector_section_name(self.name@)
    }

    /// Whether the section carries one of the protector's names. The
    /// comparison is exact and case-sensitive.
    pub fn is_protector(&self) -> (r: bool)
        ensures
            r == self.spec_is_protector(),
    {
        self.name == String::from_str(".boot")
            || self.name == String::from_str(".themida")
            || self.name == String::from_str(".winlice")
            || self.name == String::from_str(".vlizer")
    }
}

/// The names under which the protector injects its sections.
pub open spec fn is_protector_section_name(name: Seq<char>) -> bool {
    name == ".boot"@ || name == ".themida"@ || name == ".winlice"@ || name == ".vlizer"@
}

/// The ranges of the protector's sections among `sections`, in the order of
/// the sections.
pub open spec fn spec_protector_ranges(sections: Seq<Section>) -> Seq<AddressRange>
    decreases sections.len(),
{
    if sections.len() == 0 {
        Seq::empty()
    } else {
        let rest = spec_protector_ranges(sections.drop_last());
        if sections.last().spec_is_protector() {
            rest.push(sections.last().spec_range())
        } else {
            rest
        }
    }
}

/// Collects the ranges of the protector's sections. A binary without such a
/// section gives the empty list.
pub fn protector_ranges(sections: &[Section]) -> (r: Vec<AddressRange>)
    ensures
        r@ == spec_protector_ranges(sections@),
        (forall|i: int| 0 <= i < sections@.len() ==> (#[trigger] sections@[i]).spec_range().wf())
            ==> forall|k: int| 0 <= k < r@.len() ==> (#[trigger] r@[k]).wf(),
{
    let mut out: Vec<AddressRange> = Vec::new();
    let mut i: usize = 0;
    while i < sections.len()
        invariant
            i <= sections.len(),
            out@ == spec_protector_ranges(sections@.take(i as int)),
        decreases sections.len() - i,
    {
        proof {
            assert(sections@.take(i + 1).drop_last() == sections@.take(i as int));
        }
        if sections[i].is_protector() {
            out.push(AddressRange { start: sections[i].start, end: sections[i].end });
        }
        i += 1;
    }
    proof {
        assert(sections@.take(sections@.len() as int) == sections@);
        if forall|i: int| 0 <= i < sections@.len() ==> (#[trigger] sections@[i]).spec_range().wf() {
            lemma_protector_ranges_well_formed(sections@);
        }
    }
    out
}

/// Sections that do not end before they start give well-formed ranges.
pub proof fn lemma_protector_ranges_well_formed(sections: Seq<Section>)
    requires
        forall|i: int| 0 <= i < sections.len() ==> (#[trigger] sections[i]).spec_range().wf(),
    ensures
        forall|k: int|
            0 <= k < spec_protector_ranges(sections).len() ==> (#[trigger] spec_protector_ranges(
                sections,
            )[k]).wf(),
    decreases sections.len(),
{
    if sections.len() > 0 {
        let front = sections.drop_last();
        assert forall|i: int| 0 <= i < front.len() implies (#[trigger] front[i]).spec_range().wf() by {
            assert(front[i] == sections[i]);
        }
        lemma_protector_ranges_well_formed(front);
        let rest = spec_protector_ranges(front);
        let ranges = spec_protector_ranges(sections);
        assert forall|k: int| 0 <= k < ranges.len() implies (#[trigger] ranges[k]).wf() by {
            if k < rest.len() {
                assert(ranges[k] == rest[k]);
            } else {
                assert(ranges[k] == sections[sections.len() - 1].spec_range());
            }
        }
    }
}

/// An address lies in one of the collected ranges exactly when a section
/// with one of the protector's names covers it.
pub proof fn lemma_protector_ranges_cover(sections: Seq<Section>, addr: u64)
    ensures
        spec_ranges_contain(spec_protector_ranges(sections), addr) <==> exists|i: int|
            0 <= i < sections.len() && (#[trigger] sections[i]).spec_is_protector()
                && sections[i].spec_range().spec_contains(addr),
    decreases sections.len(),
{
    let ranges = spec_protector_ranges(sections);
    if sections.len() > 0 {
        let front = sections.drop_last();
        let last = sections.last();
        lemma_protector_ranges_cover(front, addr);
        let rest = spec_protector_ranges(front);
        if spec_ranges_contain(ranges, addr) {
            let k = choose|k: int| 0 <= k < ranges.len() && (#[trigger] ranges[k]).spec_contains(addr);
            if k < rest.len() {
                assert(rest[k].spec_contains(addr));
                let j = choose|j: int|
                    0 <= j < front.len() && (#[trigger] front[j]).spec_is_protector()
                        && front[j].spec_range().spec_contains(addr);
                assert(sections[j] == front[j]);
            } else {
                assert(sections[sections.len() - 1] == last);
            }
        }
        if exists|i: int|
            0 <= i < sections.len() && (#[trigger] sections[i]).spec_is_protector()
                && sections[i].spec_range().spec_contains(addr) {
            let i = choose|i: int|
                0 <= i < sections.len() && (#[trigger] sections[i]).spec_is_protector()
                    && sections[i].spec_range().spec_contains(addr);
            if i < front.len() {
                assert(front[i] == sections[i]);
                let k = choose|k: int| 0 <= k < rest.len() && (#[trigger] rest[k]).spec_contains(addr);
                assert(ranges[k] == rest[k]);
            } else {
                assert(ranges[ranges.len() - 1] == last.spec_range());
            }
        }
    }
}

} // verus!
