//! The scan over a whole binary: every function is classified once against
//! the ranges of the protector's sections.

use vstd::prelude::*;
use crate::classify::{search_for_themida_code_entries, spec_classify, CodeEntryDescription};
use crate::range::{protector_ranges, spec_protector_ranges, spec_ranges_contain, AddressRange};
use crate::view::BinaryView;

verus! {

/// One finding of a scan: the function, by its index among the binary's
/// functions, and how it enters the protector's code.
#[derive(Clone, Copy, Debug, PartialEq, Eq, Structural)]
pub struct CodeEntry {
    pub function: usize,
    pub description: CodeEntryDescription,
}

/// `report` is the scan's result over the first `upto` functions of `view`:
/// each finding is the classification of the function it names, the
/// findings come in the order of the functions, so that none is named twice,
/// and no function that classifies as an entry is missing.
pub open spec fn spec_is_report(
    view: BinaryView,
    ranges: Seq<AddressRange>,
    report: Seq<CodeEntry>,
    upto: int,
) -> bool {
    &&& forall|k: int|
        0 <= k < report.len() ==> {
            &&& (#[trigger] report[k]).function < upto
            &&& spec_classify(view, view.functions@[report[k].function as int], ranges) == Some(
                report[k].description,
            )
        }
    &&& forall|j: int, k: int|
        0 <= j < k < report.len() ==> (#[trigger] report[j]).function < (#[trigger] report[k]).function
    &&& forall|i: int|
        0 <= i < upto && spec_classify(view, #[trigger] view.functions@[i], ranges) is Some
            ==> exists|k: int| 0 <= k < report.len() && (#[trigger] report[k]).function == i
}

/// Scans every function of `view` against `target_sections` and collects
/// the entries found, in the order of the functions.
pub fn search_for_code_entries(view: &BinaryView, target_sections: &[AddressRange]) -> (r: Vec<
    CodeEntry,
>)
    ensures
        spec_is_report(*view, target_sections@, r@, view.functions@.len() as int),
{
    let mut report: Vec<CodeEntry> = Vec::new();
    let mut i: usize = 0;
    while i < view.functions.len()
        invariant
            i <= view.functions.len(),
            spec_is_report(*view, target_sections@, report@, i as int),
        decreases view.functions.len() - i,
    {
        let ghost before = report@;
        match search_for_themida_code_entries(view, &view.functions[i], target_sections) {
            Some(description) => {
                report.push(CodeEntry { function: i, description });
                proof {
                    let after = report@;
                    assert forall|f: int|
                        0 <= f < i + 1 && spec_classify(
                            *view,
                            #[trigger] view.functions@[f],
                            target_sections@,
                        ) is Some implies exists|k: int|
                        0 <= k < after.len() && (#[trigger] after[k]).function == f by {
                        if f < i {
                            let k = choose|k: int|
                                0 <= k < before.len() && (#[trigger] before[k]).function == f;
                            assert(after[k].function == f);
                        } else {
                            assert(after[after.len() - 1].function == f);
                        }
                    }
                }
            },
            None => {},
        }
        i += 1;
    }
    report
}

/// The command that looks for the protector's code entries in a binary.
pub struct ThemidaSpotterCommand;

impl ThemidaSpotterCommand {
    /// Collects the ranges of the protector's sections of `view` and scans
    /// its functions against them.
    pub fn action(&self, view: &BinaryView) -> (r: Vec<CodeEntry>)
        ensures
            spec_is_report(
                *view,
                spec_protector_ranges(view.sections@),
                r@,
                view.functions@.len() as int,
            ),
    {
        let target_sections = protector_ranges(view.sections.as_slice());
        search_for_code_entries(view, target_sections.as_slice())
    }

    /// The command applies to every binary.
    pub fn valid(&self, _view: &BinaryView) -> (r: bool)
        ensures
            r,
    {
        true
    }
}

/// No function that starts inside a protector range is reported.
pub proof fn lemma_report_excludes_protector_functions(
    view: BinaryView,
    ranges: Seq<AddressRange>,
    report: Seq<CodeEntry>,
    k: int,
)
    requires
        spec_is_report(view, ranges, report, view.functions@.len() as int),
        0 <= k < report.len(),
    ensures
        !spec_ranges_contain(ranges, view.functions@[report[k].function as int].start),
{
    assert(report[k].function < view.functions@.len());
}

/// Against an empty list of ranges the report is empty.
pub proof fn lemma_report_empty_without_ranges(
    view: BinaryView,
    ranges: Seq<AddressRange>,
    report: Seq<CodeEntry>,
)
    requires
        spec_is_report(view, ranges, report, view.functions@.len() as int),
        ranges.len() == 0,
    ensures
        report.len() == 0,
{
    if report.len() > 0 {
        assert(report[0].function < view.functions@.len());
    }
}

/// The report is determined: two reports of one scan are equal.
pub proof fn lemma_report_unique(
    view: BinaryView,
    ranges: Seq<AddressRange>,
    first: Seq<CodeEntry>,
    second: Seq<CodeEntry>,
    upto: int,
)
    requires
        spec_is_report(view, ranges, first, upto),
        spec_is_report(view, ranges, second, upto),
    ensures
        first == second,
    decreases first.len(),
{
    if first.len() == 0 {
        if second.len() > 0 {
            let f = second[0].function as int;
            assert(spec_classify(view, view.functions@[f], ranges) is Some);
        }
        assert(first =~= second);
    } else {
        let top = first.last();
        let f = top.function as int;
        assert(first[first.len() - 1] == top);
        assert(spec_classify(view, view.functions@[f], ranges) is Some);
        let k = choose|k: int| 0 <= k < second.len() && (#[trigger] second[k]).function == f;
        if k < second.len() - 1 {
            let g = second[second.len() - 1].function as int;
            assert(spec_classify(view, view.functions@[g], ranges) is Some);
            let j = choose|j: int| 0 <= j < first.len() && (#[trigger] first[j]).function == g;
            assert(first[j].function <= top.function);
        }
        assert(second.last() == top);
        let a = first.drop_last();
        let b = second.drop_last();
        assert(spec_is_report(view, ranges, a, f)) by {
            assert forall|i: int|
                0 <= i < f && spec_classify(view, #[trigger] view.functions@[i], ranges) is Some implies exists|
                k: int,
            |
                0 <= k < a.len() && (#[trigger] a[k]).function == i by {
                let k = choose|k: int| 0 <= k < first.len() && (#[trigger] first[k]).function == i;
                assert(a[k] == first[k]);
            }
            assert forall|k: int| 0 <= k < a.len() implies (#[trigger] a[k]).function < f by {
                assert(a[k] == first[k]);
            }
        }
        assert(spec_is_report(view, ranges, b, f)) by {
            assert forall|i: int|
                0 <= i < f && spec_classify(view, #[trigger] view.functions@[i], ranges) is Some implies exists|
                k: int,
            |
                0 <= k < b.len() && (#[trigger] b[k]).function == i by {
                let k = choose|k: int| 0 <= k < second.len() && (#[trigger] second[k]).function == i;
                assert(b[k] == second[k]);
            }
            assert forall|k: int| 0 <= k < b.len() implies (#[trigger] b[k]).function < f by {
                assert(b[k] == second[k]);
            }
        }
        lemma_report_unique(view, ranges, a, b, f);
        assert(first =~= a.push(top));
        assert(second =~= b.push(top));
    }
}

} // verus!
