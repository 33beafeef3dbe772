use themida_spotter::classify::{search_for_themida_code_entries, CodeEntryDescription};
use themida_spotter::command::{search_for_code_entries, CodeEntry, ThemidaSpotterCommand};
use themida_spotter::ir::{BasicBlock, ExprInfo, InstrInfo, Instruction, LowLevelFunction};
use themida_spotter::range::{AddressRange, Section};
use themida_spotter::view::{BinaryView, Function};

const DEST: u64 = 0x40_5000;

fn ranges() -> Vec<AddressRange> {
    vec![AddressRange { start: 0x40_4000, end: 0x40_8000 }]
}

fn ins(address: u64, info: InstrInfo) -> Instruction {
    Instruction { address, info }
}

fn il(blocks: Vec<Vec<Instruction>>) -> LowLevelFunction {
    LowLevelFunction {
        blocks: blocks.into_iter().map(|instructions| BasicBlock { instructions }).collect(),
    }
}

fn function(start: u64, lifted: Option<LowLevelFunction>) -> Function {
    Function { start, name: String::from("sub"), lifted }
}

/// A function at `start` whose first instruction, at `at`, tail-calls `dest`.
fn jumper(start: u64, at: u64, dest: u64) -> Function {
    function(
        start,
        Some(il(vec![vec![ins(at, InstrInfo::TailCall(ExprInfo::ConstPtr(dest))), ins(at + 5, InstrInfo::Other)]])),
    )
}

fn vm_enter(start: u64) -> Function {
    function(
        start,
        Some(il(vec![
            vec![
                ins(start, InstrInfo::Push(ExprInfo::Or(Box::new(ExprInfo::Other), Box::new(ExprInfo::Other)))),
                ins(start + 1, InstrInfo::Other),
            ],
            vec![ins(start + 2, InstrInfo::Jump(ExprInfo::Load(Box::new(ExprInfo::Reg(0)))))],
        ])),
    )
}

fn plain(start: u64) -> Function {
    function(start, Some(il(vec![vec![ins(start, InstrInfo::Other), ins(start + 1, InstrInfo::Other)]])))
}

fn view(functions: Vec<Function>) -> BinaryView {
    BinaryView { sections: Vec::new(), functions }
}

#[test]
fn tail_call_to_a_vm_enter_routine_is_a_vm_entry() {
    let bv = view(vec![vm_enter(DEST)]);
    let f = jumper(0x40_1000, 0x40_1000, DEST);
    assert_eq!(
        search_for_themida_code_entries(&bv, &f, &ranges()),
        Some(CodeEntryDescription::VMEnter(0x40_1000))
    );
}

#[test]
fn entry_is_reported_at_the_instruction_not_at_the_function_start() {
    let bv = view(vec![vm_enter(DEST)]);
    let f = jumper(0x40_1000, 0x40_1004, DEST);
    assert_eq!(
        search_for_themida_code_entries(&bv, &f, &ranges()),
        Some(CodeEntryDescription::VMEnter(0x40_1004))
    );
    let bv = view(vec![plain(DEST)]);
    assert_eq!(
        search_for_themida_code_entries(&bv, &f, &ranges()),
        Some(CodeEntryDescription::MutEnter(0x40_1004))
    );
}

#[test]
fn tail_call_to_other_protector_code_is_a_mutation_entry() {
    let bv = view(vec![plain(DEST)]);
    let f = jumper(0x40_1000, 0x40_1000, DEST);
    assert_eq!(
        search_for_themida_code_entries(&bv, &f, &ranges()),
        Some(CodeEntryDescription::MutEnter(0x40_1000))
    );
}

#[test]
fn mutation_entry_when_no_function_is_known_at_the_destination() {
    let bv = view(Vec::new());
    let f = jumper(0x40_1000, 0x40_1000, DEST);
    assert_eq!(
        search_for_themida_code_entries(&bv, &f, &ranges()),
        Some(CodeEntryDescription::MutEnter(0x40_1000))
    );
}

#[test]
fn mutation_entry_when_the_destination_does_not_lift() {
    let bv = view(vec![function(DEST, None)]);
    let f = jumper(0x40_1000, 0x40_1000, DEST);
    assert_eq!(
        search_for_themida_code_entries(&bv, &f, &ranges()),
        Some(CodeEntryDescription::MutEnter(0x40_1000))
    );
}

#[test]
fn vm_entry_with_two_functions_at_the_destination() {
    let bv = view(vec![plain(DEST), function(DEST, None), vm_enter(DEST)]);
    let f = jumper(0x40_1000, 0x40_1000, DEST);
    assert_eq!(
        search_for_themida_code_entries(&bv, &f, &ranges()),
        Some(CodeEntryDescription::VMEnter(0x40_1000))
    );
}

#[test]
fn classifying_twice_gives_the_same_result() {
    let bv = view(vec![vm_enter(DEST), plain(0x40_6000)]);
    let r = ranges();
    for f in [jumper(0x40_1000, 0x40_1000, DEST), jumper(0x40_2000, 0x40_2000, 0x40_6000), plain(0x40_3000)] {
        let first = search_for_themida_code_entries(&bv, &f, &r);
        let second = search_for_themida_code_entries(&bv, &f, &r);
        assert_eq!(first, second);
    }
}

#[test]
fn function_inside_a_protector_range_is_no_entry() {
    let bv = view(vec![vm_enter(DEST)]);
    let f = jumper(0x40_4000, 0x40_4000, DEST);
    assert_eq!(search_for_themida_code_entries(&bv, &f, &ranges()), None);
    let f = jumper(0x40_7fff, 0x40_7fff, DEST);
    assert_eq!(search_for_themida_code_entries(&bv, &f, &ranges()), None);
    // the end of the range is outside
    let f = jumper(0x40_8000, 0x40_8000, DEST);
    assert_eq!(
        search_for_themida_code_entries(&bv, &f, &ranges()),
        Some(CodeEntryDescription::VMEnter(0x40_8000))
    );
}

#[test]
fn first_instruction_that_is_no_tail_call_is_no_entry() {
    let bv = view(vec![vm_enter(DEST)]);
    let f = function(0x40_1000, Some(il(vec![vec![ins(0x40_1000, InstrInfo::Jump(ExprInfo::ConstPtr(DEST)))]])));
    assert_eq!(search_for_themida_code_entries(&bv, &f, &ranges()), None);
    let f = function(0x40_1000, Some(il(vec![vec![ins(0x40_1000, InstrInfo::Push(ExprInfo::ConstPtr(DEST)))]])));
    assert_eq!(search_for_themida_code_entries(&bv, &f, &ranges()), None);
    assert_eq!(search_for_themida_code_entries(&bv, &plain(0x40_1000), &ranges()), None);
}

#[test]
fn tail_call_in_a_later_instruction_or_block_is_not_seen() {
    let bv = view(vec![vm_enter(DEST)]);
    let f = function(
        0x40_1000,
        Some(il(vec![vec![
            ins(0x40_1000, InstrInfo::Other),
            ins(0x40_1001, InstrInfo::TailCall(ExprInfo::ConstPtr(DEST))),
        ]])),
    );
    assert_eq!(search_for_themida_code_entries(&bv, &f, &ranges()), None);
    let f = function(
        0x40_1000,
        Some(il(vec![
            vec![ins(0x40_1000, InstrInfo::Other)],
            vec![ins(0x40_1001, InstrInfo::TailCall(ExprInfo::ConstPtr(DEST)))],
        ])),
    );
    assert_eq!(search_for_themida_code_entries(&bv, &f, &ranges()), None);
}

#[test]
fn tail_call_to_a_computed_target_is_no_entry() {
    let bv = view(vec![vm_enter(DEST)]);
    let f = function(0x40_1000, Some(il(vec![vec![ins(0x40_1000, InstrInfo::TailCall(ExprInfo::Reg(2)))]])));
    assert_eq!(search_for_themida_code_entries(&bv, &f, &ranges()), None);
    let f = function(
        0x40_1000,
        Some(il(vec![vec![ins(
            0x40_1000,
            InstrInfo::TailCall(ExprInfo::Load(Box::new(ExprInfo::ConstPtr(DEST)))),
        )]])),
    );
    assert_eq!(search_for_themida_code_entries(&bv, &f, &ranges()), None);
}

#[test]
fn tail_call_outside_the_protector_ranges_is_no_entry() {
    let bv = view(vec![vm_enter(0x40_8000), vm_enter(0x40_3fff)]);
    let f = jumper(0x40_1000, 0x40_1000, 0x40_8000);
    assert_eq!(search_for_themida_code_entries(&bv, &f, &ranges()), None);
    let f = jumper(0x40_1000, 0x40_1000, 0x40_3fff);
    assert_eq!(search_for_themida_code_entries(&bv, &f, &ranges()), None);
}

#[test]
fn no_ranges_no_entry() {
    let bv = view(vec![vm_enter(DEST)]);
    let none: Vec<AddressRange> = Vec::new();
    assert_eq!(search_for_themida_code_entries(&bv, &jumper(0x40_1000, 0x40_1000, DEST), &none), None);
    assert_eq!(search_for_themida_code_entries(&bv, &vm_enter(DEST), &none), None);
    assert_eq!(search_for_themida_code_entries(&bv, &plain(0), &none), None);
}

#[test]
fn function_that_does_not_lift_is_no_entry() {
    let bv = view(vec![vm_enter(DEST)]);
    assert_eq!(search_for_themida_code_entries(&bv, &function(0x40_1000, None), &ranges()), None);
}

#[test]
fn function_without_blocks_or_instructions_is_no_entry() {
    let bv = view(vec![vm_enter(DEST)]);
    assert_eq!(search_for_themida_code_entries(&bv, &function(0x40_1000, Some(il(Vec::new()))), &ranges()), None);
    assert_eq!(
        search_for_themida_code_entries(&bv, &function(0x40_1000, Some(il(vec![Vec::new()]))), &ranges()),
        None
    );
}

fn whole_binary() -> BinaryView {
    BinaryView {
        sections: vec![
            Section { name: String::from(".text"), start: 0x40_1000, end: 0x40_4000 },
            Section { name: String::from(".themida"), start: 0x40_4000, end: 0x40_8000 },
            Section { name: String::from(".bootx"), start: 0x40_9000, end: 0x40_a000 },
        ],
        functions: vec![
            jumper(0x40_1000, 0x40_1000, DEST),
            plain(0x40_1100),
            jumper(0x40_1200, 0x40_1200, 0x40_6000),
            vm_enter(DEST),
            function(0x40_1300, None),
            jumper(0x40_4100, 0x40_4100, DEST),
            jumper(0x40_1400, 0x40_1400, 0x40_9000),
            plain(DEST),
            jumper(0x40_1500, 0x40_1500, DEST),
        ],
    }
}

#[test]
fn action_reports_each_entry_once_and_in_order() {
    let bv = whole_binary();
    assert_eq!(
        ThemidaSpotterCommand.action(&bv),
        vec![
            CodeEntry { function: 0, description: CodeEntryDescription::VMEnter(0x40_1000) },
            CodeEntry { function: 2, description: CodeEntryDescription::MutEnter(0x40_1200) },
            CodeEntry { function: 8, description: CodeEntryDescription::VMEnter(0x40_1500) },
        ]
    );
}

#[test]
fn action_never_reports_a_function_of_the_protector() {
    let bv = whole_binary();
    for entry in ThemidaSpotterCommand.action(&bv) {
        let start = bv.functions[entry.function].start;
        assert!(!(0x40_4000..0x40_8000).contains(&start));
    }
}

#[test]
fn action_on_a_binary_without_protector_sections_reports_nothing() {
    let mut bv = whole_binary();
    bv.sections = vec![Section { name: String::from(".text"), start: 0x40_1000, end: 0x40_8000 }];
    assert_eq!(ThemidaSpotterCommand.action(&bv), Vec::new());
    bv.sections = Vec::new();
    assert_eq!(ThemidaSpotterCommand.action(&bv), Vec::new());
}

#[test]
fn scan_agrees_with_the_classifier_on_each_function() {
    let bv = whole_binary();
    let r = ranges();
    let report = search_for_code_entries(&bv, &r);
    let mut expected: Vec<CodeEntry> = Vec::new();
    for (function, f) in bv.functions.iter().enumerate() {
        if let Some(description) = search_for_themida_code_entries(&bv, f, &r) {
            expected.push(CodeEntry { function, description });
        }
    }
    assert_eq!(report, expected);
    assert_eq!(report.len(), 3);
}

#[test]
fn scan_of_no_functions_is_empty() {
    let bv = view(Vec::new());
    assert_eq!(search_for_code_entries(&bv, &ranges()), Vec::new());
}

#[test]
fn command_is_valid_for_every_binary() {
    assert!(ThemidaSpotterCommand.valid(&view(Vec::new())));
    assert!(ThemidaSpotterCommand.valid(&whole_binary()));
}
