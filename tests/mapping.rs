use lpd8_obs::action::{Action, ConditionalAction, Volume};
use lpd8_obs::input::{Input, Lpd8Message};
use lpd8_obs::mapping::{build_cc_mappings, build_pc_mappings, MappingError, MappingTable, Mappings};

fn scene(name: &str) -> Action {
    Action::SetScene { name: name.to_string() }
}

fn on(value: Option<u8>, action: Action) -> ConditionalAction {
    ConditionalAction { on: value, action }
}

#[test]
fn specific_value_takes_precedence_over_default() {
    let blocks = vec![vec![
        (Input::Knob1, on(Some(64), scene("Specific"))),
        (Input::Knob2, on(None, scene("Other"))),
    ], vec![(Input::Knob1, on(None, scene("Default")))]];
    let grouped = build_cc_mappings(blocks).unwrap();
    let knob1 = grouped.get(&Input::Knob1.index()).unwrap();
    assert_eq!(knob1.get(64), Some(&scene("Specific")));
    assert_eq!(knob1.get(1), Some(&scene("Default")));
    let knob3 = grouped.get(&Input::Knob3.index());
    assert!(knob3.is_none());
}

#[test]
fn nothing_resolves_without_entry_or_default() {
    let mappings = Mappings {
        program_changes: vec![],
        control_changes: vec![vec![(Input::Knob1, on(Some(64), scene("Specific")))]],
    };
    let table = MappingTable::new(mappings).unwrap();
    assert_eq!(
        table.resolve(&Lpd8Message::ControlChange(Input::Knob1, 64)),
        Some((&scene("Specific"), 64))
    );
    assert_eq!(table.resolve(&Lpd8Message::ControlChange(Input::Knob1, 1)), None);
    assert_eq!(table.resolve(&Lpd8Message::ControlChange(Input::Knob2, 64)), None);
}

#[test]
fn duplicate_value_across_blocks_fails() {
    let blocks = vec![
        vec![(Input::Knob1, on(Some(5), scene("A")))],
        vec![(Input::Knob2, on(Some(5), scene("B")))],
        vec![(Input::Knob1, on(Some(5), scene("C")))],
    ];
    assert_eq!(
        build_cc_mappings(blocks).unwrap_err(),
        MappingError::DuplicateControlChange { input: Input::Knob1, on: Some(5) }
    );
}

#[test]
fn duplicate_default_fails() {
    let blocks = vec![
        vec![(Input::Pad3, on(None, scene("A")))],
        vec![(Input::Pad3, on(None, scene("B")))],
    ];
    assert_eq!(
        build_cc_mappings(blocks).unwrap_err(),
        MappingError::DuplicateControlChange { input: Input::Pad3, on: None }
    );
}

#[test]
fn first_repetition_is_reported() {
    let blocks = vec![
        vec![(Input::Knob1, on(Some(1), scene("A"))), (Input::Knob2, on(None, scene("B")))],
        vec![(Input::Knob2, on(None, scene("C"))), (Input::Knob1, on(Some(1), scene("D")))],
    ];
    assert_eq!(
        build_cc_mappings(blocks).unwrap_err(),
        MappingError::DuplicateControlChange { input: Input::Knob2, on: None }
    );
}

#[test]
fn duplicate_program_change_fails() {
    let entries = vec![(Input::Pad1, scene("A")), (Input::Pad2, scene("B")), (Input::Pad1, scene("C"))];
    assert_eq!(
        build_pc_mappings(entries).unwrap_err(),
        MappingError::DuplicateProgramChange { input: Input::Pad1 }
    );
    let mappings = Mappings {
        program_changes: vec![(Input::Pad2, scene("A")), (Input::Pad2, scene("B"))],
        control_changes: vec![vec![(Input::Knob1, on(None, scene("A")))], vec![(Input::Knob1, on(None, scene("B")))]],
    };
    assert_eq!(
        MappingTable::new(mappings).unwrap_err(),
        MappingError::DuplicateProgramChange { input: Input::Pad2 }
    );
}

#[test]
fn distinct_entries_build_a_table() {
    let mappings = Mappings {
        program_changes: vec![(Input::Pad1, scene("A")), (Input::Pad2, scene("B"))],
        control_changes: vec![
            vec![(Input::Knob1, on(Some(0), scene("Zero")))],
            vec![(Input::Knob1, on(Some(127), scene("Top")))],
            vec![(Input::Knob1, on(None, Action::SetVolume { name: "Mic".to_string(), value: Volume::Pass }))],
        ],
    };
    let table = MappingTable::new(mappings).unwrap();
    assert_eq!(table.resolve(&Lpd8Message::ProgramChange(Input::Pad1)), Some((&scene("A"), 0)));
    assert_eq!(table.resolve(&Lpd8Message::ProgramChange(Input::Pad2)), Some((&scene("B"), 0)));
    assert_eq!(table.resolve(&Lpd8Message::ProgramChange(Input::Pad3)), None);
    assert_eq!(table.resolve(&Lpd8Message::ControlChange(Input::Knob1, 0)), Some((&scene("Zero"), 0)));
    assert_eq!(table.resolve(&Lpd8Message::ControlChange(Input::Knob1, 127)), Some((&scene("Top"), 127)));
    assert_eq!(
        table.resolve(&Lpd8Message::ControlChange(Input::Knob1, 33)),
        Some((&Action::SetVolume { name: "Mic".to_string(), value: Volume::Pass }, 33))
    );
}

#[test]
fn empty_configuration_builds_an_empty_table() {
    let table = MappingTable::new(Mappings { program_changes: vec![], control_changes: vec![] }).unwrap();
    assert_eq!(table.resolve(&Lpd8Message::ProgramChange(Input::Pad1)), None);
    assert_eq!(table.resolve(&Lpd8Message::ControlChange(Input::Knob8, 9)), None);
}

#[test]
fn grouped_table_holds_only_named_controls() {
    let blocks = vec![
        vec![(Input::Knob1, on(Some(64), scene("A")))],
        vec![(Input::Knob1, on(None, Action::ToggleInput { name: "Mic".to_string() }))],
    ];
    let grouped = build_cc_mappings(blocks).unwrap();
    assert_eq!(grouped.len(), 1);
    let knob1 = grouped.get(&Input::Knob1.index()).unwrap();
    assert_eq!(knob1.by_value.len(), 1);
    assert_eq!(knob1.by_value.get(&64), Some(&scene("A")));
    assert_eq!(knob1.default, Some(Action::ToggleInput { name: "Mic".to_string() }));
}

#[test]
fn no_blocks_give_an_empty_table() {
    assert!(build_cc_mappings(vec![]).unwrap().is_empty());
    assert!(build_cc_mappings(vec![vec![], vec![]]).unwrap().is_empty());
    assert!(build_pc_mappings(vec![]).unwrap().is_empty());
}

#[test]
fn block_order_does_not_change_the_table() {
    let make = || {
        vec![
            vec![(Input::Knob1, on(Some(1), scene("A"))), (Input::Pad2, on(None, scene("B")))],
            vec![(Input::Knob1, on(None, scene("C")))],
        ]
    };
    let forward = build_cc_mappings(make()).unwrap();
    let mut reversed_blocks = make();
    reversed_blocks.reverse();
    let reversed = build_cc_mappings(reversed_blocks).unwrap();
    let mut keys: Vec<u8> = forward.keys().copied().collect();
    let mut other_keys: Vec<u8> = reversed.keys().copied().collect();
    keys.sort();
    other_keys.sort();
    assert_eq!(keys, vec![Input::Pad2.index(), Input::Knob1.index()]);
    assert_eq!(keys, other_keys);
    for k in keys {
        let a = forward.get(&k).unwrap();
        let b = reversed.get(&k).unwrap();
        assert_eq!(a.by_value, b.by_value);
        assert_eq!(a.default, b.default);
    }
}

#[test]
fn program_change_table_holds_only_named_pads() {
    let table = build_pc_mappings(vec![(Input::Pad4, scene("A")), (Input::Pad1, scene("B"))]).unwrap();
    let mut keys: Vec<u8> = table.keys().copied().collect();
    keys.sort();
    assert_eq!(keys, vec![0, 3]);
}
