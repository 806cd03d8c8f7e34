use scene_handler_library::DataState;
use scene_handler_library::GlbComponents;
use scene_handler_library::LoadPhase;
use scene_handler_library::setup_glb;

#[test]
fn fresh_state_is_unloaded() {
    let s = DataState::new();
    assert_eq!(s.phase, LoadPhase::Unloaded);
    assert!(!s.loaded());
    assert!(!s.parsed());
}

#[test]
fn load_then_parse_advances_forward() {
    let mut s = DataState::new();
    s.set_loaded_true();
    assert_eq!(s.phase, LoadPhase::Loaded);
    assert!(s.loaded());
    assert!(!s.parsed());
    s.set_parsed_true();
    assert_eq!(s.phase, LoadPhase::Parsed);
    assert!(s.loaded());
    assert!(s.parsed());
}

#[test]
fn parse_without_load_is_guarded() {
    let mut s = DataState::new();
    s.set_parsed_true();
    assert_eq!(s.phase, LoadPhase::Unloaded);
    assert!(!s.parsed());
}

#[test]
fn load_after_parse_stays_parsed() {
    let mut s = DataState::new();
    s.set_loaded_true();
    s.set_parsed_true();
    s.set_loaded_true();
    assert_eq!(s.phase, LoadPhase::Parsed);
}

#[test]
fn reset_clears_both_marks() {
    let mut s = DataState::new();
    s.set_loaded_true();
    s.set_parsed_true();
    s.set_false();
    assert_eq!(s.phase, LoadPhase::Unloaded);
    assert!(!s.loaded());
    assert!(!s.parsed());
}

#[test]
fn registry_keeps_insertion_order() {
    let mut reg = GlbComponents::new();
    assert_eq!(reg.get_entities().len(), 0);
    reg.add_entity(7);
    reg.add_entity(3);
    reg.add_entity(7);
    assert_eq!(reg.get_entities().as_slice(), &[7, 3, 7]);
}

#[test]
fn registry_membership_lookup() {
    let mut reg = GlbComponents::new();
    assert!(!reg.contains_entity(1));
    reg.add_entity(1);
    reg.add_entity(2);
    assert!(reg.contains_entity(1));
    assert!(reg.contains_entity(2));
    assert!(!reg.contains_entity(3));
}

#[test]
fn setup_glb_registers_and_marks_requested() {
    let mut state = DataState::new();
    let mut reg = GlbComponents::new();
    setup_glb(&mut state, &mut reg, 42);
    assert_eq!(state.phase, LoadPhase::Loaded);
    assert_eq!(reg.get_entities().as_slice(), &[42]);
}
