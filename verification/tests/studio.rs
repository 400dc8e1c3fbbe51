use bevy_rl::studio::{
    clear_selection_on_mode_change, gizmo_key_outcome, instructions_text, row_update, selection_targets, GizmoKeyOutcome,
    GizmoKeys, GizmoMode, GizmoSpace, RowUpdate, StudioMode, StudioSelection,
};

fn keys() -> GizmoKeys {
    GizmoKeys { digit1: false, digit2: false, digit3: false, key_x: false, key_s: false, ctrl_held: false }
}

#[test]
fn studio_starts_in_edit_mode() {
    assert_eq!(StudioMode::default(), StudioMode::Edit);
}

#[test]
fn digit_keys_pick_the_gizmo_mode() {
    let outcome = gizmo_key_outcome(GizmoMode::Translate, GizmoSpace::World, GizmoKeys { digit2: true, ..keys() });
    assert_eq!(
        outcome,
        GizmoKeyOutcome { mode: GizmoMode::Rotate, space: GizmoSpace::World, settings_changed: true, save: false }
    );
    let outcome = gizmo_key_outcome(GizmoMode::Rotate, GizmoSpace::World, GizmoKeys { digit1: true, digit3: true, ..keys() });
    assert_eq!(outcome.mode, GizmoMode::Scale);
}

#[test]
fn x_toggles_the_gizmo_space() {
    let outcome = gizmo_key_outcome(GizmoMode::Scale, GizmoSpace::Local, GizmoKeys { key_x: true, ..keys() });
    assert_eq!(
        outcome,
        GizmoKeyOutcome { mode: GizmoMode::Scale, space: GizmoSpace::World, settings_changed: true, save: false }
    );
}

#[test]
fn ctrl_s_saves_without_changing_settings() {
    let outcome = gizmo_key_outcome(GizmoMode::Rotate, GizmoSpace::World, GizmoKeys { key_s: true, ctrl_held: true, ..keys() });
    assert_eq!(
        outcome,
        GizmoKeyOutcome { mode: GizmoMode::Rotate, space: GizmoSpace::World, settings_changed: false, save: true }
    );
    let plain_s = gizmo_key_outcome(GizmoMode::Rotate, GizmoSpace::World, GizmoKeys { key_s: true, ..keys() });
    assert!(!plain_s.save);
}

#[test]
fn rows_follow_the_selected_name() {
    assert_eq!(row_update(Some("torso"), "torso", false), RowUpdate::Select);
    assert_eq!(row_update(Some("torso"), "torso", true), RowUpdate::Keep);
    assert_eq!(row_update(Some("head"), "torso", true), RowUpdate::Deselect);
    assert_eq!(row_update(None, "torso", true), RowUpdate::Deselect);
    assert_eq!(row_update(None, "torso", false), RowUpdate::Keep);
}

#[test]
fn body_selection_marks_its_row_and_takes_the_gizmo() {
    let targets = selection_targets(true, StudioMode::Edit, &StudioSelection::Body("head".to_string())).unwrap();
    assert_eq!(targets.body_row.as_deref(), Some("head"));
    assert_eq!(targets.joint_row, None);
    assert_eq!(targets.focus_body.as_deref(), Some("head"));
}

#[test]
fn joint_selection_marks_only_its_row() {
    let targets = selection_targets(true, StudioMode::Edit, &StudioSelection::Joint("neck".to_string())).unwrap();
    assert_eq!(targets.body_row, None);
    assert_eq!(targets.joint_row.as_deref(), Some("neck"));
    assert_eq!(targets.focus_body, None);
}

#[test]
fn nothing_is_shown_while_simulating_or_unchanged() {
    let simulating = selection_targets(true, StudioMode::Simulating, &StudioSelection::Body("head".to_string())).unwrap();
    assert_eq!((simulating.body_row, simulating.joint_row, simulating.focus_body), (None, None, None));
    assert!(selection_targets(false, StudioMode::Edit, &StudioSelection::Body("head".to_string())).is_none());
}

#[test]
fn leaving_edit_mode_drops_the_selection() {
    let mut selection = StudioSelection::Body("head".to_string());
    clear_selection_on_mode_change(&mut selection, true, StudioMode::Simulating);
    assert!(matches!(selection, StudioSelection::Nothing));
    let mut kept = StudioSelection::Joint("neck".to_string());
    clear_selection_on_mode_change(&mut kept, true, StudioMode::Edit);
    assert!(matches!(kept, StudioSelection::Joint(ref name) if name == "neck"));
}

#[test]
fn edit_instructions_name_gizmo_mode_and_space() {
    let text = instructions_text(StudioMode::Edit, GizmoMode::Scale, GizmoSpace::Local);
    let expected = "Morphology studio\n\
                    Mode: edit\n\
                    \n\
                    Bodies / Joints lists\n\
                    Click body: gizmo edit\n\
                    Click joint: anchors\n\
                    (A red, B blue)\n\
                    \n\
                    1 Translate\n\
                    2 Rotate\n\
                    3 Scale (dimensions)\n\
                    X World / Local\n\
                    \n\
                    Left-drag orbit\n\
                    Right-drag pan\n\
                    Scroll zoom\n\
                    Ctrl+S Save\n\
                    \n\
                    Gizmo: Scale (dimensions)\n\
                    Space: Local";
    assert_eq!(text, expected);
}

#[test]
fn simulating_instructions_are_fixed() {
    let text = instructions_text(StudioMode::Simulating, GizmoMode::Translate, GizmoSpace::World);
    assert_eq!(
        text,
        "Morphology studio\nMode: simulating (no policy)\n\nPassive physics preview\nunder gravity\n\nLeft-drag orbit\nRight-drag pan\nScroll zoom\n\nReset returns to edit"
    );
}
