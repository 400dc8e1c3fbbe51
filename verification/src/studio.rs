//! Decisions of the morphology studio: editing mode, gizmo keys, which list
//! rows and which body are selected, and the on-screen instructions.
use vstd::prelude::*;

verus! {

/// Whether the studio edits the morphology or previews it under physics.
#[derive(Clone, Copy, Debug, PartialEq, Eq, Structural)]
pub enum StudioMode {
    Edit,
    Simulating,
}

impl Default for StudioMode {
    fn default() -> (mode: Self)
        ensures
            mode == StudioMode::Edit,
    {
        StudioMode::Edit
    }
}

/// The body or joint picked in the hierarchy lists or the viewport (`Nothing` when none is).
#[derive(Clone, Debug)]
pub enum StudioSelection {
    Nothing,
    Body(String),
    Joint(String),
}

/// What the transform gizmo edits.
#[derive(Clone, Copy, Debug, PartialEq, Eq, Structural)]
pub enum GizmoMode {
    Translate,
    Rotate,
    Scale,
}

/// The frame the transform gizmo works in.
#[derive(Clone, Copy, Debug, PartialEq, Eq, Structural)]
pub enum GizmoSpace {
    World,
    Local,
}

/// Keys of one frame: those just pressed, and whether a Ctrl key is held.
#[derive(Clone, Copy, Debug)]
pub struct GizmoKeys {
    pub digit1: bool,
    pub digit2: bool,
    pub digit3: bool,
    pub key_x: bool,
    pub key_s: bool,
    pub ctrl_held: bool,
}

/// Gizmo settings after a frame's keys, and what the frame asks for.
#[derive(Clone, Copy, Debug, PartialEq, Eq, Structural)]
pub struct GizmoKeyOutcome {
    pub mode: GizmoMode,
    pub space: GizmoSpace,
    /// Mode or space changed: bake the focused body's scale and refresh the instructions.
    pub settings_changed: bool,
    /// Ctrl+S: bake the focused body's scale and save the document.
    pub save: bool,
}

/// The other gizmo space.
pub open spec fn toggled_space(space: GizmoSpace) -> GizmoSpace {
    match space {
        GizmoSpace::World => GizmoSpace::Local,
        GizmoSpace::Local => GizmoSpace::World,
    }
}

/// `1`, `2` and `3` pick translate, rotate and scale (the highest pressed
/// wins), `X` toggles the space, Ctrl+S saves.
pub open spec fn spec_gizmo_keys(mode: GizmoMode, space: GizmoSpace, keys: GizmoKeys) -> GizmoKeyOutcome {
    GizmoKeyOutcome {
        mode: if keys.digit3 {
            GizmoMode::Scale
        } else if keys.digit2 {
            GizmoMode::Rotate
        } else if keys.digit1 {
            GizmoMode::Translate
        } else {
            mode
        },
        space: if keys.key_x { toggled_space(space) } else { space },
        settings_changed: keys.digit1 || keys.digit2 || keys.digit3 || keys.key_x,
        save: keys.key_s && keys.ctrl_held,
    }
}

/// Applies one frame's keys to the gizmo settings.
pub fn gizmo_key_outcome(mode: GizmoMode, space: GizmoSpace, keys: GizmoKeys) -> (outcome: GizmoKeyOutcome)
    ensures
        outcome == spec_gizmo_keys(mode, space, keys),
        keys.key_x ==> outcome.space != space,
        !keys.key_x ==> outcome.space == space,
        outcome.save == (keys.key_s && keys.ctrl_held),
{
    let mut mode = mode;
    let mut space = space;
    let mut settings_changed = false;
    if keys.digit1 {
        mode = GizmoMode::Translate;
        settings_changed = true;
    }
    if keys.digit2 {
        mode = GizmoMode::Rotate;
        settings_changed = true;
    }
    if keys.digit3 {
        mode = GizmoMode::Scale;
        settings_changed = true;
    }
    if keys.key_x {
        space = match space {
            GizmoSpace::World => GizmoSpace::Local,
            GizmoSpace::Local => GizmoSpace::World,
        };
        settings_changed = true;
    }
    let save = keys.key_s && keys.ctrl_held;
    GizmoKeyOutcome { mode, space, settings_changed, save }
}

/// How a list row's selected state changes.
#[derive(Clone, Copy, Debug, PartialEq, Eq, Structural)]
pub enum RowUpdate {
    Select,
    Deselect,
    Keep,
}

/// The row named `row_name` is the one named `selected_name`.
pub open spec fn row_is_selected(selected_name: Option<Seq<char>>, row_name: Seq<char>) -> bool {
    selected_name matches Some(name) && name == row_name
}

/// Update of a row that is `selected` now when the row named `selected_name`
/// (if any) is to be the selected one.
pub fn row_update(selected_name: Option<&str>, row_name: &str, selected: bool) -> (update: RowUpdate)
    ensures
        ({
            let target = match selected_name {
                Some(name) => Some(name@),
                None => None,
            };
            let should_select = row_is_selected(target, row_name@);
            update == if should_select && !selected {
                RowUpdate::Select
            } else if !should_select && selected {
                RowUpdate::Deselect
            } else {
                RowUpdate::Keep
            }
        }),
{
    let should_select = match selected_name {
        Some(name) => String::from_str(name) == String::from_str(row_name),
        None => false,
    };
    if should_select && !selected {
        RowUpdate::Select
    } else if !should_select && selected {
        RowUpdate::Deselect
    } else {
        RowUpdate::Keep
    }
}

/// What the lists and the gizmo show for a selection: the body row, the joint
/// row, and the body that receives the gizmo focus.
#[derive(Clone, Debug)]
pub struct SelectionTargets {
    pub body_row: Option<String>,
    pub joint_row: Option<String>,
    pub focus_body: Option<String>,
}

/// Targets of `selection` in `mode`: nothing outside edit mode; a selected
/// body marks its row and takes the gizmo; a selected joint marks its row.
pub open spec fn spec_selection_targets(mode: StudioMode, selection: StudioSelection) -> (
    Option<Seq<char>>,
    Option<Seq<char>>,
    Option<Seq<char>>,
) {
    if mode != StudioMode::Edit {
        (None, None, None)
    } else {
        match selection {
            StudioSelection::Nothing => (None, None, None),
            StudioSelection::Body(name) => (Some(name@), None, Some(name@)),
            StudioSelection::Joint(name) => (None, Some(name@), None),
        }
    }
}

/// The text of an optional string.
pub open spec fn text_of(text: Option<String>) -> Option<Seq<char>> {
    match text {
        Some(t) => Some(t@),
        None => None,
    }
}

/// Selection display after a frame: `None` when neither the selection nor
/// the mode changed (nothing to redo); otherwise the gizmo focus is cleared
/// and these targets are applied.
pub fn selection_targets(changed: bool, mode: StudioMode, selection: &StudioSelection) -> (targets: Option<
    SelectionTargets,
>)
    ensures
        match targets {
            None => !changed,
            Some(t) => changed && (text_of(t.body_row), text_of(t.joint_row), text_of(t.focus_body))
                == spec_selection_targets(mode, *selection),
        },
{
    if !changed {
        return None;
    }
    if mode != StudioMode::Edit {
        return Some(SelectionTargets { body_row: None, joint_row: None, focus_body: None });
    }
    match selection {
        StudioSelection::Nothing => Some(SelectionTargets { body_row: None, joint_row: None, focus_body: None }),
        StudioSelection::Body(name) => Some(
            SelectionTargets { body_row: Some(name.clone()), joint_row: None, focus_body: Some(name.clone()) },
        ),
        StudioSelection::Joint(name) => Some(
            SelectionTargets { body_row: None, joint_row: Some(name.clone()), focus_body: None },
        ),
    }
}

/// Leaving edit mode drops the selection.
pub fn clear_selection_on_mode_change(selection: &mut StudioSelection, mode_changed: bool, mode: StudioMode)
    ensures
        *final(selection) == if mode_changed && mode != StudioMode::Edit {
            StudioSelection::Nothing
        } else {
            *old(selection)
        },
{
    if mode_changed && mode != StudioMode::Edit {
        *selection = StudioSelection::Nothing;
    }
}

/// Instructions shown in edit mode, up to the gizmo mode.
pub const EDIT_INSTRUCTIONS: &'static str = "Morphology studio\nMode: edit\n\nBodies / Joints lists\nClick body: gizmo edit\nClick joint: anchors\n(A red, B blue)\n\n1 Translate\n2 Rotate\n3 Scale (dimensions)\nX World / Local\n\nLeft-drag orbit\nRight-drag pan\nScroll zoom\nCtrl+S Save\n\nGizmo: ";

/// Line that introduces the gizmo space in edit mode.
pub const SPACE_LINE: &'static str = "\nSpace: ";

/// Instructions shown while simulating.
pub const SIMULATING_INSTRUCTIONS: &'static str = "Morphology studio\nMode: simulating (no policy)\n\nPassive physics preview\nunder gravity\n\nLeft-drag orbit\nRight-drag pan\nScroll zoom\n\nReset returns to edit";

/// Label of a gizmo mode.
pub open spec fn mode_label_text(mode: GizmoMode) -> Seq<char> {
    match mode {
        GizmoMode::Translate => "Translate"@,
        GizmoMode::Rotate => "Rotate"@,
        GizmoMode::Scale => "Scale (dimensions)"@,
    }
}

/// Label of a gizmo space.
pub open spec fn space_label_text(space: GizmoSpace) -> Seq<char> {
    match space {
        GizmoSpace::World => "World"@,
        GizmoSpace::Local => "Local"@,
    }
}

/// Label of a gizmo mode.
pub fn gizmo_mode_label(mode: GizmoMode) -> (label: &'static str)
    ensures
        label@ == mode_label_text(mode),
{
    match mode {
        GizmoMode::Translate => "Translate",
        GizmoMode::Rotate => "Rotate",
        GizmoMode::Scale => "Scale (dimensions)",
    }
}

/// Label of a gizmo space.
pub fn gizmo_space_label(space: GizmoSpace) -> (label: &'static str)
    ensures
        label@ == space_label_text(space),
{
    match space {
        GizmoSpace::World => "World",
        GizmoSpace::Local => "Local",
    }
}

/// On-screen instructions for the studio mode and gizmo settings.
pub fn instructions_text(studio_mode: StudioMode, gizmo_mode: GizmoMode, space: GizmoSpace) -> (text: String)
    ensures
        text@ == match studio_mode {
            StudioMode::Edit => EDIT_INSTRUCTIONS@ + mode_label_text(gizmo_mode) + SPACE_LINE@ + space_label_text(
                space,
            ),
            StudioMode::Simulating => SIMULATING_INSTRUCTIONS@,
        },
{
    match studio_mode {
        StudioMode::Edit => {
            let mut text = String::from_str(EDIT_INSTRUCTIONS);
            text.append(gizmo_mode_label(gizmo_mode));
            text.append(SPACE_LINE);
            text.append(gizmo_space_label(space));
            text
        },
        StudioMode::Simulating => String::from_str(SIMULATING_INSTRUCTIONS),
    }
}

/// `X` toggles the gizmo space and nothing else does; `3`, `2` and `1` pick
/// scale, rotate and translate (the highest wins) and no other key changes
/// the mode; the settings count as changed exactly when one of these keys was
/// pressed; Ctrl+S and only Ctrl+S saves.
pub proof fn lemma_gizmo_keys(mode: GizmoMode, space: GizmoSpace, keys: GizmoKeys)
    ensures
        ({
            let o = spec_gizmo_keys(mode, space, keys);
            &&& keys.key_x ==> o.space != space
            &&& !keys.key_x ==> o.space == space
            &&& keys.digit3 ==> o.mode == GizmoMode::Scale
            &&& !keys.digit3 && keys.digit2 ==> o.mode == GizmoMode::Rotate
            &&& !keys.digit3 && !keys.digit2 && keys.digit1 ==> o.mode == GizmoMode::Translate
            &&& !keys.digit1 && !keys.digit2 && !keys.digit3 ==> o.mode == mode
            &&& o.settings_changed == (keys.digit1 || keys.digit2 || keys.digit3 || keys.key_x)
            &&& o.save == (keys.key_s && keys.ctrl_held)
        }),
        spec_gizmo_keys(
            spec_gizmo_keys(mode, space, keys).mode,
            spec_gizmo_keys(mode, space, keys).space,
            GizmoKeys { key_x: true, ..keys },
        ).space == if keys.key_x {
            space
        } else {
            toggled_space(space)
        },
{
}

/// Outside edit mode nothing is shown as selected; in edit mode a selected
/// body marks only its own row and alone takes the gizmo, a selected joint
/// marks only its own row, and no selection marks nothing.
pub proof fn lemma_selection_shows_only_the_selected(mode: StudioMode, name: String)
    ensures
        mode != StudioMode::Edit ==> spec_selection_targets(mode, StudioSelection::Body(name)) == (
            None::<Seq<char>>,
            None::<Seq<char>>,
            None::<Seq<char>>,
        ) && spec_selection_targets(mode, StudioSelection::Joint(name)) == (
            None::<Seq<char>>,
            None::<Seq<char>>,
            None::<Seq<char>>,
        ),
        spec_selection_targets(StudioMode::Edit, StudioSelection::Body(name)) == (
            Some(name@),
            None::<Seq<char>>,
            Some(name@),
        ),
        spec_selection_targets(StudioMode::Edit, StudioSelection::Joint(name)) == (
            None::<Seq<char>>,
            Some(name@),
            None::<Seq<char>>,
        ),
        spec_selection_targets(mode, StudioSelection::Nothing) == (
            None::<Seq<char>>,
            None::<Seq<char>>,
            None::<Seq<char>>,
        ),
{
}
} // verus!
