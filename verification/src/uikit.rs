//! The decisions of the UI kit's widgets that do not depend on drawing: the
//! actions they emit, when a press activates them, which colour and
//! accessibility role a sidebar row takes, and the text a select trigger
//! shows.
//!
//! A row, a toggle and a select option all activate the same way: a primary
//! button goes down on the widget (which captures the pointer) and comes up
//! while the widget is still the active one and still under the pointer; an
//! accessibility click activates too; a disabled widget ignores everything.
//! A toggle also flips on a released space bar.

use vstd::prelude::*;

verus! {

/// How a sidebar row presents itself.
#[derive(Debug, Clone, Copy, PartialEq, Eq, Structural)]
pub enum SidebarItemKind {
    /// Top-level navigation row with a leading icon.
    Item,
    /// Indented navigation row with no leading icon.
    Subitem,
    /// Top-level group header: a leading icon and a trailing chevron.
    GroupHeader,
    /// The brand row at the very top.
    Brand,
}

/// Emitted when a sidebar row is activated.
#[derive(Debug, Clone, Copy, PartialEq, Eq, Structural)]
pub struct SidebarActivated;

/// The thin divider between groups of sidebar rows.
#[derive(Debug, Clone, Copy, PartialEq, Eq, Structural)]
pub struct SidebarSeparator;

/// A divider for the sidebar.
pub fn sidebar_separator() -> (s: SidebarSeparator)
    ensures
        s == SidebarSeparator,
{
    SidebarSeparator
}

/// The option a select now has chosen.
#[derive(Debug, Clone, Copy, PartialEq, Eq, Structural)]
pub struct SelectChanged(pub usize);

/// What a select's popup reports to its trigger.
#[derive(Debug, Clone, Copy, PartialEq, Eq, Structural)]
pub enum PopupAction {
    Selected(usize),
    Dismissed,
}

/// The new state a toggle asks for.
#[derive(Debug, Clone, Copy, PartialEq, Eq, Structural)]
pub struct ToggleToggled(pub bool);

/// An opaque colour as its three 8-bit channels.
#[derive(Debug, Clone, Copy, PartialEq, Eq, Structural)]
pub struct Rgb8 {
    pub r: u8,
    pub g: u8,
    pub b: u8,
}

pub open spec fn idle_text() -> Rgb8 {
    Rgb8 { r: 0x3F, g: 0x3F, b: 0x46 }
}

pub open spec fn selected_text() -> Rgb8 {
    Rgb8 { r: 0x0A, g: 0x0A, b: 0x0A }
}

pub open spec fn subitem_text() -> Rgb8 {
    Rgb8 { r: 0x5A, g: 0x5A, b: 0x63 }
}

pub open spec fn brand_text() -> Rgb8 {
    Rgb8 { r: 0x0A, g: 0x0A, b: 0x0A }
}

pub open spec fn spec_text_color(kind: SidebarItemKind, selected: bool) -> Rgb8 {
    match kind {
        SidebarItemKind::Brand => brand_text(),
        SidebarItemKind::Subitem => if selected { selected_text() } else { subitem_text() },
        _ => if selected { selected_text() } else { idle_text() },
    }
}

/// The label colour of a sidebar row: the brand row never changes; a
/// selected row is near-black; an idle sub-item is lighter than an idle row.
pub fn text_color(kind: SidebarItemKind, selected: bool) -> (c: Rgb8)
    ensures
        c == spec_text_color(kind, selected),
{
    match kind {
        SidebarItemKind::Brand => Rgb8 { r: 0x0A, g: 0x0A, b: 0x0A },
        SidebarItemKind::Subitem => if selected {
            Rgb8 { r: 0x0A, g: 0x0A, b: 0x0A }
        } else {
            Rgb8 { r: 0x5A, g: 0x5A, b: 0x63 }
        },
        _ => if selected {
            Rgb8 { r: 0x0A, g: 0x0A, b: 0x0A }
        } else {
            Rgb8 { r: 0x3F, g: 0x3F, b: 0x46 }
        },
    }
}

/// What assistive technology is told a widget is.
#[derive(Debug, Clone, Copy, PartialEq, Eq, Structural)]
pub enum AccessRole {
    Label,
    Button,
    MenuItem,
}

/// The accessibility role of a sidebar row.
pub fn sidebar_role(kind: SidebarItemKind) -> (r: AccessRole)
    ensures
        r == match kind {
            SidebarItemKind::Brand => AccessRole::Label,
            SidebarItemKind::GroupHeader => AccessRole::Button,
            _ => AccessRole::MenuItem,
        },
{
    match kind {
        SidebarItemKind::Brand => AccessRole::Label,
        SidebarItemKind::GroupHeader => AccessRole::Button,
        _ => AccessRole::MenuItem,
    }
}

/// Whether a row's selection really changes, which is when its label is
/// retinted and its highlight animates.
pub fn selection_changes(current: bool, requested: bool) -> (r: bool)
    ensures
        r == (current != requested),
{
    current != requested
}

/// What a widget is told, as far as activation goes.
#[derive(Debug, Clone, Copy, PartialEq, Eq, Structural)]
pub enum WidgetInput {
    /// The primary button went down on the widget.
    PrimaryDown,
    /// The primary button came up; `active` says whether the widget holds
    /// the pointer capture, `hovered` whether the pointer is over it.
    PrimaryUp { active: bool, hovered: bool },
    /// The space bar was released while the widget had focus.
    SpaceReleased,
    /// Assistive technology clicked the widget.
    AccessClick,
    /// Anything else.
    Other,
}

/// What a widget does about an input.
#[derive(Debug, Clone, Copy, PartialEq, Eq, Structural)]
pub struct Response {
    /// Capture the pointer, so the release is seen wherever it happens.
    pub capture: bool,
    /// Emit the widget's action.
    pub activate: bool,
}

pub open spec fn spec_respond(disabled: bool, input: WidgetInput, space_activates: bool) -> Response {
    if disabled {
        Response { capture: false, activate: false }
    } else {
        match input {
            WidgetInput::PrimaryDown => Response { capture: true, activate: false },
            WidgetInput::PrimaryUp { active, hovered } => Response { capture: false, activate: active && hovered },
            WidgetInput::SpaceReleased => Response { capture: false, activate: space_activates },
            WidgetInput::AccessClick => Response { capture: false, activate: true },
            WidgetInput::Other => Response { capture: false, activate: false },
        }
    }
}

/// How a pressable widget responds; `space_activates` says whether the
/// space bar is one of its keys.
pub fn respond(disabled: bool, input: WidgetInput, space_activates: bool) -> (r: Response)
    ensures
        r == spec_respond(disabled, input, space_activates),
{
    if disabled {
        return Response { capture: false, activate: false };
    }
    match input {
        WidgetInput::PrimaryDown => Response { capture: true, activate: false },
        WidgetInput::PrimaryUp { active, hovered } => Response { capture: false, activate: active && hovered },
        WidgetInput::SpaceReleased => Response { capture: false, activate: space_activates },
        WidgetInput::AccessClick => Response { capture: false, activate: true },
        WidgetInput::Other => Response { capture: false, activate: false },
    }
}

/// What a sidebar row emits for an input.
pub fn sidebar_item_input(disabled: bool, input: WidgetInput) -> (a: Option<SidebarActivated>)
    ensures
        a is Some == spec_respond(disabled, input, false).activate,
{
    if respond(disabled, input, false).activate {
        Some(SidebarActivated)
    } else {
        None
    }
}

/// What a toggle emits for an input: always the state opposite to the one
/// it shows.
pub fn toggle_input(checked: bool, disabled: bool, input: WidgetInput) -> (a: Option<ToggleToggled>)
    ensures
        spec_respond(disabled, input, true).activate ==> a == Some(ToggleToggled(!checked)),
        !spec_respond(disabled, input, true).activate ==> a is None,
{
    if respond(disabled, input, true).activate {
        Some(ToggleToggled(!checked))
    } else {
        None
    }
}

/// A widget activates only on a release of the primary button over it
/// while it holds the pointer, on an accessibility click, or on a released
/// space bar where that is one of its keys, and never while disabled. In
/// particular pressing the primary button only captures the pointer.
pub proof fn lemma_what_activates(disabled: bool, input: WidgetInput, space: bool)
    ensures
        spec_respond(disabled, input, space).activate <==> !disabled && match input {
            WidgetInput::PrimaryUp { active, hovered } => active && hovered,
            WidgetInput::AccessClick => true,
            WidgetInput::SpaceReleased => space,
            _ => false,
        },
        !spec_respond(disabled, WidgetInput::PrimaryDown, space).activate,
        spec_respond(disabled, input, space).capture <==> !disabled && input == WidgetInput::PrimaryDown,
{
}

/// A disabled widget never acts, and a release away from the widget, or
/// after another widget took the pointer, never activates it.
pub proof fn lemma_only_a_true_click_activates(input: WidgetInput, space: bool)
    ensures
        !spec_respond(true, input, space).activate && !spec_respond(true, input, space).capture,
        input matches WidgetInput::PrimaryUp { active, hovered } ==> (spec_respond(false, input, space).activate
            <==> active && hovered),
{
}

/// What a select trigger shows: the chosen option's text, or nothing when
/// no option (or one past the end) is chosen.
pub fn trigger_label_text(options: &Vec<String>, selected: Option<usize>) -> (t: String)
    ensures
        match selected {
            Some(i) => if i < options@.len() { t@ == options@[i as int]@ } else { t@.len() == 0 },
            None => t@.len() == 0,
        },
{
    match selected {
        Some(i) => if i < options.len() {
            options[i].clone()
        } else {
            String::new()
        },
        None => String::new(),
    }
}

/// What a click on a popup row, or no row, sends back.
pub fn popup_click(hit: Option<usize>) -> (a: Option<PopupAction>)
    ensures
        match hit {
            Some(i) => a == Some(PopupAction::Selected(i)),
            None => a is None,
        },
{
    match hit {
        Some(i) => Some(PopupAction::Selected(i)),
        None => None,
    }
}

/// What the select view makes of its popup's report: a choice becomes the
/// select's own change, a dismissal closes the popup and changes nothing.
pub fn select_message(action: PopupAction) -> (c: Option<SelectChanged>)
    ensures
        match action {
            PopupAction::Selected(i) => c == Some(SelectChanged(i)),
            PopupAction::Dismissed => c is None,
        },
{
    match action {
        PopupAction::Selected(i) => Some(SelectChanged(i)),
        PopupAction::Dismissed => None,
    }
}

} // verus!
