//! Decisions of the main window: the file names it offers when saving a
//! plan, what closing a plan's page does, and the window size and state it
//! restores.
use vstd::prelude::*;

verus! {

/// How a plan is saved.
#[derive(Clone, Copy, PartialEq, Eq, Structural, Debug)]
pub enum SaveType {
    /// The planner's own format.
    Native,
    /// An export for FlightGear's route manager.
    FgRouteManager,
}

pub open spec fn save_extension_of(t: SaveType) -> Seq<char> {
    match t {
        SaveType::Native => "fgfp"@,
        SaveType::FgRouteManager => "xml"@,
    }
}

/// The file extension of a save type.
pub fn save_extension(t: SaveType) -> (r: &'static str)
    ensures
        r@ == save_extension_of(t),
{
    match t {
        SaveType::Native => "fgfp",
        SaveType::FgRouteManager => "xml",
    }
}

/// The file name the save dialog offers: the plan's name, a dot, and the
/// extension of the save type.
pub fn initial_file_name(plan_name: &str, t: SaveType) -> (r: String)
    ensures
        r@ == plan_name@ + "."@ + save_extension_of(t),
{
    String::from_str(plan_name).concat(".").concat(save_extension(t))
}

/// What happens when a plan's page is closed.
#[derive(Clone, Copy, PartialEq, Eq, Structural, Debug)]
pub enum ClosePage {
    /// The page closes.
    Close,
    /// The user is asked whether to save the changes first.
    Ask,
}

/// A page closes at once where its plan has no unsaved changes, and asks
/// otherwise.
pub fn close_page_request(dirty: bool) -> (r: ClosePage)
    ensures
        r == if dirty {
            ClosePage::Ask
        } else {
            ClosePage::Close
        },
{
    if dirty {
        ClosePage::Ask
    } else {
        ClosePage::Close
    }
}

/// What the answer to "Save changes to plan before closing" does.
#[derive(Clone, Copy, PartialEq, Eq, Structural, Debug)]
pub enum CloseChoice {
    /// Save the plan, then close the page.
    SaveAndClose,
    /// Close the page without saving.
    Close,
    /// Keep the page open.
    KeepOpen,
}

/// The answer's button: 0 "Yes" saves and closes, 1 "No" closes, any other
/// (2 "Cancel") keeps the page open.
pub fn close_page_response(button: i32) -> (r: CloseChoice)
    ensures
        r == if button == 0 {
            CloseChoice::SaveAndClose
        } else if button == 1 {
            CloseChoice::Close
        } else {
            CloseChoice::KeepOpen
        },
{
    if button == 0 {
        CloseChoice::SaveAndClose
    } else if button == 1 {
        CloseChoice::Close
    } else {
        CloseChoice::KeepOpen
    }
}

/// The window size restored from the saved width and height: only where both
/// were saved.
pub fn restored_window_size(width: Option<i32>, height: Option<i32>) -> (r: Option<(i32, i32)>)
    ensures
        r == match (width, height) {
            (Some(w), Some(h)) => Some((w, h)),
            _ => None,
        },
{
    match width {
        Some(w) => match height {
            Some(h) => Some((w, h)),
            None => None,
        },
        None => None,
    }
}

/// Whether the window is maximized again when it opens: only where it was
/// maximized when it was last closed (the saved "window-is-maximized"
/// setting is true).
pub fn restored_maximized(was_maximized: Option<bool>) -> (r: bool)
    ensures
        r == (was_maximized == Some(true)),
{
    match was_maximized {
        Some(m) => m,
        None => false,
    }
}

} // verus!
