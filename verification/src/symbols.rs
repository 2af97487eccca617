//! The characters that stand for things on the screen.
use vstd::prelude::*;

verus! {

/// Before each selected option of an answered question.
pub const OUTCOME_BULLET: &'static str = "\u{25B8} ";

/// Marks text that was cut.
pub const ELLIPSIS: &'static str = "\u{2026}";

/// Before an option that is selected.
pub const RADIO_SELECTED: &'static str = "\u{25CF} ";

/// Before an option that is not selected.
pub const RADIO_UNSELECTED: &'static str = "\u{25CB} ";

/// Before an option that is ticked.
pub const CHECK_CHECKED: &'static str = "\u{2611} ";

/// Before an option that is not ticked.
pub const CHECK_UNCHECKED: &'static str = "\u{2610} ";

/// Shows one colour of a theme.
pub const COLOR_SWATCH: &'static str = "\u{25A0}";

/// Connected, or disconnected.
pub const CONN_ONLINE: &'static str = "\u{25CF}";

/// Connecting.
pub const CONN_OFFLINE: &'static str = "\u{25CB}";

/// Before the share of the context that is used.
pub const ICON_CONTEXT: &'static str = "\u{1F5AA}";

/// Before the number of tool calls.
pub const ICON_TOOLS: &'static str = "\u{2692}";

/// Before the number of other sessions with recent activity.
pub const ICON_MULTI_SESSION: &'static str = "\u{10B3D}";

/// A horizontal rule is made of these.
pub const MD_HRULE_CHAR: char = '\u{2500}';

/// Before an item of a list without numbers.
pub const MD_BULLET: &'static str = "\u{2022} ";

pub const ARROW_UP: &'static str = "\u{2191}";

pub const ARROW_DOWN: &'static str = "\u{2193}";

/// Before a group that is open.
pub const COLLAPSE_OPEN: &'static str = "\u{25BE}";

/// Before a group that is collapsed.
pub const COLLAPSE_CLOSED: &'static str = "\u{25B8}";

} // verus!
