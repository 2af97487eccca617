//! Frames that turn while something is under way.
use vstd::prelude::*;

verus! {

/// A way to turn.
#[derive(Clone, Copy, Debug, PartialEq, Eq, Structural)]
pub enum SpinnerKind {
    Braille,
    Line,
    Dots,
}

/// The frames of a spinner.
pub open spec fn frames(kind: SpinnerKind) -> Seq<Seq<char>> {
    match kind {
        SpinnerKind::Braille => seq![
            "⠋"@,
            "⠙"@,
            "⠹"@,
            "⠸"@,
            "⠼"@,
            "⠴"@,
            "⠦"@,
            "⠧"@,
            "⠇"@,
            "⠏"@,
        ],
        SpinnerKind::Line => seq!["-"@, "\\"@, "|"@, "/"@],
        SpinnerKind::Dots => seq![".  "@, ".. "@, "..."@],
    }
}

/// The frame that shows at a tick; each shows for two.
pub open spec fn frame_at(kind: SpinnerKind, tick: u64) -> Seq<char> {
    frames(kind)[((tick as usize) / 2) as int % frames(kind).len() as int]
}

/// The frames of a spinner.
pub fn spinner_frames(kind: SpinnerKind) -> (r: Vec<&'static str>)
    ensures
        r@.len() == frames(kind).len(),
        forall|i: int| 0 <= i < r@.len() ==> (#[trigger] r@[i])@ == frames(kind)[i],
        r@.len() > 0,
{
    match kind {
        SpinnerKind::Braille => vec!["⠋", "⠙", "⠹", "⠸", "⠼", "⠴", "⠦", "⠧", "⠇", "⠏"],
        SpinnerKind::Line => vec!["-", "\\", "|", "/"],
        SpinnerKind::Dots => vec![".  ", ".. ", "..."],
    }
}

/// The frame that shows at a tick.
pub fn spinner(kind: SpinnerKind, tick: u64) -> (r: &'static str)
    ensures
        r@ == frame_at(kind, tick),
{
    let all = spinner_frames(kind);
    let i: usize = ((tick as usize) / 2) % all.len();
    all[i]
}

/// A spinner comes back to its first frame after two ticks for each frame.
pub proof fn law_spinner_turns(kind: SpinnerKind, tick: u64)
    requires
        tick + 2 * frames(kind).len() <= usize::MAX,
        tick + 2 * frames(kind).len() <= u64::MAX,
    ensures
        frame_at(kind, (tick + 2 * frames(kind).len()) as u64) == frame_at(kind, tick),
{
    let n = frames(kind).len() as int;
    let h = ((tick as usize) / 2) as int;
    assert((tick + 2 * n) / 2 == h + n);
    assert((h + n) % n == h % n) by {
        vstd::arithmetic::div_mod::lemma_mod_add_multiples_vanish(h, n);
    }
}

} // verus!
