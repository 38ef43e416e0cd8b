//! The highlights that the analyser records.

use vstd::prelude::*;

verus! {

/// What kind of moment a highlight is.
#[derive(Debug, Clone, Copy, PartialEq, Eq, Structural)]
pub enum HighlightKind {
    Headshot,
    Airshot,
}

/// The victim's height above its last ground contact, in Source units, as
/// measured by the caller: the bit pattern of the `f32` measurement, and
/// whether the measurement is at least the airshot minimum of 170 units.
#[derive(Debug, Clone, Copy, PartialEq, Eq, Structural)]
pub struct Height {
    pub bits: u32,
    pub reaches_airshot_min: bool,
}

/// One recorded moment of a demo.
#[derive(Debug, Clone)]
pub struct Highlight {
    pub tick: u32,
    pub kind: HighlightKind,
    pub killer: String,
    pub victim: String,
    /// The victim's user id; names can collide, ids cannot.
    pub victim_user_id: u16,
    /// Empty when not available (non-lethal airshots).
    pub weapon: String,
    pub lethal: bool,
    pub height: Option<Height>,
    /// Only set for non-lethal airshots.
    pub damage: Option<u16>,
}

/// A highlight with its strings taken as character sequences.
pub struct HighlightView {
    pub tick: u32,
    pub kind: HighlightKind,
    pub killer: Seq<char>,
    pub victim: Seq<char>,
    pub victim_user_id: u16,
    pub weapon: Seq<char>,
    pub lethal: bool,
    pub height: Option<Height>,
    pub damage: Option<u16>,
}

impl View for Highlight {
    type V = HighlightView;

    open spec fn view(&self) -> HighlightView {
        HighlightView {
            tick: self.tick,
            kind: self.kind,
            killer: self.killer@,
            victim: self.victim@,
            victim_user_id: self.victim_user_id,
            weapon: self.weapon@,
            lethal: self.lethal,
            height: self.height,
            damage: self.damage,
        }
    }
}

} // verus!
