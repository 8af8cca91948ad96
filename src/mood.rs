use vstd::prelude::*;

verus! {

/// The daily mood: a binary status stored as `0` (unmotivated) or `1` (motivated).
#[derive(Debug, Clone, Copy, PartialEq, Eq, Structural)]
pub enum Ambition {
    Unmotivated,
    Motivated,
}

/// The stored code of a mood.
pub open spec fn code_of(a: Ambition) -> u8 {
    match a {
        Ambition::Unmotivated => 0,
        Ambition::Motivated => 1,
    }
}

/// The mood that a stored code stands for, if any.
pub open spec fn mood_of_code(v: u8) -> Option<Ambition> {
    if v == 0 {
        Some(Ambition::Unmotivated)
    } else if v == 1 {
        Some(Ambition::Motivated)
    } else {
        None
    }
}

/// The display name of a mood.
pub open spec fn name_of(a: Ambition) -> Seq<char> {
    match a {
        Ambition::Unmotivated => "Unmotivated"@,
        Ambition::Motivated => "Motivated"@,
    }
}

impl Ambition {
    /// Decodes a stored code: `0` and `1` are moods, every other value is rejected.
    pub fn from_u8(value: u8) -> (r: Option<Ambition>)
        ensures
            r == mood_of_code(value),
    {
        match value {
            0 => Some(Ambition::Unmotivated),
            1 => Some(Ambition::Motivated),
            _ => None,
        }
    }

    /// The stored code of this mood.
    pub fn to_u8(self) -> (r: u8)
        ensures
            r == code_of(self),
    {
        match self {
            Ambition::Unmotivated => 0,
            Ambition::Motivated => 1,
        }
    }

    /// The display name: `"Motivated"` or `"Unmotivated"`.
    pub fn name(self) -> (r: String)
        ensures
            r@ == name_of(self),
    {
        match self {
            Ambition::Unmotivated => "Unmotivated".to_owned(),
            Ambition::Motivated => "Motivated".to_owned(),
        }
    }
}

} // verus!
