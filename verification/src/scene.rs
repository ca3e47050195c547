//! The presentation of the scene.

use vstd::prelude::*;
use crate::text::same_text;

verus! {

/// How the terminals are presented.
#[derive(Clone, Copy, Debug, PartialEq, Eq, Structural)]
pub enum TerminalPresentationMode {
    /// Flat on the screen.
    Flat2d,
    /// On a plane in space.
    Plane3d,
    /// On a Moebius strip.
    Mobius3d,
}

impl TerminalPresentationMode {
    /// The canonical wire name.
    pub open spec fn name(self) -> &'static str {
        match self {
            TerminalPresentationMode::Flat2d => "2d",
            TerminalPresentationMode::Plane3d => "3d",
            TerminalPresentationMode::Mobius3d => "mobius",
        }
    }

    /// The mode that a wire name means.
    pub open spec fn named(name: Seq<char>) -> Option<TerminalPresentationMode> {
        if name == "2d"@ || name == "flat"@ || name == "flat2d"@ {
            Some(TerminalPresentationMode::Flat2d)
        } else if name == "3d"@ || name == "plane"@ || name == "plane3d"@ {
            Some(TerminalPresentationMode::Plane3d)
        } else if name == "mobius"@ || name == "mobius3d"@ {
            Some(TerminalPresentationMode::Mobius3d)
        } else {
            None
        }
    }
}

impl TerminalPresentationMode {
    /// The mode after the switch between flat and space: from flat into space,
    /// from anywhere else to flat.
    pub open spec fn plane_toggled(self) -> TerminalPresentationMode {
        match self {
            TerminalPresentationMode::Flat2d => TerminalPresentationMode::Plane3d,
            _ => TerminalPresentationMode::Flat2d,
        }
    }

    /// The mode after the switch between flat and space.
    pub fn toggle_plane_mode(self) -> (mode: TerminalPresentationMode)
        ensures
            mode == self.plane_toggled(),
    {
        match self {
            TerminalPresentationMode::Flat2d => TerminalPresentationMode::Plane3d,
            _ => TerminalPresentationMode::Flat2d,
        }
    }
}

/// Between flat and space, the second switch undoes the first.
pub proof fn law_the_plane_switch_undoes_itself(mode: TerminalPresentationMode)
    requires
        mode != TerminalPresentationMode::Mobius3d,
    ensures
        mode.plane_toggled() != mode,
        mode.plane_toggled().plane_toggled() == mode,
{
}

/// The canonical wire name of a mode.
pub fn mode_wire_name(mode: TerminalPresentationMode) -> (name: &'static str)
    ensures
        name == mode.name(),
{
    match mode {
        TerminalPresentationMode::Flat2d => "2d",
        TerminalPresentationMode::Plane3d => "3d",
        TerminalPresentationMode::Mobius3d => "mobius",
    }
}

/// The mode that a wire name means.
pub fn parse_mode(name: &str) -> (mode: Option<TerminalPresentationMode>)
    ensures
        mode == TerminalPresentationMode::named(name@),
{
    if same_text(name, "2d") || same_text(name, "flat") || same_text(name, "flat2d") {
        Some(TerminalPresentationMode::Flat2d)
    } else if same_text(name, "3d") || same_text(name, "plane") || same_text(name, "plane3d") {
        Some(TerminalPresentationMode::Plane3d)
    } else if same_text(name, "mobius") || same_text(name, "mobius3d") {
        Some(TerminalPresentationMode::Mobius3d)
    } else {
        None
    }
}

/// Every mode is what its canonical wire name means.
pub proof fn law_mode_names_round_trip(mode: TerminalPresentationMode)
    ensures
        TerminalPresentationMode::named(mode.name()@) == Some(mode),
{
    reveal_strlit("2d");
    reveal_strlit("flat");
    reveal_strlit("flat2d");
    reveal_strlit("3d");
    reveal_strlit("plane");
    reveal_strlit("plane3d");
    reveal_strlit("mobius");
    reveal_strlit("mobius3d");
    assert("2d"@[0] == '2' && "3d"@[0] == '3');
    assert("2d"@.len() == 2 && "3d"@.len() == 2 && "flat"@.len() == 4 && "flat2d"@.len() == 6);
    assert("plane"@.len() == 5 && "plane3d"@.len() == 7 && "mobius"@.len() == 6);
    assert("flat2d"@[0] == 'f' && "mobius"@[0] == 'm');
}

/// The modes and their names: flat is `2d`, the plane is `3d` and the strip is
/// `mobius`.
pub proof fn law_modes_have_their_names()
    ensures
        TerminalPresentationMode::Flat2d.name()@ == seq!['2', 'd'],
        TerminalPresentationMode::Plane3d.name()@ == seq!['3', 'd'],
        TerminalPresentationMode::Mobius3d.name()@ == seq!['m', 'o', 'b', 'i', 'u', 's'],
{
    reveal_strlit("2d");
    reveal_strlit("3d");
    reveal_strlit("mobius");
    assert("2d"@ =~= seq!['2', 'd']);
    assert("3d"@ =~= seq!['3', 'd']);
    assert("mobius"@ =~= seq!['m', 'o', 'b', 'i', 'u', 's']);
}

/// The switch between flat and space goes into space from flat alone, and to
/// flat from everywhere else.
pub proof fn law_where_the_plane_switch_goes(mode: TerminalPresentationMode)
    ensures
        mode.plane_toggled() is Plane3d <==> mode is Flat2d,
        mode.plane_toggled() is Flat2d <==> !(mode is Flat2d),
{
}

} // verus!
