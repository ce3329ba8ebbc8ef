//! Station room atmospheres that shape the battles fought in them.

use vstd::prelude::*;

verus! {

/// Atmosphere of the station room where a fight breaks out.
#[derive(Clone, Copy, PartialEq, Eq, Debug, Structural)]
pub enum RoomModifier {
    PoweredDown,
    HighTech,
    Irradiated,
    Cryogenic,
    OverheatedReactor,
    Hydroponics,
}

} // verus!
