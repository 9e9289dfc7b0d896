//! Decoding the move text an external move-suggestion program answers with.
//! Talking to that program — spawning it, feeding it the exported position,
//! reading its answer — is I/O and stays with the surrounding application.

use crate::coordinates::Coordinates;
use vstd::prelude::*;
use vstd::string::StrSliceExecFns;

verus! {

/// The pair of coordinates a four-character move text encodes: the file
/// characters map `a` through `h` to 1 through 8, the rank characters are
/// plain digits. Text of any other shape is a broken answer from the
/// external program, and the caller must reject it first.
pub fn extract_coordinates_from_move(string: String) -> (r: (Coordinates, Coordinates))
    requires
        string@.len() == 4,
        96 <= string@[0] as u32 <= 105,
        48 <= string@[1] as u32 <= 57,
        96 <= string@[2] as u32 <= 105,
        48 <= string@[3] as u32 <= 57,
    ensures
        r.0.x == string@[0] as u32 - 96,
        r.0.y == string@[1] as u32 - 48,
        r.1.x == string@[2] as u32 - 96,
        r.1.y == string@[3] as u32 - 48,
{
    let s = string.as_str();
    let from = s.get_char(0);
    let from_number = s.get_char(1);
    let to = s.get_char(2);
    let to_number = s.get_char(3);

    let from_first = from as u32 as i32 - 96;
    let from_second = from_number as u32 as i32 - 48;
    let to_first = to as u32 as i32 - 96;
    let to_second = to_number as u32 as i32 - 48;

    let from = Coordinates { x: from_first, y: from_second };
    let to = Coordinates { x: to_first, y: to_second };

    (from, to)
}

} // verus!
