use vstd::prelude::*;
use vstd::string::*;
use crate::model::orientation::Orientation;
use crate::text::{decimal, decimal_digits, number_of, parse_number};

verus! {

/// A line that a player typed, as a number, if it is one. A line that is
/// none is passed over, and the prompt is put again.
pub fn grab_number(line: &str) -> (r: Option<u8>)
    ensures
        r == number_of(line@),
{
    parse_number(line)
}

/// What the player is told of a number that lies beyond the board.
pub open spec fn out_of_bounds_text(distance: u8) -> Seq<char> {
    decimal_digits(distance as nat) + " is out of bounds!"@
}

/// What the player is told of a number that names no axis.
pub open spec fn no_orientation_text(number: u8) -> Seq<char> {
    decimal_digits(number as nat) + " not a valid orientation specifier"@
}

/// A number as a coordinate of the board, whose cells are counted from 0 to
/// 9: a number beyond is refused with what the player is told.
pub fn coordinate(distance: u8) -> (r: Result<u8, String>)
    ensures
        distance <= 9 ==> r == Ok::<u8, String>(distance),
        distance > 9 ==> (r matches Err(text) && text@ == out_of_bounds_text(distance)),
{
    if distance <= 9 {
        Ok(distance)
    } else {
        let mut text = decimal(distance as u64);
        text.append(" is out of bounds!");
        Err(text)
    }
}

/// A number as an axis: 0 for horizontal, 1 for vertical; any other is
/// refused with what the player is told.
pub fn orientation(number: u8) -> (r: Result<Orientation, String>)
    ensures
        number == 0 ==> r == Ok::<Orientation, String>(Orientation::Horizontal),
        number == 1 ==> r == Ok::<Orientation, String>(Orientation::Vertical),
        number > 1 ==> (r matches Err(text) && text@ == no_orientation_text(number)),
{
    if number == 0 {
        Ok(Orientation::Horizontal)
    } else if number == 1 {
        Ok(Orientation::Vertical)
    } else {
        let mut text = decimal(number as u64);
        text.append(" not a valid orientation specifier");
        Err(text)
    }
}

/// A line as a coordinate. Nothing comes of a line that is no number; a
/// number is taken or refused as `coordinate` says.
pub fn grab_coordinate(line: &str) -> (r: Option<Result<u8, String>>)
    ensures
        match number_of(line@) {
            None => r is None,
            Some(distance) => r matches Some(answer) && (if distance <= 9 {
                answer == Ok::<u8, String>(distance)
            } else {
                answer matches Err(text) && text@ == out_of_bounds_text(distance)
            }),
        },
{
    match grab_number(line) {
        None => None,
        Some(distance) => Some(coordinate(distance)),
    }
}

/// A line as an axis. Nothing comes of a line that is no number; a number is
/// taken or refused as `orientation` says.
pub fn grab_orientation(line: &str) -> (r: Option<Result<Orientation, String>>)
    ensures
        match number_of(line@) {
            None => r is None,
            Some(number) => r matches Some(answer) && (if number == 0 {
                answer == Ok::<Orientation, String>(Orientation::Horizontal)
            } else if number == 1 {
                answer == Ok::<Orientation, String>(Orientation::Vertical)
            } else {
                answer matches Err(text) && text@ == no_orientation_text(number)
            }),
        },
{
    match grab_number(line) {
        None => None,
        Some(number) => Some(orientation(number)),
    }
}

/// Two lines as the coordinates of a cell, where both are coordinates.
pub fn grap_coordinates(x: &str, y: &str) -> (r: Option<(u8, u8)>)
    ensures
        r == match (number_of(x@), number_of(y@)) {
            (Some(column), Some(row)) => if column <= 9 && row <= 9 {
                Some((column, row))
            } else {
                None
            },
            _ => None,
        },
{
    match (grab_coordinate(x), grab_coordinate(y)) {
        (Some(Ok(column)), Some(Ok(row))) => Some((column, row)),
        _ => None,
    }
}

} // verus!
