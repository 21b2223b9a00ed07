//! Positions in a named source.
use vstd::prelude::*;

use crate::atom::{atom_string, atom_text};
use string_cache::DefaultAtom;

verus! {

/// Where in which source file some item is: a file name, a 1-based line and a 1-based column.
#[derive(Debug, Clone)]
pub struct Location {
    pub filename: DefaultAtom,
    pub line: u32,
    pub column: u32,
}

/// The mathematical value of a [`Location`].
pub struct LocationView {
    pub filename: Seq<char>,
    pub line: int,
    pub column: int,
}

impl View for Location {
    type V = LocationView;

    open spec fn view(&self) -> LocationView {
        LocationView {
            filename: atom_text(self.filename),
            line: self.line as int,
            column: self.column as int,
        }
    }
}

/// The location at the very start of the file `filename`.
pub open spec fn start_of(filename: Seq<char>) -> LocationView {
    LocationView { filename, line: 1, column: 1 }
}

/// The location that follows `location` once the character `c` has been read: a newline starts
/// the next line, any other character moves one column to the right.
pub open spec fn step(location: LocationView, c: char) -> LocationView {
    if c == '\n' {
        LocationView { filename: location.filename, line: location.line + 1, column: 1 }
    } else {
        LocationView { filename: location.filename, line: location.line, column: location.column + 1 }
    }
}

/// The location reached in the file `filename` after reading the characters `read` from its start.
pub open spec fn location_after(filename: Seq<char>, read: Seq<char>) -> LocationView
    decreases read.len(),
{
    if read.len() == 0 {
        start_of(filename)
    } else {
        step(location_after(filename, read.drop_last()), read.last())
    }
}

/// The decimal digits of `n`, without sign or leading zeros.
pub open spec fn decimal(n: nat) -> Seq<char>
    decreases n,
{
    let digit = seq!['0', '1', '2', '3', '4', '5', '6', '7', '8', '9'][(n % 10) as int];
    if n < 10 {
        seq![digit]
    } else {
        decimal(n / 10).push(digit)
    }
}

/// Relies on `ToString for u32`, which writes the number in decimal.
#[verifier::external_body]
fn decimal_string(n: u32) -> (text: String)
    ensures
        text@ == decimal(n as nat),
{
    n.to_string()
}

/// Locations are ordered by line, then by column.
pub open spec fn precedes(a: LocationView, b: LocationView) -> bool {
    a.line < b.line || (a.line == b.line && a.column < b.column)
}

/// Reading `read` from the start of a file leaves line and column within `1 ..= read.len() + 1`.
pub proof fn lemma_location_after_bounds(filename: Seq<char>, read: Seq<char>)
    ensures
        location_after(filename, read).filename == filename,
        1 <= location_after(filename, read).line <= read.len() + 1,
        1 <= location_after(filename, read).column <= read.len() + 1,
    decreases read.len(),
{
    if read.len() > 0 {
        lemma_location_after_bounds(filename, read.drop_last());
    }
}

/// Reading a longer prefix of a text always ends at a later location.
pub proof fn lemma_location_after_increases(filename: Seq<char>, text: Seq<char>, i: int, j: int)
    requires
        0 <= i < j <= text.len(),
    ensures
        precedes(
            location_after(filename, text.take(i)),
            location_after(filename, text.take(j)),
        ),
    decreases j - i,
{
    assert(text.take(j).drop_last() =~= text.take(j - 1));
    if i < j - 1 {
        lemma_location_after_increases(filename, text, i, j - 1);
    }
}

impl Location {
    pub fn new(filename: DefaultAtom, line: u32, column: u32) -> (location: Location)
        ensures
            location.filename == filename,
            location.line == line,
            location.column == column,
    {
        Location { filename, line, column }
    }

    /// The location that follows this one once `c` has been read.
    pub fn next(&self, c: char) -> (location: Location)
        requires
            c == '\n' ==> self.line < u32::MAX,
            c != '\n' ==> self.column < u32::MAX,
        ensures
            location@ == step(self@, c),
    {
        let filename = self.filename.clone();
        if c == '\n' {
            Location::new(filename, self.line + 1, 1)
        } else {
            Location::new(filename, self.line, self.column + 1)
        }
    }

    /// A copy of this location.
    pub fn duplicate(&self) -> (location: Location)
        ensures
            location@ == self@,
    {
        Location::new(self.filename.clone(), self.line, self.column)
    }

    /// The location written as `filename:line:column`.
    pub fn to_string(&self) -> (text: String)
        ensures
            text@ == self@.filename + ":"@ + decimal(self.line as nat) + ":"@ + decimal(
                self.column as nat,
            ),
    {
        let mut text = atom_string(&self.filename);
        let line = decimal_string(self.line);
        let column = decimal_string(self.column);
        text.append(":");
        text.append(line.as_str());
        text.append(":");
        text.append(column.as_str());
        proof {
            reveal_strlit(":");
        }
        text
    }
}

/// A value together with the location it was read from.
#[derive(Debug)]
pub struct Located<T> {
    pub location: Location,
    pub data: T,
}

impl<T> Located<T> {
    pub fn new(location: Location, data: T) -> (located: Located<T>)
        ensures
            located.location == location,
            located.data == data,
    {
        Located { location, data }
    }
}

} // verus!
