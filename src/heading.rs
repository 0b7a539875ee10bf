use vstd::prelude::*;

verus! {

pub const PARSE_ERROR_INVALID_HEADING: &'static str = "Invalid heading";

/// A compass direction.
#[derive(Clone, Copy, Debug, PartialEq, Eq, Structural)]
pub enum Heading {
    North,
    South,
    East,
    West,
}

impl Heading {
    /// The heading a quarter turn clockwise from this one.
    pub open spec fn right_of(self) -> Heading {
        match self {
            Heading::North => Heading::East,
            Heading::East => Heading::South,
            Heading::South => Heading::West,
            Heading::West => Heading::North,
        }
    }

    /// The heading a quarter turn anticlockwise from this one.
    pub open spec fn left_of(self) -> Heading {
        match self {
            Heading::North => Heading::West,
            Heading::West => Heading::South,
            Heading::South => Heading::East,
            Heading::East => Heading::North,
        }
    }

    /// The upper-case letter that names the heading.
    pub open spec fn spec_letter(self) -> char {
        match self {
            Heading::North => 'N',
            Heading::South => 'S',
            Heading::East => 'E',
            Heading::West => 'W',
        }
    }

    /// The heading named by a text: one of the letters N, S, E, W in either case.
    pub open spec fn named(s: Seq<char>) -> Option<Heading> {
        if s.len() != 1 {
            None
        } else if s[0] == 'N' || s[0] == 'n' {
            Some(Heading::North)
        } else if s[0] == 'S' || s[0] == 's' {
            Some(Heading::South)
        } else if s[0] == 'E' || s[0] == 'e' {
            Some(Heading::East)
        } else if s[0] == 'W' || s[0] == 'w' {
            Some(Heading::West)
        } else {
            None
        }
    }

    pub fn rotate_right(&self) -> (r: Heading)
        ensures
            r == self.right_of(),
    {
        let table: [Heading; 4] = [Heading::North, Heading::East, Heading::South, Heading::West];
        assert(table@ =~= seq![Heading::North, Heading::East, Heading::South, Heading::West]);
        assert(exists|i: int| 0 <= i < 4 && #[trigger] table@[i] == *self) by {
            match *self {
                Heading::North => assert(table@[0] == *self),
                Heading::East => assert(table@[1] == *self),
                Heading::South => assert(table@[2] == *self),
                Heading::West => assert(table@[3] == *self),
            }
        }
        turn(&table, self)
    }

    pub fn rotate_left(&self) -> (r: Heading)
        ensures
            r == self.left_of(),
    {
        let table: [Heading; 4] = [Heading::North, Heading::West, Heading::South, Heading::East];
        assert(table@ =~= seq![Heading::North, Heading::West, Heading::South, Heading::East]);
        assert(exists|i: int| 0 <= i < 4 && #[trigger] table@[i] == *self) by {
            match *self {
                Heading::North => assert(table@[0] == *self),
                Heading::West => assert(table@[1] == *self),
                Heading::South => assert(table@[2] == *self),
                Heading::East => assert(table@[3] == *self),
            }
        }
        turn(&table, self)
    }

    /// The upper-case letter that names the heading.
    pub fn letter(&self) -> (c: char)
        ensures
            c == self.spec_letter(),
    {
        match self {
            Heading::North => 'N',
            Heading::South => 'S',
            Heading::East => 'E',
            Heading::West => 'W',
        }
    }

    /// Reads a heading from its letter, in either case; anything else is refused.
    pub fn parse(s: &str) -> (r: Result<Heading, &'static str>)
        ensures
            r == (match Heading::named(s@) {
                Some(h) => Ok(h),
                None => Err(PARSE_ERROR_INVALID_HEADING),
            }),
    {
        if s.unicode_len() != 1 {
            return Err(PARSE_ERROR_INVALID_HEADING);
        }
        let c = s.get_char(0);
        if c == 'N' || c == 'n' {
            Ok(Heading::North)
        } else if c == 'S' || c == 's' {
            Ok(Heading::South)
        } else if c == 'E' || c == 'e' {
            Ok(Heading::East)
        } else if c == 'W' || c == 'w' {
            Ok(Heading::West)
        } else {
            Err(PARSE_ERROR_INVALID_HEADING)
        }
    }
}

impl std::str::FromStr for Heading {
    type Err = &'static str;

    fn from_str(s: &str) -> Result<Heading, &'static str> {
        Heading::parse(s)
    }
}

/// Four quarter turns in the same direction bring a heading back to itself,
/// and a right turn followed by a left turn (or the reverse) changes nothing.
pub proof fn lemma_rotation_cycles(h: Heading)
    ensures
        h.right_of().right_of().right_of().right_of() == h,
        h.left_of().left_of().left_of().left_of() == h,
        h.right_of().left_of() == h,
        h.left_of().right_of() == h,
{
}

/// Looks `hdg` up in a cyclic table of the four headings and returns the entry after it.
fn turn(headings: &[Heading; 4], hdg: &Heading) -> (r: Heading)
    requires
        forall|i: int, j: int| 0 <= i < j < 4 ==> headings@[i] != headings@[j],
        exists|i: int| 0 <= i < 4 && #[trigger] headings@[i] == *hdg,
    ensures
        exists|i: int| 0 <= i < 4 && #[trigger] headings@[i] == *hdg && r == headings@[(i + 1) % 4],
{
    let mut idx: usize = 0;
    while idx < 4
        invariant
            0 <= idx <= 4,
            forall|j: int| 0 <= j < idx ==> headings@[j] != *hdg,
            exists|i: int| 0 <= i < 4 && #[trigger] headings@[i] == *hdg,
        decreases 4 - idx,
    {
        if headings[idx] == *hdg {
            return headings[(idx + 1) % 4];
        }
        idx = idx + 1;
    }
    headings[0]
}

} // verus!
