use vstd::prelude::*;

use crate::heading::Heading;
use crate::location::Location;
use crate::text::{chars_of, i32_of, next_word, parse_i32, words, words_from};

verus! {

pub const WORLD_MIN_WIDTH: i32 = 1;

pub const WORLD_MIN_HEIGHT: i32 = 1;

pub const WORLD_MAX_WIDTH: i32 = 50;

pub const WORLD_MAX_HEIGHT: i32 = 50;

pub const PARSE_ERROR_MISSING_DIMS: &'static str = "Please specify world dimensions";

pub const PARSE_ERROR_MISSING_DIM: &'static str = "Expecting two world dimensions, only found one";

pub const PARSE_ERROR_BAD_WIDTH: &'static str = "World width must be an integer";

pub const PARSE_ERROR_BAD_HEIGHT: &'static str = "World height must be an integer";

pub const ERROR_INVALID_WORLD_DIMS: &'static str = "Both world dimensions must be in the range 1 to 50";

/// Where the cell `(x, y)` of a grid `width` cells wide stands in its row-by-row list.
pub open spec fn cell_index(width: int, x: int, y: int) -> int {
    y * width + x
}

pub proof fn lemma_cell_index_in_range(width: int, height: int, x: int, y: int)
    requires
        0 <= x < width,
        0 <= y < height,
    ensures
        0 <= cell_index(width, x, y) < width * height,
{
    assert(0 <= y * width + x < width * height) by (nonlinear_arith)
        requires
            0 <= x < width,
            0 <= y < height,
    ;
}

pub proof fn lemma_cell_index_injective(width: int, x1: int, y1: int, x2: int, y2: int)
    requires
        0 <= x1 < width,
        0 <= x2 < width,
        0 <= y1,
        0 <= y2,
        cell_index(width, x1, y1) == cell_index(width, x2, y2),
    ensures
        x1 == x2,
        y1 == y2,
{
    assert(y1 == y2) by (nonlinear_arith)
        requires
            0 <= x1 < width,
            0 <= x2 < width,
            0 <= y1,
            0 <= y2,
            y1 * width + x1 == y2 * width + x2,
    ;
}

/// The grid as a value: its size, and its cells row by row from `y == 0`.
pub struct WorldView {
    pub width: int,
    pub height: int,
    pub cells: Seq<Location>,
}

impl WorldView {
    pub open spec fn in_bounds(self, x: int, y: int) -> bool {
        0 <= x < self.width && 0 <= y < self.height
    }

    pub open spec fn cell(self, x: int, y: int) -> Location {
        self.cells[cell_index(self.width, x, y)]
    }

    /// The id of the robot on `(x, y)`, or `-1`.
    pub open spec fn occupant(self, x: int, y: int) -> i32 {
        self.cell(x, y).id
    }

    /// Is leaving `(x, y)` towards `h` still safe?
    pub open spec fn is_safe(self, x: int, y: int, h: Heading) -> bool {
        self.cell(x, y).can_go(h)
    }

    /// Exactly one cell per coordinate pair, each knowing where it stands,
    /// in a grid between 1 and 50 cells wide and high.
    pub open spec fn wf(self) -> bool {
        &&& WORLD_MIN_WIDTH <= self.width <= WORLD_MAX_WIDTH
        &&& WORLD_MIN_HEIGHT <= self.height <= WORLD_MAX_HEIGHT
        &&& self.cells.len() == self.width * self.height
        &&& forall|x: int, y: int|
            self.in_bounds(x, y) ==> (#[trigger] self.cell(x, y)).x == x && self.cell(x, y).y == y
    }

    pub open spec fn with_cell(self, x: int, y: int, c: Location) -> WorldView {
        WorldView { cells: self.cells.update(cell_index(self.width, x, y), c), ..self }
    }

    /// The grid with robot `id` standing on `(x, y)`.
    pub open spec fn occupy(self, x: int, y: int, id: i32) -> WorldView {
        self.with_cell(x, y, Location { id, ..self.cell(x, y) })
    }

    /// The grid with nobody on `(x, y)`.
    pub open spec fn vacate(self, x: int, y: int) -> WorldView {
        self.occupy(x, y, -1i32)
    }

    /// The grid with leaving `(x, y)` towards `h` marked unsafe.
    pub open spec fn mark(self, x: int, y: int, h: Heading) -> WorldView {
        self.with_cell(x, y, self.cell(x, y).with_hazard(h))
    }

    /// `later` has the same size, and every hazard of this grid is still a hazard there.
    pub open spec fn scents_kept_in(self, later: WorldView) -> bool {
        &&& later.width == self.width
        &&& later.height == self.height
        &&& forall|x: int, y: int, h: Heading|
            self.in_bounds(x, y) && !self.is_safe(x, y, h) ==> !#[trigger] later.is_safe(x, y, h)
    }

    pub proof fn lemma_scents_kept_transitive(self, mid: WorldView, last: WorldView)
        requires
            self.scents_kept_in(mid),
            mid.scents_kept_in(last),
        ensures
            self.scents_kept_in(last),
    {
        assert forall|x: int, y: int, h: Heading|
            self.in_bounds(x, y) && !self.is_safe(x, y, h) implies !#[trigger] last.is_safe(x, y, h) by {
            assert(!mid.is_safe(x, y, h));
        }
    }

    /// Changing one cell of a well-formed grid, keeping its coordinates, changes
    /// that cell alone and keeps the grid well formed.
    pub proof fn lemma_with_cell(self, x: int, y: int, c: Location)
        requires
            self.wf(),
            self.in_bounds(x, y),
            c.x == x,
            c.y == y,
        ensures
            self.with_cell(x, y, c).wf(),
            self.with_cell(x, y, c).cell(x, y) == c,
            forall|x2: int, y2: int|
                self.in_bounds(x2, y2) && (x2 != x || y2 != y) ==> #[trigger] self.with_cell(
                    x,
                    y,
                    c,
                ).cell(x2, y2) == self.cell(x2, y2),
    {
        lemma_cell_index_in_range(self.width, self.height, x, y);
        let n = self.with_cell(x, y, c);
        assert forall|x2: int, y2: int| self.in_bounds(x2, y2) && (x2 != x || y2 != y) implies #[trigger] n.cell(x2, y2) == self.cell(x2, y2) by {
            lemma_cell_index_in_range(self.width, self.height, x2, y2);
            if cell_index(self.width, x, y) == cell_index(self.width, x2, y2) {
                lemma_cell_index_injective(self.width, x, y, x2, y2);
            }
        }
        assert forall|x2: int, y2: int| n.in_bounds(x2, y2) implies (#[trigger] n.cell(x2, y2)).x == x2 && n.cell(x2, y2).y == y2 by {
            if x2 != x || y2 != y {
                assert(n.cell(x2, y2) == self.cell(x2, y2));
            }
        }
    }

    /// Marking a hazard clears that one flag and changes nothing else.
    pub proof fn lemma_mark(self, x: int, y: int, h: Heading)
        requires
            self.wf(),
            self.in_bounds(x, y),
        ensures
            self.mark(x, y, h).wf(),
            !self.mark(x, y, h).is_safe(x, y, h),
            forall|x2: int, y2: int, h2: Heading|
                self.in_bounds(x2, y2) && (x2 != x || y2 != y || h2 != h) ==> #[trigger] self.mark(
                    x,
                    y,
                    h,
                ).is_safe(x2, y2, h2) == self.is_safe(x2, y2, h2),
            forall|x2: int, y2: int|
                self.in_bounds(x2, y2) ==> #[trigger] self.mark(x, y, h).occupant(x2, y2)
                    == self.occupant(x2, y2),
            self.scents_kept_in(self.mark(x, y, h)),
    {
        self.lemma_with_cell(x, y, self.cell(x, y).with_hazard(h));
    }

    /// Placing or removing a robot changes the occupant of that one cell and no hazard.
    pub proof fn lemma_occupy(self, x: int, y: int, id: i32)
        requires
            self.wf(),
            self.in_bounds(x, y),
        ensures
            self.occupy(x, y, id).wf(),
            self.occupy(x, y, id).occupant(x, y) == id,
            forall|x2: int, y2: int|
                self.in_bounds(x2, y2) && (x2 != x || y2 != y) ==> #[trigger] self.occupy(
                    x,
                    y,
                    id,
                ).occupant(x2, y2) == self.occupant(x2, y2),
            forall|x2: int, y2: int, h: Heading|
                self.in_bounds(x2, y2) ==> #[trigger] self.occupy(x, y, id).is_safe(x2, y2, h)
                    == self.is_safe(x2, y2, h),
            self.scents_kept_in(self.occupy(x, y, id)),
    {
        self.lemma_with_cell(x, y, Location { id, ..self.cell(x, y) });
    }
}

/// Once leaving `(x, y)` towards `h` is marked unsafe, it stays unsafe through any
/// run of later states of the world in which each state keeps the scents of the
/// one before (as every operation on a world does), and the marking itself
/// changes no other flag.
pub proof fn lemma_hazard_is_permanent(
    before: WorldView,
    later: Seq<WorldView>,
    x: int,
    y: int,
    h: Heading,
)
    requires
        before.wf(),
        before.in_bounds(x, y),
        later.len() > 0,
        later[0] == before.mark(x, y, h),
        forall|i: int| 0 <= i < later.len() - 1 ==> #[trigger] later[i].scents_kept_in(later[i + 1]),
    ensures
        forall|i: int| 0 <= i < later.len() ==> !#[trigger] later[i].is_safe(x, y, h),
        forall|x2: int, y2: int, h2: Heading|
            before.in_bounds(x2, y2) && (x2 != x || y2 != y || h2 != h) ==> #[trigger] later[0].is_safe(
                x2,
                y2,
                h2,
            ) == before.is_safe(x2, y2, h2),
{
    before.lemma_mark(x, y, h);
    assert forall|i: int| 0 <= i < later.len() implies !#[trigger] later[i].is_safe(x, y, h) by {
        lemma_hazard_kept_to(before, later, x, y, h, i);
    }
}

proof fn lemma_hazard_kept_to(before: WorldView, later: Seq<WorldView>, x: int, y: int, h: Heading, i: int)
    requires
        before.wf(),
        before.in_bounds(x, y),
        0 <= i < later.len(),
        later[0] == before.mark(x, y, h),
        forall|k: int| 0 <= k < later.len() - 1 ==> #[trigger] later[k].scents_kept_in(later[k + 1]),
    ensures
        !later[i].is_safe(x, y, h),
        later[i].in_bounds(x, y),
    decreases i,
{
    if i == 0 {
        before.lemma_mark(x, y, h);
    } else {
        lemma_hazard_kept_to(before, later, x, y, h, i - 1);
        let k = i - 1;
        assert(later[k].scents_kept_in(later[k + 1]));
    }
}

/// Removing the robot from a cell leaves it empty, and removing it again
/// changes nothing: the cell stays empty.
pub proof fn lemma_remove_twice(w: WorldView, x: int, y: int)
    requires
        w.wf(),
        w.in_bounds(x, y),
    ensures
        w.vacate(x, y).occupant(x, y) == -1,
        w.vacate(x, y).vacate(x, y) == w.vacate(x, y),
        w.vacate(x, y).vacate(x, y).occupant(x, y) == -1,
{
    w.lemma_occupy(x, y, -1i32);
    let once = w.vacate(x, y);
    once.lemma_occupy(x, y, -1i32);
    lemma_cell_index_in_range(w.width, w.height, x, y);
    assert(once.vacate(x, y).cells =~= once.cells);
}

/// The grid that robots move on: `width * height` cells, row by row from `y == 0`.
#[derive(Debug)]
pub struct World {
    pub width: i32,
    pub height: i32,
    pub locations: Vec<Location>,
}

impl View for World {
    type V = WorldView;

    open spec fn view(&self) -> WorldView {
        WorldView { width: self.width as int, height: self.height as int, cells: self.locations@ }
    }
}

impl World {
    pub open spec fn wf(&self) -> bool {
        self@.wf()
    }

    pub open spec fn in_bounds(&self, x: int, y: int) -> bool {
        self@.in_bounds(x, y)
    }

    pub fn is_location_occupied(&self, x: &i32, y: &i32) -> (r: bool)
        requires
            self.wf(),
            self.in_bounds(*x as int, *y as int),
        ensures
            r == (self@.occupant(*x as int, *y as int) != -1),
    {
        proof {
            lemma_cell_index_in_range(self.width as int, self.height as int, *x as int, *y as int);
        }
        let idx = index_from_x_y(&self.width, x, y);
        self.locations[idx].id != -1
    }

    pub fn place_robot_at(&mut self, robot_id: &i32, x: &i32, y: &i32)
        requires
            old(self).wf(),
            old(self).in_bounds(*x as int, *y as int),
        ensures
            final(self).wf(),
            final(self)@ == old(self)@.occupy(*x as int, *y as int, *robot_id),
            final(self)@.occupant(*x as int, *y as int) == *robot_id,
            forall|x2: int, y2: int|
                old(self).in_bounds(x2, y2) && (x2 != *x || y2 != *y) ==> #[trigger] final(self)@.occupant(
                    x2,
                    y2,
                ) == old(self)@.occupant(x2, y2),
            forall|x2: int, y2: int, h: Heading|
                old(self).in_bounds(x2, y2) ==> #[trigger] final(self)@.is_safe(x2, y2, h) == old(
                    self,
                )@.is_safe(x2, y2, h),
            old(self)@.scents_kept_in(final(self)@),
    {
        proof {
            old(self)@.lemma_occupy(*x as int, *y as int, *robot_id);
            lemma_cell_index_in_range(self.width as int, self.height as int, *x as int, *y as int);
        }
        let idx = index_from_x_y(&self.width, x, y);
        let mut loc = self.locations[idx];
        loc.id = *robot_id;
        self.locations.set(idx, loc);
        assert(self@ =~= old(self)@.occupy(*x as int, *y as int, *robot_id));
    }

    /// Leaves `(x, y)` empty, whoever stood there; doing it again changes nothing.
    pub fn remove_robot_from(&mut self, x: &i32, y: &i32)
        requires
            old(self).wf(),
            old(self).in_bounds(*x as int, *y as int),
        ensures
            final(self).wf(),
            final(self)@ == old(self)@.vacate(*x as int, *y as int),
            final(self)@.occupant(*x as int, *y as int) == -1,
            forall|x2: int, y2: int|
                old(self).in_bounds(x2, y2) && (x2 != *x || y2 != *y) ==> #[trigger] final(self)@.occupant(
                    x2,
                    y2,
                ) == old(self)@.occupant(x2, y2),
            forall|x2: int, y2: int, h: Heading|
                old(self).in_bounds(x2, y2) ==> #[trigger] final(self)@.is_safe(x2, y2, h) == old(
                    self,
                )@.is_safe(x2, y2, h),
            old(self)@.scents_kept_in(final(self)@),
    {
        self.place_robot_at(&-1, x, y);
    }

    pub fn is_it_safe(&self, x: &i32, y: &i32, heading: &Heading) -> (r: bool)
        requires
            self.wf(),
            self.in_bounds(*x as int, *y as int),
        ensures
            r == self@.is_safe(*x as int, *y as int, *heading),
    {
        proof {
            lemma_cell_index_in_range(self.width as int, self.height as int, *x as int, *y as int);
        }
        let loc = &self.locations[index_from_x_y(&self.width, x, y)];
        match heading {
            Heading::North => loc.can_go_north,
            Heading::East => loc.can_go_east,
            Heading::South => loc.can_go_south,
            Heading::West => loc.can_go_west,
        }
    }

    /// Marks leaving `(x, y)` towards `heading` as unsafe, for good.
    pub fn here_be_monsters(&mut self, x: &i32, y: &i32, heading: &Heading)
        requires
            old(self).wf(),
            old(self).in_bounds(*x as int, *y as int),
        ensures
            final(self).wf(),
            final(self)@ == old(self)@.mark(*x as int, *y as int, *heading),
            !final(self)@.is_safe(*x as int, *y as int, *heading),
            forall|x2: int, y2: int, h2: Heading|
                old(self).in_bounds(x2, y2) && (x2 != *x || y2 != *y || h2 != *heading)
                    ==> #[trigger] final(self)@.is_safe(x2, y2, h2) == old(self)@.is_safe(x2, y2, h2),
            forall|x2: int, y2: int|
                old(self).in_bounds(x2, y2) ==> #[trigger] final(self)@.occupant(x2, y2) == old(
                    self,
                )@.occupant(x2, y2),
            old(self)@.scents_kept_in(final(self)@),
    {
        proof {
            old(self)@.lemma_mark(*x as int, *y as int, *heading);
            lemma_cell_index_in_range(self.width as int, self.height as int, *x as int, *y as int);
        }
        let idx = index_from_x_y(&self.width, x, y);
        let mut loc = self.locations[idx];
        match heading {
            Heading::North => loc.can_go_north = false,
            Heading::East => loc.can_go_east = false,
            Heading::South => loc.can_go_south = false,
            Heading::West => loc.can_go_west = false,
        }
        self.locations.set(idx, loc);
        assert(self@ =~= old(self)@.mark(*x as int, *y as int, *heading));
    }

    /// A grid of `width * height` empty cells, each safe to leave every way.
    pub fn new(width: &i32, height: &i32) -> (r: World)
        requires
            WORLD_MIN_WIDTH <= *width <= WORLD_MAX_WIDTH,
            WORLD_MIN_HEIGHT <= *height <= WORLD_MAX_HEIGHT,
        ensures
            r.wf(),
            r.width == *width,
            r.height == *height,
            forall|x: int, y: int|
                r.in_bounds(x, y) ==> #[trigger] r@.cell(x, y) == Location::fresh(x as i32, y as i32),
            forall|x: int, y: int, h: Heading|
                r.in_bounds(x, y) ==> #[trigger] r@.is_safe(x, y, h),
            forall|x: int, y: int| r.in_bounds(x, y) ==> #[trigger] r@.occupant(x, y) == -1,
    {
        World { height: *height, width: *width, locations: create_world_locations(width, height) }
    }
}

/// Where the cell `(x, y)` stands in `World::locations`.
pub fn index_from_x_y(width: &i32, x: &i32, y: &i32) -> (r: usize)
    requires
        WORLD_MIN_WIDTH <= *width <= WORLD_MAX_WIDTH,
        0 <= *x < *width,
        0 <= *y < WORLD_MAX_HEIGHT,
    ensures
        r == cell_index(*width as int, *x as int, *y as int),
{
    assert(0 <= *y * *width <= 49 * 50) by (nonlinear_arith)
        requires
            0 <= *y < 50,
            1 <= *width <= 50,
    ;
    (*y * *width + *x) as usize
}

fn create_world_locations(width: &i32, height: &i32) -> (r: Vec<Location>)
    requires
        WORLD_MIN_WIDTH <= *width <= WORLD_MAX_WIDTH,
        WORLD_MIN_HEIGHT <= *height <= WORLD_MAX_HEIGHT,
    ensures
        r@.len() == *width * *height,
        forall|x: int, y: int|
            0 <= x < *width && 0 <= y < *height ==> #[trigger] r@[cell_index(*width as int, x, y)]
                == Location::fresh(x as i32, y as i32),
{
    let w = *width;
    let h = *height;
    let mut cells: Vec<Location> = Vec::new();
    let mut i: i32 = 0;
    while i < h
        invariant
            1 <= w <= 50,
            1 <= h <= 50,
            0 <= i <= h,
            cells@.len() == i * w,
            forall|x: int, y: int|
                0 <= x < w && 0 <= y < i ==> #[trigger] cells@[cell_index(w as int, x, y)]
                    == Location::fresh(x as i32, y as i32),
        decreases h - i,
    {
        let mut j: i32 = 0;
        while j < w
            invariant
                1 <= w <= 50,
                1 <= h <= 50,
                0 <= i < h,
                0 <= j <= w,
                cells@.len() == i * w + j,
                forall|x: int, y: int|
                    (0 <= x < w && 0 <= y < i) || (0 <= x < j && y == i) ==> #[trigger] cells@[cell_index(
                        w as int,
                        x,
                        y,
                    )] == Location::fresh(x as i32, y as i32),
            decreases w - j,
        {
            let ghost before = cells@;
            cells.push(Location::new(j, i));
            assert forall|x: int, y: int|
                (0 <= x < w && 0 <= y < i) || (0 <= x < j + 1 && y == i) implies #[trigger] cells@[cell_index(
                w as int,
                x,
                y,
            )] == Location::fresh(x as i32, y as i32) by {
                if x == j && y == i {
                } else {
                    assert(y * w + x < i * w + j) by (nonlinear_arith)
                        requires
                            (0 <= x < w && 0 <= y < i) || (0 <= x < j && y == i),
                            0 <= j,
                            1 <= w,
                    ;
                    assert(cells@[cell_index(w as int, x, y)] == before[cell_index(w as int, x, y)]);
                }
            }
            j = j + 1;
        }
        assert(cells@.len() == (i + 1) * w) by (nonlinear_arith)
            requires
                cells@.len() == i * w + w,
        ;
        i = i + 1;
    }
    assert(cells@.len() == w * h) by (nonlinear_arith)
        requires
            cells@.len() == h * w,
    ;
    cells
}

/// The size of a world: its width and its height, in cells.
#[derive(Clone, Copy, Debug, PartialEq, Eq, Structural)]
pub struct Dimensions {
    pub width: i32,
    pub height: i32,
}

/// What a line that gives the size of a world reads as, given its words: the
/// width and the height as integers, each between 1 and 50. Words after the
/// second are not read.
pub open spec fn dimensions_from(w: Seq<Seq<char>>) -> Result<Dimensions, &'static str> {
    if w.len() == 0 {
        Err(PARSE_ERROR_MISSING_DIMS)
    } else if i32_of(w[0]) is None {
        Err(PARSE_ERROR_BAD_WIDTH)
    } else if w.len() == 1 {
        Err(PARSE_ERROR_MISSING_DIM)
    } else if i32_of(w[1]) is None {
        Err(PARSE_ERROR_BAD_HEIGHT)
    } else {
        let width = i32_of(w[0])->0;
        let height = i32_of(w[1])->0;
        if WORLD_MIN_WIDTH <= width <= WORLD_MAX_WIDTH && WORLD_MIN_HEIGHT <= height
            <= WORLD_MAX_HEIGHT {
            Ok(Dimensions { width, height })
        } else {
            Err(ERROR_INVALID_WORLD_DIMS)
        }
    }
}

impl Dimensions {
    /// Reads the size of a world from a line: width, then height.
    pub fn parse(s: &str) -> (r: Result<Dimensions, &'static str>)
        ensures
            r == dimensions_from(words(s@)),
            r matches Ok(d) ==> WORLD_MIN_WIDTH <= d.width <= WORLD_MAX_WIDTH && WORLD_MIN_HEIGHT
                <= d.height <= WORLD_MAX_HEIGHT,
    {
        let chars = chars_of(s);
        let ghost cs = chars@;
        let (a0, b0) = next_word(&chars, 0);
        assert(words(cs) == words_from(cs, 0));
        if a0 == chars.len() {
            return Err(PARSE_ERROR_MISSING_DIMS);
        }
        let ghost rest = words_from(cs, b0 as nat);
        assert(words(cs) == seq![cs.subrange(a0 as int, b0 as int)] + rest);
        let width = match parse_i32(&chars, a0, b0) {
            Some(v) => v,
            None => {
                return Err(PARSE_ERROR_BAD_WIDTH);
            },
        };
        let (a1, b1) = next_word(&chars, b0);
        if a1 == chars.len() {
            assert(rest =~= seq![]);
            return Err(PARSE_ERROR_MISSING_DIM);
        }
        assert(rest == seq![cs.subrange(a1 as int, b1 as int)] + words_from(cs, b1 as nat));
        assert(words(cs)[1] == cs.subrange(a1 as int, b1 as int));
        let height = match parse_i32(&chars, a1, b1) {
            Some(v) => v,
            None => {
                return Err(PARSE_ERROR_BAD_HEIGHT);
            },
        };
        if WORLD_MIN_WIDTH <= width && width <= WORLD_MAX_WIDTH && WORLD_MIN_HEIGHT <= height
            && height <= WORLD_MAX_HEIGHT {
            Ok(Dimensions { width, height })
        } else {
            Err(ERROR_INVALID_WORLD_DIMS)
        }
    }
}

impl std::str::FromStr for Dimensions {
    type Err = &'static str;

    fn from_str(s: &str) -> Result<Dimensions, &'static str> {
        Dimensions::parse(s)
    }
}

} // verus!
