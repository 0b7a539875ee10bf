use vstd::prelude::*;

use crate::heading::{Heading, PARSE_ERROR_INVALID_HEADING};
use crate::text::{chars_of, i32_of, next_word, parse_i32, words, words_from};
use crate::world::{World, WorldView, WORLD_MAX_HEIGHT, WORLD_MAX_WIDTH, WORLD_MIN_HEIGHT, WORLD_MIN_WIDTH};

verus! {

pub const PARSE_ERROR_MISSING_VALS: &'static str = "Please specify the new robot's X Y location and its heading";

pub const PARSE_ERROR_MISSING_Y_VAL: &'static str = "Expecting the robot's Y location and a heading, but found only its X location";

pub const PARSE_ERROR_MISSING_HDNG: &'static str = "Expecting the new robot's heading, but found only its X Y location";

pub const PARSE_ERROR_BAD_X_VAL: &'static str = "New robot's X location must be an integer";

pub const PARSE_ERROR_BAD_Y_VAL: &'static str = "New robot's Y location must be an integer";

pub const ERROR_OUTSIDE_WORLD_BOUNDS: &'static str = "Robot location lies outside permissible world boundaries";

pub const ERROR_LOCATION_OCCUPIED: &'static str = "Robot location is already occupied";

/// A robot on the grid: its id, where it stands, which way it faces, and
/// whether it has fallen off the edge.
#[derive(Clone, Copy, Debug, PartialEq, Eq, Structural)]
pub struct Robot {
    pub id: i32,
    pub x: i32,
    pub y: i32,
    pub heading: Heading,
    pub is_lost: bool,
}

/// What became of one step forward.
#[derive(Clone, Copy, Debug, PartialEq, Eq, Structural)]
pub enum Step {
    /// The robot moved to the next cell.
    Moved,
    /// The next cell holds another robot, so the robot stayed.
    Blocked,
    /// An earlier robot was lost leaving this cell this way, so the robot stayed.
    Scented,
    /// The next cell lies outside the grid: the robot is lost.
    Lost,
}

/// The cell one step from `(x, y)` towards `h`; north is towards larger `y`.
pub open spec fn step_from(x: int, y: int, h: Heading) -> (int, int) {
    match h {
        Heading::North => (x, y + 1),
        Heading::East => (x + 1, y),
        Heading::South => (x, y - 1),
        Heading::West => (x - 1, y),
    }
}

impl Robot {
    /// Does the robot stand on a cell of `w`?
    pub open spec fn within(self, w: WorldView) -> bool {
        w.in_bounds(self.x as int, self.y as int)
    }

    pub open spec fn turned_right(self) -> Robot {
        Robot { heading: self.heading.right_of(), ..self }
    }

    pub open spec fn turned_left(self) -> Robot {
        Robot { heading: self.heading.left_of(), ..self }
    }

    /// What a step forward on `w` comes to. A hazard mark on the robot's cell
    /// and heading comes first, then the edge of the grid, then a robot in the way.
    pub open spec fn forward_step(self, w: WorldView) -> Step {
        let (nx, ny) = step_from(self.x as int, self.y as int, self.heading);
        if !w.is_safe(self.x as int, self.y as int, self.heading) {
            Step::Scented
        } else if !w.in_bounds(nx, ny) {
            Step::Lost
        } else if w.occupant(nx, ny) != -1 {
            Step::Blocked
        } else {
            Step::Moved
        }
    }

    /// The robot and the grid after a step forward on `w`. A lost robot keeps the
    /// last cell it stood on, leaves it empty, and marks leaving it that way unsafe.
    pub open spec fn after_forward(self, w: WorldView) -> (Robot, WorldView) {
        let (nx, ny) = step_from(self.x as int, self.y as int, self.heading);
        match self.forward_step(w) {
            Step::Moved => (
                Robot { x: nx as i32, y: ny as i32, ..self },
                w.vacate(self.x as int, self.y as int).occupy(nx, ny, self.id),
            ),
            Step::Lost => (
                Robot { is_lost: true, ..self },
                w.vacate(self.x as int, self.y as int).mark(
                    self.x as int,
                    self.y as int,
                    self.heading,
                ),
            ),
            _ => (self, w),
        }
    }

    /// The robot and the grid after one command letter: `L` and `R` turn, `F`
    /// steps forward, in either case; any other character changes nothing.
    pub open spec fn after_command(self, w: WorldView, c: char) -> (Robot, WorldView) {
        if c == 'L' || c == 'l' {
            (self.turned_left(), w)
        } else if c == 'R' || c == 'r' {
            (self.turned_right(), w)
        } else if c == 'F' || c == 'f' {
            self.after_forward(w)
        } else {
            (self, w)
        }
    }
}

/// The robot and the grid after a string of commands, obeyed from the left
/// until the string ends or the robot is lost.
pub open spec fn after_commands(r: Robot, w: WorldView, cmds: Seq<char>) -> (Robot, WorldView)
    decreases cmds.len(),
{
    if cmds.len() == 0 || r.is_lost {
        (r, w)
    } else {
        let (r2, w2) = r.after_command(w, cmds[0]);
        after_commands(r2, w2, cmds.drop_first())
    }
}

impl Robot {
    pub fn turn_right(&mut self)
        ensures
            *final(self) == old(self).turned_right(),
    {
        self.heading = self.heading.rotate_right();
    }

    pub fn turn_left(&mut self)
        ensures
            *final(self) == old(self).turned_left(),
    {
        self.heading = self.heading.rotate_left();
    }

    pub fn position(&mut self) -> (r: (&i32, &i32))
        ensures
            *r.0 == old(self).x,
            *r.1 == old(self).y,
            *final(self) == *old(self),
    {
        (&self.x, &self.y)
    }

    /// Takes one step forward on `world`.
    pub fn forward(&mut self, world: &mut World) -> (s: Step)
        requires
            old(world).wf(),
            old(self).within(old(world)@),
        ensures
            s == old(self).forward_step(old(world)@),
            (*final(self), final(world)@) == old(self).after_forward(old(world)@),
            final(world).wf(),
            final(self).within(final(world)@),
            old(world)@.scents_kept_in(final(world)@),
            forall|x: int, y: int, h: Heading|
                old(world).in_bounds(x, y) && !(s == Step::Lost && x == old(self).x && y == old(
                    self,
                ).y && h == old(self).heading) ==> #[trigger] final(world)@.is_safe(x, y, h) == old(
                    world,
                )@.is_safe(x, y, h),
            forall|x: int, y: int|
                old(world).in_bounds(x, y) && !(x == old(self).x && y == old(self).y) && !(x
                    == final(self).x && y == final(self).y) ==> #[trigger] final(world)@.occupant(x, y)
                    == old(world)@.occupant(x, y),
    {
        let ghost w0 = world@;
        if !world.is_it_safe(&self.x, &self.y, &self.heading) {
            return Step::Scented;
        }
        let (new_x, new_y) = match self.heading {
            Heading::North => (self.x, self.y + 1),
            Heading::East => (self.x + 1, self.y),
            Heading::South => (self.x, self.y - 1),
            Heading::West => (self.x - 1, self.y),
        };
        if new_y < 0 || new_y >= world.height || new_x < 0 || new_x >= world.width {
            self.is_lost = true;
            world.remove_robot_from(&self.x, &self.y);
            world.here_be_monsters(&self.x, &self.y, &self.heading);
            proof {
                w0.lemma_scents_kept_transitive(w0.vacate(self.x as int, self.y as int), world@);
            }
            Step::Lost
        } else if world.is_location_occupied(&new_x, &new_y) {
            Step::Blocked
        } else {
            world.remove_robot_from(&self.x, &self.y);
            self.x = new_x;
            self.y = new_y;
            world.place_robot_at(&self.id, &self.x, &self.y);
            proof {
                w0.lemma_scents_kept_transitive(
                    w0.vacate(old(self).x as int, old(self).y as int),
                    world@,
                );
            }
            Step::Moved
        }
    }

    /// Obeys a string of commands on `world`, from the left, until the string
    /// ends or the robot is lost. `L`, `R` and `F` in either case turn left,
    /// turn right and step forward; other characters are passed over.
    pub fn turn_and_move(&mut self, line: &str, world: &mut World)
        requires
            old(world).wf(),
            old(self).within(old(world)@),
        ensures
            (*final(self), final(world)@) == after_commands(*old(self), old(world)@, line@),
            final(world).wf(),
            final(self).within(final(world)@),
            old(world)@.scents_kept_in(final(world)@),
    {
        let ghost r0 = *self;
        let ghost w0 = world@;
        let n = line.unicode_len();
        let mut i: usize = 0;
        assert(line@.skip(0) =~= line@);
        while i < n
            invariant
                n == line@.len(),
                0 <= i <= n,
                world.wf(),
                self.within(world@),
                w0.scents_kept_in(world@),
                after_commands(r0, w0, line@) == after_commands(*self, world@, line@.skip(i as int)),
            ensures
                0 <= i <= n,
                i == n || self.is_lost,
                world.wf(),
                self.within(world@),
                w0.scents_kept_in(world@),
                after_commands(r0, w0, line@) == after_commands(*self, world@, line@.skip(i as int)),
            decreases n - i,
        {
            if self.is_lost {
                break;
            }
            let ghost before = (*self, world@);
            let ghost wb = world@;
            let c = line.get_char(i);
            assert(line@.skip(i as int).drop_first() =~= line@.skip(i + 1));
            assert(line@.skip(i as int)[0] == c);
            if c == 'L' || c == 'l' {
                self.turn_left();
            } else if c == 'R' || c == 'r' {
                self.turn_right();
            } else if c == 'F' || c == 'f' {
                self.forward(world);
                proof {
                    w0.lemma_scents_kept_transitive(wb, world@);
                }
            }
            assert((*self, world@) == before.0.after_command(before.1, c));
            i = i + 1;
        }
        if i == n {
            assert(line@.skip(n as int) =~= Seq::<char>::empty());
        }
    }

    pub fn new(id: i32, x: i32, y: i32, heading: Heading) -> (r: Robot)
        ensures
            r == (Robot { id, x, y, heading, is_lost: false }),
    {
        Robot { id, x, y, heading, is_lost: false }
    }
}

/// What a line that defines a robot reads as, given its words: `x y heading`,
/// with `x` and `y` integers that could lie in the largest world, and the
/// heading a letter. Words after the third are not read. The robot's id is
/// left at `-1`: the caller gives it one once the robot has a place.
pub open spec fn robot_from(w: Seq<Seq<char>>) -> Result<Robot, &'static str> {
    if w.len() == 0 {
        Err(PARSE_ERROR_MISSING_VALS)
    } else if i32_of(w[0]) is None {
        Err(PARSE_ERROR_BAD_X_VAL)
    } else if w.len() == 1 {
        Err(PARSE_ERROR_MISSING_Y_VAL)
    } else if i32_of(w[1]) is None {
        Err(PARSE_ERROR_BAD_Y_VAL)
    } else if w.len() == 2 {
        Err(PARSE_ERROR_MISSING_HDNG)
    } else if Heading::named(w[2]) is None {
        Err(PARSE_ERROR_INVALID_HEADING)
    } else {
        let x = i32_of(w[0])->0;
        let y = i32_of(w[1])->0;
        if WORLD_MIN_WIDTH - 1 <= x < WORLD_MAX_WIDTH && WORLD_MIN_HEIGHT - 1 <= y < WORLD_MAX_HEIGHT {
            Ok(Robot { id: -1i32, x, y, heading: Heading::named(w[2])->0, is_lost: false })
        } else {
            Err(ERROR_OUTSIDE_WORLD_BOUNDS)
        }
    }
}

/// What defining a robot from `line` on `w` with id `id` comes to: the robot
/// that the line describes, with that id, if its cell lies in the grid and is empty.
pub open spec fn definition_outcome(line: Seq<char>, w: WorldView, id: i32) -> Result<Robot, &'static str> {
    match robot_from(words(line)) {
        Err(e) => Err(e),
        Ok(r) => if !r.within(w) {
            Err(ERROR_OUTSIDE_WORLD_BOUNDS)
        } else if w.occupant(r.x as int, r.y as int) != -1 {
            Err(ERROR_LOCATION_OCCUPIED)
        } else {
            Ok(Robot { id, ..r })
        },
    }
}

impl Robot {
    /// Reads a robot from a line: `x y heading`. The id is left at `-1`.
    pub fn parse(s: &str) -> (r: Result<Robot, &'static str>)
        ensures
            r == robot_from(words(s@)),
    {
        let chars = chars_of(s);
        let ghost cs = chars@;
        let (a0, b0) = next_word(&chars, 0);
        assert(words(cs) == words_from(cs, 0));
        if a0 == chars.len() {
            return Err(PARSE_ERROR_MISSING_VALS);
        }
        let ghost rest = words_from(cs, b0 as nat);
        assert(words(cs) == seq![cs.subrange(a0 as int, b0 as int)] + rest);
        let x = match parse_i32(&chars, a0, b0) {
            Some(v) => v,
            None => {
                return Err(PARSE_ERROR_BAD_X_VAL);
            },
        };
        let (a1, b1) = next_word(&chars, b0);
        if a1 == chars.len() {
            assert(rest =~= seq![]);
            return Err(PARSE_ERROR_MISSING_Y_VAL);
        }
        let ghost rest2 = words_from(cs, b1 as nat);
        assert(rest == seq![cs.subrange(a1 as int, b1 as int)] + rest2);
        assert(words(cs)[1] == cs.subrange(a1 as int, b1 as int));
        let y = match parse_i32(&chars, a1, b1) {
            Some(v) => v,
            None => {
                return Err(PARSE_ERROR_BAD_Y_VAL);
            },
        };
        let (a2, b2) = next_word(&chars, b1);
        if a2 == chars.len() {
            assert(rest2 =~= seq![]);
            assert(words(cs).len() == 2);
            return Err(PARSE_ERROR_MISSING_HDNG);
        }
        assert(rest2 == seq![cs.subrange(a2 as int, b2 as int)] + words_from(cs, b2 as nat));
        assert(words(cs)[2] == cs.subrange(a2 as int, b2 as int));
        let heading = match Heading::parse(s.substring_char(a2, b2)) {
            Ok(h) => h,
            Err(e) => {
                return Err(e);
            },
        };
        if WORLD_MIN_WIDTH - 1 <= x && x < WORLD_MAX_WIDTH && WORLD_MIN_HEIGHT - 1 <= y && y
            < WORLD_MAX_HEIGHT {
            Ok(Robot { id: -1, x, y, heading, is_lost: false })
        } else {
            Err(ERROR_OUTSIDE_WORLD_BOUNDS)
        }
    }
}

impl std::str::FromStr for Robot {
    type Err = &'static str;

    fn from_str(s: &str) -> Result<Robot, &'static str> {
        Robot::parse(s)
    }
}

/// A robot may not be defined on a cell that a robot stands on: such a
/// definition is refused, whatever id it would have had.
pub proof fn lemma_occupied_cell_refused(line: Seq<char>, w: WorldView, id: i32, robot: Robot)
    requires
        robot_from(words(line)) == Ok::<Robot, &'static str>(robot),
        robot.within(w),
        w.occupant(robot.x as int, robot.y as int) != -1,
    ensures
        definition_outcome(line, w, id) == Err::<Robot, &'static str>(ERROR_LOCATION_OCCUPIED),
{
}

/// Defines a robot from `line` and gives it a place on `world` with id
/// `robot_id`. A line that does not read as a robot, a cell outside the grid or
/// a cell that holds a robot already is refused, and `world` is left as it was.
pub fn define_robot(line: &str, world: &mut World, robot_id: &i32) -> (r: Result<Robot, &'static str>)
    requires
        old(world).wf(),
    ensures
        r == definition_outcome(line@, old(world)@, *robot_id),
        final(world).wf(),
        final(world)@ == (match r {
            Ok(robot) => old(world)@.occupy(robot.x as int, robot.y as int, *robot_id),
            Err(_) => old(world)@,
        }),
        r matches Ok(robot) ==> robot.within(final(world)@) && !robot.is_lost,
        old(world)@.scents_kept_in(final(world)@),
{
    let mut robot = match Robot::parse(line) {
        Ok(r) => r,
        Err(e) => {
            return Err(e);
        },
    };
    if !(robot.x < world.width && robot.y < world.height) {
        return Err(ERROR_OUTSIDE_WORLD_BOUNDS);
    }
    if world.is_location_occupied(&robot.x, &robot.y) {
        return Err(ERROR_LOCATION_OCCUPIED);
    }
    robot.id = *robot_id;
    world.place_robot_at(robot_id, &robot.x, &robot.y);
    Ok(robot)
}

} // verus!
