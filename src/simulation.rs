use vstd::prelude::*;

use crate::heading::Heading;
use crate::robot::{after_commands, define_robot, definition_outcome, Robot};
use crate::world::{Dimensions, World, WORLD_MAX_HEIGHT, WORLD_MAX_WIDTH, WORLD_MIN_HEIGHT, WORLD_MIN_WIDTH};

verus! {

pub const ERROR_NO_ROBOT_IDS_LEFT: &'static str = "No robot ids are left";

/// What the simulation makes of one line of input.
#[derive(Clone, Copy, Debug, PartialEq, Eq)]
pub enum Reply {
    /// A robot was defined and placed; the next line holds its instructions.
    Placed(Robot),
    /// The definition was refused for the reason given; the next line defines a robot again.
    Refused(&'static str),
    /// The active robot obeyed the line; this is its state afterwards.
    Report(Robot),
}

/// A run over one world: lines alternate between defining a robot and giving
/// the robot just defined its instructions. Ids are handed out from 0 on, one
/// for each robot placed.
#[derive(Debug)]
pub struct Simulation {
    pub world: World,
    pub robot: Robot,
    pub next_id: i32,
    pub awaiting_robot: bool,
}

impl Simulation {
    pub open spec fn wf(&self) -> bool {
        &&& self.world.wf()
        &&& 0 <= self.next_id
        &&& !self.awaiting_robot ==> self.robot.within(self.world@)
    }

    /// A run on an empty world of the given size, waiting for its first robot.
    pub fn new(dims: &Dimensions) -> (r: Simulation)
        requires
            WORLD_MIN_WIDTH <= dims.width <= WORLD_MAX_WIDTH,
            WORLD_MIN_HEIGHT <= dims.height <= WORLD_MAX_HEIGHT,
        ensures
            r.wf(),
            r.world.width == dims.width,
            r.world.height == dims.height,
            forall|x: int, y: int| r.world.in_bounds(x, y) ==> #[trigger] r.world@.occupant(x, y) == -1,
            forall|x: int, y: int, h: Heading|
                r.world.in_bounds(x, y) ==> #[trigger] r.world@.is_safe(x, y, h),
            r.next_id == 0,
            r.awaiting_robot,
    {
        Simulation {
            world: World::new(&dims.width, &dims.height),
            robot: Robot::new(0, 0, 0, Heading::North),
            next_id: 0,
            awaiting_robot: true,
        }
    }

    /// Takes one line of input: a robot definition when one is awaited, else
    /// the instructions for the robot defined last.
    pub fn feed(&mut self, line: &str) -> (r: Reply)
        requires
            old(self).wf(),
        ensures
            final(self).wf(),
            old(self).world@.scents_kept_in(final(self).world@),
            old(self).awaiting_robot && old(self).next_id == i32::MAX ==> r == Reply::Refused(
                ERROR_NO_ROBOT_IDS_LEFT,
            ) && *final(self) == *old(self),
            old(self).awaiting_robot && old(self).next_id < i32::MAX ==> match definition_outcome(
                line@,
                old(self).world@,
                old(self).next_id,
            ) {
                Ok(robot) => {
                    &&& r == Reply::Placed(robot)
                    &&& final(self).robot == robot
                    &&& final(self).world@ == old(self).world@.occupy(
                        robot.x as int,
                        robot.y as int,
                        old(self).next_id,
                    )
                    &&& final(self).next_id == old(self).next_id + 1
                    &&& !final(self).awaiting_robot
                },
                Err(e) => {
                    &&& r == Reply::Refused(e)
                    &&& final(self).robot == old(self).robot
                    &&& final(self).world@ == old(self).world@
                    &&& final(self).next_id == old(self).next_id
                    &&& final(self).awaiting_robot
                },
            },
            !old(self).awaiting_robot ==> {
                &&& (final(self).robot, final(self).world@) == after_commands(
                    old(self).robot,
                    old(self).world@,
                    line@,
                )
                &&& r == Reply::Report(final(self).robot)
                &&& final(self).next_id == old(self).next_id
                &&& final(self).awaiting_robot
            },
    {
        if self.awaiting_robot {
            if self.next_id == i32::MAX {
                return Reply::Refused(ERROR_NO_ROBOT_IDS_LEFT);
            }
            match define_robot(line, &mut self.world, &self.next_id) {
                Ok(robot) => {
                    self.robot = robot;
                    self.next_id = self.next_id + 1;
                    self.awaiting_robot = false;
                    Reply::Placed(robot)
                },
                Err(e) => Reply::Refused(e),
            }
        } else {
            self.robot.turn_and_move(line, &mut self.world);
            self.awaiting_robot = true;
            Reply::Report(self.robot)
        }
    }
}

} // verus!
