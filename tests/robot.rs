use martian_robots::heading::{Heading, PARSE_ERROR_INVALID_HEADING};
use martian_robots::robot::{
    define_robot, Robot, Step, ERROR_LOCATION_OCCUPIED, ERROR_OUTSIDE_WORLD_BOUNDS,
    PARSE_ERROR_BAD_X_VAL, PARSE_ERROR_BAD_Y_VAL, PARSE_ERROR_MISSING_HDNG,
    PARSE_ERROR_MISSING_VALS, PARSE_ERROR_MISSING_Y_VAL,
};
use martian_robots::world::{Dimensions, World};

fn report(r: &Robot) -> (i32, i32, Heading, bool) {
    (r.x, r.y, r.heading, r.is_lost)
}

#[test]
fn spin_right() {
    let mut test_bot = "1 1 n".parse::<Robot>().unwrap();

    test_bot.id = 1;

    test_bot.turn_right();
    assert_eq!(test_bot.heading, Heading::East);
    test_bot.turn_right();
    assert_eq!(test_bot.heading, Heading::South);
    test_bot.turn_right();
    assert_eq!(test_bot.heading, Heading::West);
    test_bot.turn_right();
    assert_eq!(test_bot.heading, Heading::North);
}

#[test]
fn spin_left() {
    let mut test_bot = "1 1 n".parse::<Robot>().unwrap();

    test_bot.id = 1;

    test_bot.turn_left();
    assert_eq!(test_bot.heading, Heading::West);
    test_bot.turn_left();
    assert_eq!(test_bot.heading, Heading::South);
    test_bot.turn_left();
    assert_eq!(test_bot.heading, Heading::East);
    test_bot.turn_left();
    assert_eq!(test_bot.heading, Heading::North);
}

#[test]
fn navigate() {
    let world_dims = "5 5".parse::<Dimensions>().unwrap();
    let mut test_world = World::new(&world_dims.width, &world_dims.height);
    let mut test_bot = "1 1 n".parse::<Robot>().unwrap();

    test_bot.id = 1;

    test_bot.forward(&mut test_world);
    assert_eq!(test_bot.position(), (&1, &2));
    test_bot.turn_left();
    assert_eq!(test_bot.heading, Heading::West);
    test_bot.forward(&mut test_world);
    test_bot.forward(&mut test_world);
    assert!(test_bot.is_lost);
}

#[test]
fn create_invalid_robots() {
    // Arguments missing
    let robot = "".parse::<Robot>();
    assert_eq!(robot.err(), Some(PARSE_ERROR_MISSING_VALS));

    // Invalid X argument
    let robot = "a".parse::<Robot>();
    assert_eq!(robot.err(), Some(PARSE_ERROR_BAD_X_VAL));

    // Valid X argument, invalid Y argument
    let robot = "1 a".parse::<Robot>();
    assert_eq!(robot.err(), Some(PARSE_ERROR_BAD_Y_VAL));

    // Valid X argument, but missing Y argument and heading
    let robot = "1".parse::<Robot>();
    assert_eq!(robot.err(), Some(PARSE_ERROR_MISSING_Y_VAL));

    // Valid location arguments, but missing heading
    let robot = "1 1".parse::<Robot>();
    assert_eq!(robot.err(), Some(PARSE_ERROR_MISSING_HDNG));

    // Valid location arguments, but invalid heading
    let robot = "1 1 q".parse::<Robot>();
    assert_eq!(robot.err(), Some(PARSE_ERROR_INVALID_HEADING));

    // Coordinates are zero-based, so the corner cell is a valid location
    let robot = "0 0 e".parse::<Robot>();
    assert_eq!(robot, Ok(Robot { id: -1, x: 0, y: 0, heading: Heading::East, is_lost: false }));

    // Correct, but invalid location arguments
    let robot = "51 51 e".parse::<Robot>();
    assert_eq!(robot.err(), Some(ERROR_OUTSIDE_WORLD_BOUNDS));
}

#[test]
fn negative_coordinates_lie_outside_every_world() {
    assert_eq!("-1 0 n".parse::<Robot>().err(), Some(ERROR_OUTSIDE_WORLD_BOUNDS));
    assert_eq!("0 -1 n".parse::<Robot>().err(), Some(ERROR_OUTSIDE_WORLD_BOUNDS));
    assert_eq!("49 49 w".parse::<Robot>().map(|r| (r.x, r.y)), Ok((49, 49)));
    assert_eq!("50 0 w".parse::<Robot>().err(), Some(ERROR_OUTSIDE_WORLD_BOUNDS));
}

#[test]
fn new_robot_is_not_lost() {
    let r = Robot::new(3, 2, 1, Heading::South);
    assert_eq!(r, Robot { id: 3, x: 2, y: 1, heading: Heading::South, is_lost: false });
}

/// The 5x5 world of the scenarios, with one robot defined on it.
fn world_with(line: &str) -> (World, Robot) {
    let mut world = World::new(&5, &5);
    let robot = define_robot(line, &mut world, &0).unwrap();
    (world, robot)
}

#[test]
fn scenario_round_trip_stays_on_the_grid() {
    let (mut world, mut robot) = world_with("1 1 N");
    robot.turn_and_move("FRRFLLFFRRFLL", &mut world);
    assert_eq!(report(&robot), (1, 2, Heading::North, false));
    assert!(world.is_location_occupied(&1, &2));
    assert!(!world.is_location_occupied(&1, &1));
}

#[test]
fn scenario_same_commands_from_further_east() {
    let (mut world, mut robot) = world_with("3 2 N");
    robot.turn_and_move("FRRFLLFFRRFLL", &mut world);
    assert_eq!(report(&robot), (3, 3, Heading::North, false));
}

#[test]
fn scenario_facing_west_on_the_west_edge() {
    let (mut world, mut robot) = world_with("0 3 W");
    robot.turn_and_move("LLFFFLFLFL", &mut world);
    assert_eq!(report(&robot), (2, 4, Heading::South, false));
}

#[test]
fn robot_falling_off_the_north_edge_is_lost_where_it_stood() {
    let (mut world, mut robot) = world_with("3 2 N");
    robot.turn_and_move("FFFRRF", &mut world);
    assert_eq!(report(&robot), (3, 4, Heading::North, true));
    assert!(!world.is_location_occupied(&3, &4));
    assert!(!world.is_it_safe(&3, &4, &Heading::North));
    assert!(world.is_it_safe(&3, &4, &Heading::East));
}

#[test]
fn scenario_scent_stops_a_second_robot() {
    let (mut world, mut first) = world_with("3 2 N");
    first.turn_and_move("FFF", &mut world);
    assert_eq!(report(&first), (3, 4, Heading::North, true));

    let mut second = define_robot("3 4 N", &mut world, &1).unwrap();
    second.turn_and_move("F", &mut world);
    assert_eq!(report(&second), (3, 4, Heading::North, false));
    assert_eq!(world.locations[4 * 5 + 3].id, 1);

    // The scent holds the robot back that way only.
    second.turn_and_move("RF", &mut world);
    assert_eq!(report(&second), (4, 4, Heading::East, false));
}

#[test]
fn forward_reports_each_outcome() {
    let mut world = World::new(&3, &3);
    let mut a = define_robot("1 1 E", &mut world, &0).unwrap();
    let mut b = define_robot("2 1 W", &mut world, &1).unwrap();
    assert_eq!(b.forward(&mut world), Step::Blocked);
    assert_eq!(report(&b), (2, 1, Heading::West, false));
    assert_eq!(a.forward(&mut world), Step::Blocked);
    a.turn_right();
    assert_eq!(a.forward(&mut world), Step::Moved);
    assert_eq!(report(&a), (1, 0, Heading::South, false));
    assert_eq!(a.forward(&mut world), Step::Lost);
    assert_eq!(report(&a), (1, 0, Heading::South, true));
    let mut c = define_robot("1 0 S", &mut world, &2).unwrap();
    assert_eq!(c.forward(&mut world), Step::Scented);
    assert_eq!(report(&c), (1, 0, Heading::South, false));
}

#[test]
fn commands_are_case_insensitive_and_others_are_skipped() {
    let (mut world, mut robot) = world_with("2 2 N");
    robot.turn_and_move("f x r 7 F l?L", &mut world);
    assert_eq!(report(&robot), (3, 3, Heading::West, false));
    robot.turn_and_move("", &mut world);
    assert_eq!(report(&robot), (3, 3, Heading::West, false));
}

#[test]
fn lost_robot_ignores_the_rest_of_the_commands() {
    let (mut world, mut robot) = world_with("0 0 S");
    robot.turn_and_move("FLLFFF", &mut world);
    assert_eq!(report(&robot), (0, 0, Heading::South, true));
    assert!(!world.is_location_occupied(&0, &1));
    assert!(!world.is_location_occupied(&0, &0));
}

#[test]
fn definition_on_an_occupied_cell_is_refused() {
    let mut world = World::new(&5, &5);
    let first = define_robot("1 1 N", &mut world, &0).unwrap();
    assert_eq!(first.id, 0);
    assert_eq!(define_robot("1 1 E", &mut world, &1), Err(ERROR_LOCATION_OCCUPIED));
    assert_eq!(world.locations[1 * 5 + 1].id, 0);
}

#[test]
fn definition_outside_the_world_is_refused() {
    let mut world = World::new(&5, &5);
    assert_eq!(define_robot("5 0 N", &mut world, &0), Err(ERROR_OUTSIDE_WORLD_BOUNDS));
    assert_eq!(define_robot("0 5 N", &mut world, &0), Err(ERROR_OUTSIDE_WORLD_BOUNDS));
    assert_eq!(define_robot("0 0 Q", &mut world, &0), Err(PARSE_ERROR_INVALID_HEADING));
    assert!(world.locations.iter().all(|l| l.id == -1));
    let r = define_robot(" 4 4 s ", &mut world, &9).unwrap();
    assert_eq!(r, Robot { id: 9, x: 4, y: 4, heading: Heading::South, is_lost: false });
    assert_eq!(world.locations[24].id, 9);
}
