use martian_robots::heading::Heading;
use martian_robots::location::Location;
use martian_robots::world::{
    Dimensions, World, ERROR_INVALID_WORLD_DIMS, PARSE_ERROR_BAD_HEIGHT, PARSE_ERROR_BAD_WIDTH,
    PARSE_ERROR_MISSING_DIM, PARSE_ERROR_MISSING_DIMS, WORLD_MAX_HEIGHT, WORLD_MAX_WIDTH,
    WORLD_MIN_HEIGHT, WORLD_MIN_WIDTH,
};

#[test]
fn parse_test_valid_dims() {
    // Minimum valid dimensions
    let d = format!("{} {}", WORLD_MIN_WIDTH, WORLD_MIN_HEIGHT).parse::<Dimensions>().unwrap();
    assert_eq!(&d.width, &WORLD_MIN_WIDTH);
    assert_eq!(&d.height, &WORLD_MIN_HEIGHT);

    // Midpoint valid dimensions
    let test_width = ((WORLD_MAX_WIDTH - WORLD_MIN_WIDTH) as f32 / 2.0).ceil() as i32;
    let test_height = ((WORLD_MAX_HEIGHT - WORLD_MIN_HEIGHT) as f32 / 2.0).ceil() as i32;
    let d = format!("{} {}", test_width, test_height).parse::<Dimensions>().unwrap();
    assert_eq!(&d.width, &test_width);
    assert_eq!(&d.height, &test_height);

    // Maximum valid dimensions
    let d = format!("{} {}", WORLD_MAX_WIDTH, WORLD_MAX_HEIGHT).parse::<Dimensions>().unwrap();
    assert_eq!(&d.width, &WORLD_MAX_WIDTH);
    assert_eq!(&d.height, &WORLD_MAX_HEIGHT);
}

#[test]
fn parse_test_invalid_dims() {
    // Both dimensions missing
    let d = "".parse::<Dimensions>();
    assert_eq!(d.err(), Some(PARSE_ERROR_MISSING_DIMS));

    // One valid dimension, but should be two
    let d = "1".parse::<Dimensions>();
    assert_eq!(d.err(), Some(PARSE_ERROR_MISSING_DIM));

    // One invalid dimension
    let d = "a".parse::<Dimensions>();
    assert_eq!(d.err(), Some(PARSE_ERROR_BAD_WIDTH));

    // Two dimensions, but the first one is invalid
    let d = "a 1".parse::<Dimensions>();
    assert_eq!(d.err(), Some(PARSE_ERROR_BAD_WIDTH));

    // Two dimensions, but the second one is invalid
    let d = "1 b".parse::<Dimensions>();
    assert_eq!(d.err(), Some(PARSE_ERROR_BAD_HEIGHT));

    // Both dimensions parse correctly but at least one is invalid
    let d = "0 0".parse::<Dimensions>();
    assert_eq!(d.err(), Some(ERROR_INVALID_WORLD_DIMS));

    // Both dimensions parse correctly but at least one is invalid
    let d = "-1 -1".parse::<Dimensions>();
    assert_eq!(d.err(), Some(ERROR_INVALID_WORLD_DIMS));

    // Both dimensions parse correctly but at least one is invalid
    let d = "25 51".parse::<Dimensions>();
    assert_eq!(d.err(), Some(ERROR_INVALID_WORLD_DIMS));

    // Both dimensions parse correctly but at least one is invalid
    let d = "52 50".parse::<Dimensions>();
    assert_eq!(d.err(), Some(ERROR_INVALID_WORLD_DIMS));
}

#[test]
fn create_world_test_valid_dims() {
    // Minimum valid dimensions
    let world = World::new(&WORLD_MIN_WIDTH, &WORLD_MIN_HEIGHT);

    assert_eq!(&world.width, &WORLD_MIN_WIDTH);
    assert_eq!(&world.height, &WORLD_MIN_HEIGHT);

    // Midpoint valid dimensions
    let test_width = ((WORLD_MAX_WIDTH - WORLD_MIN_WIDTH) as f32 / 2.0).ceil() as i32;
    let test_height = ((WORLD_MAX_HEIGHT - WORLD_MIN_HEIGHT) as f32 / 2.0).ceil() as i32;
    let world = World::new(&test_width, &test_height);

    assert_eq!(&world.width, &test_width);
    assert_eq!(&world.height, &test_height);

    // Maximum valid dimensions
    let world = World::new(&WORLD_MAX_WIDTH, &WORLD_MAX_HEIGHT);

    assert_eq!(&world.width, &WORLD_MAX_WIDTH);
    assert_eq!(&world.height, &WORLD_MAX_HEIGHT);
}

#[test]
fn dimensions_ignore_extra_blanks_and_words() {
    let d = "  7\t\t9  extra ".parse::<Dimensions>().unwrap();
    assert_eq!(d, Dimensions { width: 7, height: 9 });
    let d = "+3 4".parse::<Dimensions>().unwrap();
    assert_eq!(d, Dimensions { width: 3, height: 4 });
}

#[test]
fn dimensions_too_large_for_an_integer_are_not_integers() {
    assert_eq!("99999999999 5".parse::<Dimensions>().err(), Some(PARSE_ERROR_BAD_WIDTH));
    assert_eq!("5 -99999999999".parse::<Dimensions>().err(), Some(PARSE_ERROR_BAD_HEIGHT));
    assert_eq!("- 5".parse::<Dimensions>().err(), Some(PARSE_ERROR_BAD_WIDTH));
    assert_eq!("5 +".parse::<Dimensions>().err(), Some(PARSE_ERROR_BAD_HEIGHT));
}

#[test]
fn new_world_is_empty_and_safe_everywhere() {
    let world = World::new(&4, &3);
    assert_eq!(world.locations.len(), 12);
    for y in 0..3 {
        for x in 0..4 {
            assert!(!world.is_location_occupied(&x, &y));
            for h in [Heading::North, Heading::East, Heading::South, Heading::West] {
                assert!(world.is_it_safe(&x, &y, &h));
            }
        }
    }
}

#[test]
fn cells_are_laid_out_row_by_row() {
    let world = World::new(&4, &3);
    assert_eq!(world.locations[0], Location::new(0, 0));
    assert_eq!(world.locations[5], Location::new(1, 1));
    assert_eq!(world.locations[11], Location::new(3, 2));
}

#[test]
fn hazard_marks_only_its_own_cell_and_direction() {
    let mut world = World::new(&5, &5);
    world.here_be_monsters(&2, &3, &Heading::East);
    assert!(!world.is_it_safe(&2, &3, &Heading::East));
    assert!(world.is_it_safe(&2, &3, &Heading::North));
    assert!(world.is_it_safe(&2, &3, &Heading::South));
    assert!(world.is_it_safe(&2, &3, &Heading::West));
    assert!(world.is_it_safe(&3, &3, &Heading::East));
    assert!(world.is_it_safe(&2, &2, &Heading::East));

    // Later changes to the world do not heal it.
    world.place_robot_at(&4, &2, &3);
    world.remove_robot_from(&2, &3);
    world.here_be_monsters(&2, &3, &Heading::East);
    assert!(!world.is_it_safe(&2, &3, &Heading::East));
}

#[test]
fn place_and_remove_robot() {
    let mut world = World::new(&5, &5);
    world.place_robot_at(&7, &1, &4);
    assert!(world.is_location_occupied(&1, &4));
    assert_eq!(world.locations[4 * 5 + 1].id, 7);
    assert!(!world.is_location_occupied(&4, &1));

    world.remove_robot_from(&1, &4);
    assert!(!world.is_location_occupied(&1, &4));
    assert_eq!(world.locations[4 * 5 + 1].id, -1);
    world.remove_robot_from(&1, &4);
    assert!(!world.is_location_occupied(&1, &4));
    assert_eq!(world.locations[4 * 5 + 1].id, -1);
}

#[test]
fn location_new_and_move_to() {
    let mut loc = Location::new(3, 4);
    assert_eq!(loc.id, -1);
    assert!(loc.can_go_north && loc.can_go_south && loc.can_go_east && loc.can_go_west);
    loc.move_to(1, 2);
    assert_eq!((loc.x, loc.y), (1, 2));
    assert_eq!(loc.id, -1);
}
