use ship_navigation::{
    manhattan_distance, parse_instruction, read_instructions, rotate_waypoint, Instruction,
    LineError, ParseError, Ship,
};

const TEST_JOURNEY: &str = "F10\nN3\nF7\nR90\nF11";

fn journey() -> Vec<Instruction> {
    let lines: Vec<&str> = TEST_JOURNEY.lines().collect();
    read_instructions(&lines).expect("the journey reads")
}

#[test]
fn rotation_is_correctly_applied() {
    assert_eq!(rotate_waypoint(1, 0, 90), (0, -1));
    assert_eq!(rotate_waypoint(0, -1, 90), (-1, 0));
    assert_eq!(rotate_waypoint(-1, 0, 90), (0, 1));
    assert_eq!(rotate_waypoint(0, 1, 90), (1, 0));

    assert_eq!(rotate_waypoint(1, 0, -90), (0, 1));
    assert_eq!(rotate_waypoint(0, -1, -90), (1, 0));
    assert_eq!(rotate_waypoint(-1, 0, -90), (0, -1));
    assert_eq!(rotate_waypoint(0, 1, -90), (-1, 0));
}

#[test]
fn plot_is_correctly_calculated() {
    let instructions = journey();
    let mut ship = Ship::new();
    let (north, east) = ship.plot(&instructions);
    assert_eq!(25, north.abs() + east.abs());
}

#[test]
fn waypoint_plot_is_correctly_calculated() {
    let instructions = journey();
    let mut ship = Ship::new();
    let (north, east) = ship.plot_with_waypoint(&instructions);
    assert_eq!(286, north.abs() + east.abs());
}

#[test]
fn plot_ends_at_exact_position() {
    let instructions = journey();
    assert_eq!(Ship::new().plot(&instructions), (-8, 17));
    assert_eq!(Ship::new().plot_with_waypoint(&instructions), (-72, 214));
}

#[test]
fn rotation_by_larger_multiples() {
    assert_eq!(rotate_waypoint(10, 4, 0), (10, 4));
    assert_eq!(rotate_waypoint(10, 4, 180), (-10, -4));
    assert_eq!(rotate_waypoint(10, 4, 270), (-4, 10));
    assert_eq!(rotate_waypoint(10, 4, -270), (4, -10));
    assert_eq!(rotate_waypoint(10, 4, 360), (10, 4));
    assert_eq!(rotate_waypoint(10, 4, -720), (10, 4));
    assert_eq!(rotate_waypoint(10, 4, 450), (4, -10));
}

#[test]
fn four_equal_rotations_give_the_vector_back() {
    for degrees in [-270i64, -180, -90, 90, 180, 270, 630] {
        let mut v = (10i64, 4i64);
        for _ in 0..4 {
            v = rotate_waypoint(v.0, v.1, degrees);
        }
        assert_eq!(v, (10, 4));
    }
}

#[test]
fn simulations_do_not_affect_each_other() {
    let instructions = journey();
    let heading_first = Ship::new().plot(&instructions);
    let waypoint_second = Ship::new().plot_with_waypoint(&instructions);
    let waypoint_first = Ship::new().plot_with_waypoint(&instructions);
    let heading_second = Ship::new().plot(&instructions);
    assert_eq!(heading_first, heading_second);
    assert_eq!(waypoint_first, waypoint_second);
    let mut ship = Ship::new();
    ship.plot(&instructions);
    let mut fresh = Ship::new();
    assert_eq!(ship.plot_with_waypoint(&[]), (-8, 17));
    assert_eq!(fresh.plot_with_waypoint(&instructions), (-72, 214));
}

#[test]
fn unknown_action_is_rejected() {
    assert_eq!(parse_instruction("X5"), Err(ParseError::UnknownAction('X')));
    let lines = vec!["F10", "X5", "N3"];
    assert_eq!(
        read_instructions(&lines),
        Err(LineError { line: 1, error: ParseError::UnknownAction('X') })
    );
}

#[test]
fn rotation_off_the_quarter_turns_is_rejected() {
    assert_eq!(parse_instruction("R45"), Err(ParseError::InvalidRotation(45)));
    assert_eq!(parse_instruction("L100"), Err(ParseError::InvalidRotation(100)));
    let lines = vec!["R45"];
    assert_eq!(
        read_instructions(&lines),
        Err(LineError { line: 0, error: ParseError::InvalidRotation(45) })
    );
}

#[test]
fn missing_digits_are_rejected() {
    assert_eq!(parse_instruction("F"), Err(ParseError::MalformedLine));
    assert_eq!(parse_instruction(""), Err(ParseError::MalformedLine));
    assert_eq!(parse_instruction("Fx10"), Err(ParseError::MalformedLine));
    assert_eq!(parse_instruction("?10"), Err(ParseError::MalformedLine));
    let lines = vec!["N1", "E2", "F"];
    assert_eq!(
        read_instructions(&lines),
        Err(LineError { line: 2, error: ParseError::MalformedLine })
    );
}

#[test]
fn oversized_magnitude_is_rejected() {
    assert_eq!(parse_instruction("F9223372036854775808"), Err(ParseError::InvalidMagnitude));
    assert_eq!(
        parse_instruction("F9223372036854775807"),
        Ok(Instruction::Forward(9223372036854775807))
    );
}

#[test]
fn each_action_is_read() {
    let lines = vec!["N1", "S2", "E3", "W4", "F5", "R90", "L270", "F07 trailing"];
    assert_eq!(
        read_instructions(&lines),
        Ok(vec![
            Instruction::North(1),
            Instruction::South(2),
            Instruction::East(3),
            Instruction::West(4),
            Instruction::Forward(5),
            Instruction::Right(90),
            Instruction::Left(270),
            Instruction::Forward(7),
        ])
    );
    assert_eq!(read_instructions(&[]), Ok(vec![]));
}

#[test]
fn turn_order_changes_the_outcome() {
    let turn_first = [Instruction::Right(90), Instruction::Forward(10)];
    let move_first = [Instruction::Forward(10), Instruction::Right(90)];
    assert_eq!(Ship::new().plot(&turn_first), (-10, 0));
    assert_eq!(Ship::new().plot(&move_first), (0, 10));
    assert_eq!(Ship::new().plot_with_waypoint(&turn_first), (-100, 10));
    assert_eq!(Ship::new().plot_with_waypoint(&move_first), (10, 100));
}

#[test]
fn compass_moves_under_each_rule_set() {
    let moves = [
        Instruction::North(3),
        Instruction::West(5),
        Instruction::South(1),
        Instruction::East(2),
        Instruction::Left(90),
        Instruction::Forward(2),
    ];
    assert_eq!(Ship::new().plot(&moves), (4, -3));
    assert_eq!(Ship::new().plot_with_waypoint(&moves), (14, -6));
}

#[test]
fn manhattan_distance_sums_magnitudes() {
    assert_eq!(manhattan_distance((-8, 17)), 25);
    assert_eq!(manhattan_distance((-72, 214)), 286);
    assert_eq!(manhattan_distance((0, 0)), 0);
    assert_eq!(manhattan_distance((i64::MIN, i64::MIN)), 1u128 << 64);
}

#[test]
fn journeys_out_of_range_are_detected() {
    let instructions = journey();
    assert!(Ship::new().can_plot(&instructions));
    assert!(Ship::new().can_plot_with_waypoint(&instructions));
    let far = [Instruction::Forward(i64::MAX), Instruction::Forward(1)];
    assert!(!Ship::new().can_plot(&far));
    assert!(Ship::new().can_plot(&far[..1]));
    assert!(!Ship::new().can_plot_with_waypoint(&far[..1]));
    let west = [Instruction::West(i64::MAX), Instruction::West(1)];
    assert!(Ship::new().can_plot(&west));
    assert!(!Ship::new().can_plot(&[Instruction::West(i64::MAX), Instruction::West(2)]));
    assert!(Ship::new().can_plot_with_waypoint(&west));
    assert!(!Ship::new()
        .can_plot_with_waypoint(&[Instruction::West(i64::MAX), Instruction::West(12)]));
}
