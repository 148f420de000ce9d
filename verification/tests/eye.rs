//! Vision patterns: each scenario renders the sensory vector as one
//! character per cell ('#' close, '+' nearer than far, '.' far, ' ' empty).

use neuroevo::Eye;
use neuroevo::Food;
use neuroevo::Point;
use neuroevo::SCALE;

const TEST_EYE_CELLS: usize = 13;

fn food(x: i64, y: i64) -> Food {
    Food { position: Point { x, y } }
}

fn pattern(vision: &[i64]) -> String {
    vision
        .iter()
        .map(|&cell| {
            if cell >= 700_000 {
                '#'
            } else if cell >= 300_000 {
                '+'
            } else if cell > 0 {
                '.'
            } else {
                ' '
            }
        })
        .collect()
}

fn range_case(range: i64) -> String {
    // One food half a unit straight ahead, a quarter-turn field of view.
    let eye = Eye::new(range, 250_000, TEST_EYE_CELLS);
    let foods = vec![food(SCALE / 2, SCALE)];
    let vision = eye.process_vision(Point { x: SCALE / 2, y: SCALE / 2 }, 0, &foods);
    pattern(&vision)
}

#[test]
fn vision_ranges() {
    // The food fades with a shrinking radius and disappears exactly when
    // the radius no longer strictly exceeds the distance.
    assert_eq!(range_case(1_000_000), "      +      ");
    assert_eq!(range_case(900_000), "      +      ");
    assert_eq!(range_case(800_000), "      +      ");
    assert_eq!(range_case(700_000), "      .      ");
    assert_eq!(range_case(600_000), "      .      ");
    assert_eq!(range_case(500_000), "             ");
    assert_eq!(range_case(400_000), "             ");
    assert_eq!(range_case(300_000), "             ");
    assert_eq!(range_case(200_000), "             ");
    assert_eq!(range_case(100_000), "             ");
}

fn rotation_case(rotation: i64) -> String {
    // One food half a unit to the left, a full-turn field of view, so the
    // food stays visible whichever way the observer turns.
    let eye = Eye::new(SCALE, SCALE, TEST_EYE_CELLS);
    let foods = vec![food(0, SCALE / 2)];
    let vision = eye.process_vision(Point { x: SCALE / 2, y: SCALE / 2 }, rotation, &foods);
    pattern(&vision)
}

#[test]
fn vision_rotations() {
    // Headings in eighths of a turn, pre-wrapped into [-1/2, 1/2] of a turn.
    assert_eq!(rotation_case(0), "         +   ");
    assert_eq!(rotation_case(125_000), "        +    ");
    assert_eq!(rotation_case(250_000), "      +      ");
    assert_eq!(rotation_case(375_000), "    +        ");
    assert_eq!(rotation_case(500_000), "   +         ");
    assert_eq!(rotation_case(-375_000), " +           ");
    assert_eq!(rotation_case(-250_000), "            +");
    assert_eq!(rotation_case(-125_000), "           + ");
}
