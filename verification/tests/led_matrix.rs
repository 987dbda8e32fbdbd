use board_logic::matrix::{blank, heart, RunningLight, BORDER_CELLS};

#[test]
fn heart_picture() {
    assert_eq!(
        heart(),
        [
            [0, 1, 0, 1, 0],
            [1, 0, 1, 0, 1],
            [1, 0, 0, 0, 1],
            [0, 1, 0, 1, 0],
            [0, 0, 1, 0, 0],
        ]
    );
}

#[test]
fn blank_picture() {
    assert_eq!(blank(), [[0u8; 5]; 5]);
}

#[test]
fn light_runs_clockwise_round_the_border() {
    let mut light = RunningLight::new();
    let mut cells = Vec::new();
    for _ in 0..BORDER_CELLS {
        cells.push((light.row(), light.col()));
        light.advance();
    }
    let expected = vec![
        (0, 0), (0, 1), (0, 2), (0, 3),
        (0, 4), (1, 4), (2, 4), (3, 4),
        (4, 4), (4, 3), (4, 2), (4, 1),
        (4, 0), (3, 0), (2, 0), (1, 0),
    ];
    assert_eq!(cells, expected);
    assert_eq!((light.row(), light.col()), (0, 0));
}

#[test]
fn frame_lights_one_cell() {
    let mut light = RunningLight::new();
    for _ in 0..5 {
        light.advance();
    }
    let frame = light.frame();
    let mut expected = [[0u8; 5]; 5];
    expected[1][4] = 1;
    assert_eq!(frame, expected);
    assert_eq!(frame.iter().flatten().filter(|v| **v == 1).count(), 1);
}
