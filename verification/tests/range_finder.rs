use board_logic::sonar::echo_distance_cm;

#[test]
fn distance_from_echo_ticks() {
    assert_eq!(echo_distance_cm(0, 0), 0);
    assert_eq!(echo_distance_cm(0, 2319), 0);
    assert_eq!(echo_distance_cm(0, 2320), 1);
    assert_eq!(echo_distance_cm(1000, 1000 + 23_199), 9);
    assert_eq!(echo_distance_cm(5, 5 + 232_000), 100);
}
