use io_component::listener::find_output_pin;
use io_component::poller::{poll_period_ms, EdgeDetector};

fn bindings(items: &[(usize, &str)]) -> Vec<(usize, String)> {
    items.iter().map(|(p, t)| (*p, t.to_string())).collect()
}

#[test]
fn poller_publishes_edges_only() {
    let inputs = bindings(&[(0, "in0"), (1, "in1")]);
    let readings = [0b0000u16, 0b0001, 0b0001, 0b0011];
    // the detector starts from the register as read at startup
    let mut detector = EdgeDetector::new(readings[0]);
    assert_eq!(detector.previous, 0xffff);
    let published: Vec<Vec<(usize, bool)>> =
        readings.iter().map(|r| detector.poll(&inputs, *r)).collect();
    // every bound pin is published once at startup, then only edges
    assert_eq!(published[0], vec![(0, false), (1, false)]);
    assert_eq!(published[1], vec![(0, true)]);
    assert_eq!(published[2], vec![]);
    assert_eq!(published[3], vec![(1, true)]);
}

#[test]
fn poller_edge_sequence_from_first_reading() {
    let inputs = bindings(&[(0, "in0"), (1, "in1")]);
    let mut detector = EdgeDetector::new(0b0001);
    assert_eq!(detector.poll(&inputs, 0b0001), vec![(0, true), (1, false)]);
    assert_eq!(detector.poll(&inputs, 0b0001), vec![]);
    assert_eq!(detector.poll(&inputs, 0b0011), vec![(1, true)]);
    assert_eq!(detector.poll(&inputs, 0b0011), vec![]);
    assert_eq!(detector.previous, 0b0011);
}

#[test]
fn poller_reports_positions_in_binding_list() {
    let inputs = bindings(&[(9, "in9"), (12, "in12")]);
    let mut detector = EdgeDetector::new(0x0000);
    assert_eq!(detector.poll(&inputs, 0x0000), vec![(0, false), (1, false)]);
    assert_eq!(detector.poll(&inputs, 0x1000), vec![(1, true)]);
    assert_eq!(detector.poll(&inputs, 0x0200), vec![(0, true), (1, false)]);
    // pins that are not bound never show up
    assert_eq!(detector.poll(&inputs, 0x02ff), vec![]);
}

#[test]
fn listener_matches_topics_exactly() {
    let outputs = bindings(&[(0, "out0"), (3, "out3"), (5, "lamp")]);
    assert_eq!(find_output_pin(&outputs, &"out3".to_string()), Some(3));
    assert_eq!(find_output_pin(&outputs, &"lamp".to_string()), Some(5));
    assert_eq!(find_output_pin(&outputs, &"out".to_string()), None);
    assert_eq!(find_output_pin(&outputs, &"out30".to_string()), None);
    assert_eq!(find_output_pin(&outputs, &"in8".to_string()), None);
    assert_eq!(find_output_pin(&outputs, &"".to_string()), None);
    assert_eq!(find_output_pin(&vec![], &"out0".to_string()), None);
}

#[test]
fn listener_takes_first_binding_of_a_topic() {
    let outputs = bindings(&[(2, "both"), (7, "both")]);
    assert_eq!(find_output_pin(&outputs, &"both".to_string()), Some(2));
}

#[test]
fn poll_period_rounds_to_nearest_millisecond() {
    assert_eq!(poll_period_ms(10), 100);
    assert_eq!(poll_period_ms(1), 1000);
    assert_eq!(poll_period_ms(3), 333);
    assert_eq!(poll_period_ms(6), 167);
    assert_eq!(poll_period_ms(400), 3);
    assert_eq!(poll_period_ms(2000), 1);
    assert_eq!(poll_period_ms(3000), 0);
    assert_eq!(poll_period_ms(u16::MAX), 0);
    assert_eq!(poll_period_ms(0), u64::MAX);
}

#[test]
fn poll_period_matches_float_rounding() {
    for f in 1..=u16::MAX {
        let expected = (1000f64 / f as f64).round() as u64;
        assert_eq!(poll_period_ms(f), expected, "{}", f);
    }
}
