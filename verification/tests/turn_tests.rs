use routee_compass::turn::{GraphError, Turn};

#[test]
fn test_turn_bin_boundaries() {
    let cases: Vec<(i16, Turn)> = vec![
        (-180, Turn::UTurn),
        (-160, Turn::UTurn),
        (-159, Turn::SharpLeft),
        (-135, Turn::SharpLeft),
        (-134, Turn::Left),
        (-45, Turn::Left),
        (-44, Turn::SlightLeft),
        (-20, Turn::SlightLeft),
        (-19, Turn::NoTurn),
        (0, Turn::NoTurn),
        (19, Turn::NoTurn),
        (20, Turn::SlightRight),
        (44, Turn::SlightRight),
        (45, Turn::Right),
        (134, Turn::Right),
        (135, Turn::SharpRight),
        (159, Turn::SharpRight),
        (160, Turn::UTurn),
        (180, Turn::UTurn),
    ];
    for (angle, expected) in cases {
        assert_eq!(Turn::from_angle(angle).unwrap(), expected);
    }
}

#[test]
fn test_turn_classification_total_over_domain() {
    let mut angle: i16 = -180;
    while angle <= 180 {
        assert!(Turn::from_angle(angle).is_ok());
        angle += 1;
    }
}

#[test]
fn test_turn_out_of_range_reports_value() {
    for angle in [-181i16, 181, 1000, -32768] {
        match Turn::from_angle(angle) {
            Ok(_) => panic!("angle {} must be rejected", angle),
            Err(GraphError::AttributeError { attribute, value }) => {
                assert_eq!(attribute, "turn");
                assert_eq!(value, angle as i64);
            }
        }
    }
}
