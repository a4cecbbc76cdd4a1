use osm2lanes::metric::{Metre, Speed};
use osm2lanes::metric::SpeedError;

#[test]
fn speeds_as_tagged() {
    assert_eq!(Speed::from_str("50").unwrap(), Speed::Kph(50000));
    assert_eq!(Speed::from_str("30 mph").unwrap(), Speed::Mph(30000));
    assert_eq!(Speed::from_str("12.5 knots").unwrap(), Speed::Knots(12500));
    assert!(Speed::from_str("fast").is_err());
    assert_eq!(Speed::Kph(50000).to_string(), "50");
    assert_eq!(Speed::Mph(30000).to_string(), "30 mph");
    assert_eq!(Speed::Knots(12500).to_string(), "12.5 knots");
}

#[test]
fn speed_text_reads_back() {
    for s in [Speed::Kph(1000), Speed::Kph(120500), Speed::Mph(70000), Speed::Knots(4000)] {
        assert_eq!(Speed::from_str(&s.to_string()).unwrap(), s);
    }
}

#[test]
fn metres() {
    let a = Metre::from_millimetres(1500);
    let b = Metre::from_millimetres(250);
    assert_eq!(a.plus(&b).millimetres(), 1750);
    assert_eq!(a.to_string(), "1.5");
    assert_eq!(Metre::from_millimetres(3000).to_string(), "3");
}

#[test]
fn speed_errors_as_text() {
    assert_eq!(Speed::from_str("").unwrap_err().to_string(), "empty");
    assert_eq!(Speed::from_str("50 furlongs").unwrap_err().to_string(), "unknown unit 'furlongs'");
    assert_eq!(Speed::from_str("400").unwrap_err().to_string(), "out of range");
    assert!(matches!(Speed::from_str("x1").unwrap_err(), SpeedError::Parse));
}

#[test]
fn decimals_beyond_thousandths_go_to_the_next_thousandth_away_from_zero() {
    assert_eq!(Speed::from_str("50.1234").unwrap(), Speed::Kph(50124));
    assert_eq!(Speed::from_str("50.1230").unwrap(), Speed::Kph(50123));
    assert_eq!(Speed::from_str("0.0001").unwrap(), Speed::Kph(1));
    assert!(Speed::from_str("300.0001").is_err());
    assert!(Speed::from_str("-0.0001").is_err());
}
