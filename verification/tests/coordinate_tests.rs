use gsjp::{Axis, Coordinate, GSJPError, UNITS_PER_DEGREE};

#[test]
fn coordinate_new_ok() {
    assert!(Coordinate::new(90 * UNITS_PER_DEGREE, -180 * UNITS_PER_DEGREE).is_ok());
    assert!(Coordinate::new(90 * UNITS_PER_DEGREE, 180 * UNITS_PER_DEGREE).is_ok());
    assert!(Coordinate::new(-90 * UNITS_PER_DEGREE, -180 * UNITS_PER_DEGREE).is_ok());
    assert!(Coordinate::new(-90 * UNITS_PER_DEGREE, 180 * UNITS_PER_DEGREE).is_ok());
}

#[test]
fn coordinate_new_err() {
    assert!(Coordinate::new(90 * UNITS_PER_DEGREE + 1, -180 * UNITS_PER_DEGREE).is_err());
    assert!(Coordinate::new(90 * UNITS_PER_DEGREE, -180 * UNITS_PER_DEGREE - 1).is_err());
    assert!(Coordinate::new(-90 * UNITS_PER_DEGREE - 1, 180 * UNITS_PER_DEGREE).is_err());
    assert!(Coordinate::new(-90 * UNITS_PER_DEGREE, 180 * UNITS_PER_DEGREE + 1).is_err());
}

#[test]
fn coordinate_new_names_the_axis() {
    assert_eq!(
        Coordinate::new(91 * UNITS_PER_DEGREE, 0).unwrap_err(),
        GSJPError::OutOfRange(Axis::Latitude)
    );
    assert_eq!(
        Coordinate::new(0, 181 * UNITS_PER_DEGREE).unwrap_err(),
        GSJPError::OutOfRange(Axis::Longitude)
    );
    // the latitude is checked first
    assert_eq!(
        Coordinate::new(91 * UNITS_PER_DEGREE, 181 * UNITS_PER_DEGREE).unwrap_err(),
        GSJPError::OutOfRange(Axis::Latitude)
    );
}

#[test]
fn coordinate_lat_lon_ok() {
    let coordinate = Coordinate::new(35 * UNITS_PER_DEGREE, 135 * UNITS_PER_DEGREE).unwrap();
    assert_eq!(coordinate.lat(), 35 * UNITS_PER_DEGREE);
    assert_eq!(coordinate.lon(), 135 * UNITS_PER_DEGREE);
}
