use gsjp::Mesh;

// A move and its opposite return to the starting cell, including across
// parent boundaries; and a cell at the edge of the domain has no neighbour
// on the far side.

#[test]
fn neighbor_round_trip_mesh3() {
    let codes = vec!["51354635", "51354695", "51350600", "53393599"];
    for code in codes {
        let m = gsjp::Mesh3::new(code.to_string()).unwrap();
        assert_eq!(
            m.north_mesh().unwrap().south_mesh().unwrap().code(),
            code,
            "{}",
            code
        );
        assert_eq!(
            m.east_mesh().unwrap().west_mesh().unwrap().code(),
            code,
            "{}",
            code
        );
    }
}

#[test]
fn neighbor_round_trip_mesh6() {
    let codes = vec!["53393599111", "53397799333", "53303090111"];
    for code in codes {
        let m = gsjp::mesh::Mesh6::new(code.to_string()).unwrap();
        assert_eq!(
            m.north_mesh().unwrap().south_mesh().unwrap().code(),
            code,
            "{}",
            code
        );
        assert_eq!(
            m.west_mesh().unwrap().east_mesh().unwrap().code(),
            code,
            "{}",
            code
        );
        assert_eq!(
            m.south_mesh().unwrap().north_mesh().unwrap().code(),
            code,
            "{}",
            code
        );
    }
}

#[test]
fn level1_carry_at_the_domain_edge() {
    // the southernmost row: no southern neighbour, and the row above
    // carries back down into it
    let edge = gsjp::Mesh1::new(String::from("3022")).unwrap();
    assert!(edge.south_mesh().is_err());
    let above = gsjp::Mesh1::new(String::from("3122")).unwrap();
    assert_eq!(above.south_mesh().unwrap().code(), "3022");
}

#[test]
fn diagonal_composition_order() {
    // a diagonal move is the composition of the two orthogonal moves
    let m = gsjp::Mesh3::new(String::from("51354635")).unwrap();
    assert_eq!(m.north_east_mesh().unwrap().code(), "51354646");
    assert_eq!(m.south_east_mesh().unwrap().code(), "51354626");
    assert_eq!(m.south_west_mesh().unwrap().code(), "51354624");
    assert_eq!(m.north_west_mesh().unwrap().code(), "51354644");
    // across a parent boundary in both directions at once
    let corner = gsjp::Mesh3::new(String::from("51357799")).unwrap();
    assert_eq!(corner.north_east_mesh().unwrap().code(), "52360000");
}

#[test]
fn parent_codes_are_prefixes() {
    let m4 = gsjp::Mesh4::new(String::from("533935991")).unwrap();
    assert_eq!(m4.mesh1().code(), "5339");
    assert_eq!(m4.mesh2().code(), "533935");
    assert_eq!(m4.mesh3().code(), "53393599");
    let m6 = gsjp::mesh::Mesh6::new(String::from("53393599111")).unwrap();
    assert_eq!(m6.mesh1().code(), "5339");
    assert_eq!(m6.mesh2().code(), "533935");
    assert_eq!(m6.mesh3().code(), "53393599");
    assert_eq!(m6.mesh4().code(), "533935991");
    assert_eq!(m6.mesh5().code(), "5339359911");
}

#[test]
fn parent_contains_child() {
    let m3 = gsjp::Mesh3::new(String::from("68227090")).unwrap();
    let m2 = m3.mesh2();
    let m1 = m3.mesh1();
    assert!(m2.south() <= m3.south() && m3.north() <= m2.north());
    assert!(m2.west() <= m3.west() && m3.east() <= m2.east());
    assert!(m1.south() <= m2.south() && m2.north() <= m1.north());
    assert!(m1.west() <= m2.west() && m2.east() <= m1.east());
}
