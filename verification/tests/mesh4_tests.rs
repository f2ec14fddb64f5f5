use gsjp::Mesh;
use gsjp::Mesh3;
use gsjp::Mesh4;
use gsjp::NeighborDirection;

#[test]
fn mesh4_new_ok() {
    let codes = vec!["533935991", "533935992", "533935993", "533935994"];
    for code in codes {
        let mesh = Mesh4::new(code.to_string());
        assert!(mesh.is_ok(), "{}", code);
        assert_eq!(code, mesh.unwrap().code(), "{}", code);
    }
}

#[test]
fn mesh4_new_err() {
    let codes = vec!["533935990", "533935995"];
    for code in codes {
        let mesh = Mesh4::new(code.to_string());
        assert!(mesh.is_err(), "{}", code);
    }
}

#[test]
fn mesh4_north_mesh_ok() {
    let inputs = vec![
        ("533935991", "533935993"),
        ("533935992", "533935994"),
        ("533935993", "533945091"),
        ("533935994", "533945092"),
        ("533977993", "543907091"),
    ];
    for (code, expected) in inputs {
        let mesh = Mesh4::new(code.to_string()).unwrap();
        let north_mesh = mesh.north_mesh().unwrap();
        assert_eq!(expected, north_mesh.code(), "{}", code);
    }
}

#[test]
fn mesh4_east_mesh_ok() {
    let inputs = vec![
        ("533935991", "533935992"),
        ("533935992", "533936901"),
        ("533935993", "533935994"),
        ("533935994", "533936903"),
        ("533977994", "534070903"),
    ];
    for (code, expected) in inputs {
        let mesh = Mesh4::new(code.to_string()).unwrap();
        let east_mesh = mesh.east_mesh().unwrap();
        assert_eq!(expected, east_mesh.code(), "{}", code);
    }
}

#[test]
fn mesh4_south_mesh_ok() {
    let inputs = vec![
        ("533935991", "533935893"),
        ("533935992", "533935894"),
        ("533935993", "533935991"),
        ("533935994", "533935992"),
        ("503900001", "493970903"),
    ];
    for (code, expected) in inputs {
        let mesh = Mesh4::new(code.to_string()).unwrap();
        let south_mesh = mesh.south_mesh().unwrap();
        assert_eq!(expected, south_mesh.code(), "{}", code);
    }
}

#[test]
fn mesh4_west_mesh_ok() {
    let inputs = vec![
        ("533935991", "533935982"),
        ("533935992", "533935991"),
        ("533935993", "533935984"),
        ("533935994", "533935993"),
        ("533030901", "532937992"),
    ];
    for (code, expected) in inputs {
        let mesh = Mesh4::new(code.to_string()).unwrap();
        let west_mesh = mesh.west_mesh().unwrap();
        assert_eq!(expected, west_mesh.code(), "{}", code);
    }
}

#[test]
fn mesh4_is_neighbor_ok() {
    let inputs = vec![
        ("51354635", "51354645", NeighborDirection::North),
        ("51354635", "51354636", NeighborDirection::East),
        ("51354635", "51354625", NeighborDirection::South),
        ("51354635", "51354634", NeighborDirection::West),
        ("51357090", "52350000", NeighborDirection::North),
        ("51350709", "51360000", NeighborDirection::East),
        ("51350000", "50357090", NeighborDirection::South),
        ("51350000", "51340709", NeighborDirection::West),
    ];
    for (code1, code2, expected) in inputs {
        let mesh1 = Mesh3::new(String::from(code1)).unwrap();
        let mesh2 = Mesh3::new(String::from(code2)).unwrap();
        assert_eq!(
            expected,
            mesh1.is_neighboring(&mesh2).unwrap(),
            "expected: {:?}, actual: {:?}, {}",
            expected,
            mesh1.is_neighboring(&mesh2).unwrap(),
            code2
        );
    }
}

#[test]
fn mesh4_is_neighbor_none() {
    let inputs = vec![
        ("513546351", "513546354"), // north-east neighbour
        ("513546351", "513546254"), // south-east neighbour
        ("513546351", "513546254"), // south-west neighbour
        ("513546351", "513546343"), // north-west neighbour
        ("513546351", "513546451"), // two cells north
        ("513546351", "513546361"), // two cells east
        ("513546351", "513546151"), // two cells south
        ("513546351", "513546251"), // two cells west
    ];
    for (code1, code2) in inputs {
        let mesh1 = Mesh4::new(String::from(code1)).unwrap();
        let mesh2 = Mesh4::new(String::from(code2)).unwrap();
        assert_eq!(
            NeighborDirection::NotAdjacent,
            mesh1.is_neighboring(&mesh2).unwrap(),
            "actual: {:?}, {}",
            mesh1.is_neighboring(&mesh2).unwrap(),
            code2
        );
    }
}
