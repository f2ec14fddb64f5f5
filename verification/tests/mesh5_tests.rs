use gsjp::mesh::Mesh5;
use gsjp::Mesh;
use gsjp::NeighborDirection;

#[test]
fn mesh5_new_ok() {
    let codes = vec!["5339359911", "5339359912", "5339359913", "5339359914"];
    for code in codes {
        let mesh = Mesh5::new(code.to_string());
        assert!(mesh.is_ok(), "{}", code);
        assert_eq!(code, mesh.unwrap().code(), "{}", code);
    }
}

#[test]
fn mesh5_new_err() {
    let codes = vec!["5339359910", "5339359915"];
    for code in codes {
        let mesh = Mesh5::new(code.to_string());
        assert!(mesh.is_err(), "{}", code);
    }
}

#[test]
fn mesh5_north_mesh_ok() {
    let inputs = vec![
        ("5339359911", "5339359913"),
        ("5339359912", "5339359914"),
        ("5339359913", "5339359931"),
        ("5339359914", "5339359932"),
        ("5339779933", "5439070911"),
    ];
    for (code, expected) in inputs {
        let mesh = Mesh5::new(code.to_string()).unwrap();
        let north_mesh = mesh.north_mesh().unwrap();
        assert_eq!(expected, north_mesh.code(), "{}", code);
    }
}

#[test]
fn mesh5_east_mesh_ok() {
    let inputs = vec![
        ("5339359911", "5339359912"),
        ("5339359912", "5339359921"),
        ("5339359913", "5339359914"),
        ("5339359914", "5339359923"),
        ("5339779944", "5340709033"),
    ];
    for (code, expected) in inputs {
        let mesh = Mesh5::new(code.to_string()).unwrap();
        let east_mesh = mesh.east_mesh().unwrap();
        assert_eq!(expected, east_mesh.code(), "{}", code);
    }
}

#[test]
fn mesh5_south_mesh_ok() {
    let inputs = vec![
        ("5339359911", "5339358933"),
        ("5339359912", "5339358934"),
        ("5339359913", "5339359911"),
        ("5339359914", "5339359912"),
        ("5039000011", "4939709033"),
    ];
    for (code, expected) in inputs {
        let mesh = Mesh5::new(code.to_string()).unwrap();
        let south_mesh = mesh.south_mesh().unwrap();
        assert_eq!(expected, south_mesh.code(), "{}", code);
    }
}

#[test]
fn mesh5_west_mesh_ok() {
    let inputs = vec![
        ("5339359911", "5339359822"),
        ("5339359912", "5339359911"),
        ("5339359913", "5339359824"),
        ("5339359914", "5339359913"),
        ("5330309011", "5329379922"),
    ];
    for (code, expected) in inputs {
        let mesh = Mesh5::new(code.to_string()).unwrap();
        let west_mesh = mesh.west_mesh().unwrap();
        assert_eq!(expected, west_mesh.code(), "{}", code);
    }
}

#[test]
fn mesh5_is_neighbor_ok() {
    let inputs = vec![
        ("5135463511", "5135463513", NeighborDirection::North),
        ("5135463511", "5135463512", NeighborDirection::East),
        ("5135463511", "5135462533", NeighborDirection::South),
        ("5135463511", "5135463422", NeighborDirection::West),
        ("5135709033", "5235000011", NeighborDirection::North),
        ("5135070922", "5136000011", NeighborDirection::East),
        ("5135000011", "5035709033", NeighborDirection::South),
        ("5135000011", "5134070922", NeighborDirection::West),
    ];
    for (code1, code2, expected) in inputs {
        let mesh1 = Mesh5::new(String::from(code1)).unwrap();
        let mesh2 = Mesh5::new(String::from(code2)).unwrap();
        assert_eq!(
            expected,
            mesh1.is_neighboring(&mesh2).unwrap(),
            "expected: {:?}, actual: {:?}, {}",
            expected,
            mesh1.is_neighboring(&mesh2).unwrap(),
            code2
        );
    }
}

#[test]
fn mesh5_is_neighbor_none() {
    let inputs = vec![
        ("5135463511", "5135463514"), // north-east neighbour
        ("5135463511", "5135462534"), // south-east neighbour
        ("5135463511", "5135462444"), // south-west neighbour
        ("5135463511", "5135463424"), // north-west neighbour
        ("5135463511", "5135463531"), // two cells north
        ("5135463511", "5135463521"), // two cells east
        ("5135463511", "5135462531"), // two cells south
        ("5135463511", "5135463421"), // two cells west
    ];
    for (code1, code2) in inputs {
        let mesh1 = Mesh5::new(String::from(code1)).unwrap();
        let mesh2 = Mesh5::new(String::from(code2)).unwrap();
        assert_eq!(
            NeighborDirection::NotAdjacent,
            mesh1.is_neighboring(&mesh2).unwrap(),
            "actual: {:?}, {}",
            mesh1.is_neighboring(&mesh2).unwrap(),
            code2
        );
    }
}
