use gsjp::mesh::mesh1::Mesh1;
use gsjp::Mesh;
use gsjp::NeighborDirection;

#[test]
fn mesh1_new_ok() {
    assert!(Mesh1::new(String::from("7149")).is_ok()); // north-east corner
    assert!(Mesh1::new(String::from("3049")).is_ok()); // south-east corner
    assert!(Mesh1::new(String::from("3018")).is_ok()); // south-west corner
    assert!(Mesh1::new(String::from("7118")).is_ok()); // north-west corner
}

#[test]
fn mesh1_new_err() {
    assert!(Mesh1::new(String::from("7249")).is_err()); // one north of the north-east corner
    assert!(Mesh1::new(String::from("7150")).is_err()); // one east of the north-east corner
    assert!(Mesh1::new(String::from("2949")).is_err()); // one south of the south-east corner
    assert!(Mesh1::new(String::from("3050")).is_err()); // one east of the south-east corner
    assert!(Mesh1::new(String::from("2918")).is_err()); // one south of the south-west corner
    assert!(Mesh1::new(String::from("3017")).is_err()); // one west of the south-west corner
    assert!(Mesh1::new(String::from("7218")).is_err()); // one north of the north-west corner
    assert!(Mesh1::new(String::from("7217")).is_err()); // beyond the north-west corner
}

#[test]
fn mesh1_north_mesh_ok() {
    let mesh = Mesh1::new(String::from("7022")).unwrap();
    let n_mesh = mesh.north_mesh().unwrap();
    assert_eq!("7122", n_mesh.code());
}

#[test]
fn mesh1_north_mesh_err() {
    let mesh = Mesh1::new(String::from("7118")).unwrap();
    assert!(mesh.north_mesh().is_err());
}

#[test]
fn mesh1_east_mesh_ok() {
    let mesh = Mesh1::new(String::from("3048")).unwrap();
    let e_mesh = mesh.east_mesh().unwrap();
    assert_eq!("3049", e_mesh.code());
}

#[test]
fn mesh1_east_mesh_err() {
    let mesh = Mesh1::new(String::from("3049")).unwrap();
    assert!(mesh.east_mesh().is_err());
}

#[test]
fn mesh1_south_mesh_ok() {
    let mesh = Mesh1::new(String::from("3122")).unwrap();
    let s_mesh = mesh.south_mesh().unwrap();
    assert_eq!("3022", s_mesh.code());
}

#[test]
fn mesh1_south_mesh_err() {
    let mesh = Mesh1::new(String::from("3049")).unwrap();
    assert!(mesh.south_mesh().is_err());
}

#[test]
fn mesh1_west_mesh_ok() {
    let mesh = Mesh1::new(String::from("3019")).unwrap();
    let w_mesh = mesh.west_mesh().unwrap();
    assert_eq!("3018", w_mesh.code());
}

#[test]
fn mesh1_west_mesh_err() {
    let mesh = Mesh1::new(String::from("3018")).unwrap();
    assert!(mesh.west_mesh().is_err());
}

#[test]
fn mesh1_is_neighbor_ok() {
    let mesh = Mesh1::new(String::from("3123")).unwrap();
    let n_mesh = Mesh1::new(String::from("3223")).unwrap();
    let e_mesh = Mesh1::new(String::from("3124")).unwrap();
    let s_mesh = Mesh1::new(String::from("3023")).unwrap();
    let w_mesh = Mesh1::new(String::from("3122")).unwrap();

    assert_eq!(
        mesh.is_neighboring(&n_mesh).unwrap(),
        NeighborDirection::North
    );
    assert_eq!(
        mesh.is_neighboring(&e_mesh).unwrap(),
        NeighborDirection::East
    );
    assert_eq!(
        mesh.is_neighboring(&s_mesh).unwrap(),
        NeighborDirection::South,
    );
    assert_eq!(
        mesh.is_neighboring(&w_mesh).unwrap(),
        NeighborDirection::West
    );
}

#[test]
fn mesh1_is_neighbor_none1() {
    let mesh = Mesh1::new(String::from("3123")).unwrap();
    let ne_mesh = Mesh1::new(String::from("3224")).unwrap();
    let se_mesh = Mesh1::new(String::from("3024")).unwrap();
    let sw_mesh = Mesh1::new(String::from("3022")).unwrap();
    let nw_mesh = Mesh1::new(String::from("3222")).unwrap();

    assert_eq!(
        mesh.is_neighboring(&ne_mesh).unwrap(),
        NeighborDirection::NotAdjacent
    );
    assert_eq!(
        mesh.is_neighboring(&se_mesh).unwrap(),
        NeighborDirection::NotAdjacent
    );
    assert_eq!(
        mesh.is_neighboring(&sw_mesh).unwrap(),
        NeighborDirection::NotAdjacent,
    );
    assert_eq!(
        mesh.is_neighboring(&nw_mesh).unwrap(),
        NeighborDirection::NotAdjacent
    );
}

#[test]
fn mesh1_is_neighbor_none2() {
    let mesh = Mesh1::new(String::from("3224")).unwrap();
    let n_mesh = Mesh1::new(String::from("3424")).unwrap();
    let e_mesh = Mesh1::new(String::from("3226")).unwrap();
    let s_mesh = Mesh1::new(String::from("3024")).unwrap();
    let w_mesh = Mesh1::new(String::from("3222")).unwrap();

    assert_eq!(
        mesh.is_neighboring(&n_mesh).unwrap(),
        NeighborDirection::NotAdjacent
    );
    assert_eq!(
        mesh.is_neighboring(&e_mesh).unwrap(),
        NeighborDirection::NotAdjacent
    );
    assert_eq!(
        mesh.is_neighboring(&s_mesh).unwrap(),
        NeighborDirection::NotAdjacent,
    );
    assert_eq!(
        mesh.is_neighboring(&w_mesh).unwrap(),
        NeighborDirection::NotAdjacent
    );
}
