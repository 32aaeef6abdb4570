use museum::mesh_loader::{MeshLoadError, MeshLoader, ObjStatement, ObjVertex};

fn words(statement: ObjStatement) -> Vec<String> {
    match statement {
        ObjStatement::Position(w) | ObjStatement::Normal(w) | ObjStatement::TextureCoordinate(w) => {
            w.into_iter().map(|c| c.into_iter().collect()).collect()
        }
        _ => panic!("not an attribute line"),
    }
}

fn read(loader: &mut MeshLoader, text: &str) -> Result<Vec<ObjStatement>, MeshLoadError> {
    let mut out = Vec::new();
    for line in MeshLoader::split_lines(text) {
        out.push(loader.read_line(&line)?);
    }
    Ok(out)
}

const CUBE_CORNER: &str = "# a corner\n\
v 0 0 0\nv 1 0 0\nv 0 1 0\nv 1 1 0\n\
vt 0 0\nvt 1 1\n\
vn 0 0 1\n\
f 1/1/1 2/1/1 3/2/1\n\
f 3/2/1 2/1/1 4/2/1\n";

#[test]
fn faces_share_vertices_of_equal_labels() {
    let mut loader = MeshLoader::new();
    read(&mut loader, CUBE_CORNER).unwrap();
    assert_eq!(loader.attribute_counts(), (4, 1, 2));
    assert_eq!(loader.indices(), &vec![0, 1, 2, 2, 1, 3]);
    let v = |position, texture_coordinate, normal| ObjVertex { position, texture_coordinate, normal };
    assert_eq!(loader.vertices(), &vec![v(0, 0, 0), v(1, 0, 0), v(2, 1, 0), v(3, 1, 0)]);
}

#[test]
fn attribute_lines_hand_back_their_words() {
    let mut loader = MeshLoader::new();
    let statements = read(&mut loader, "v  1.5 -2 3e1 \t extra\r\nvt 0.25 1\nvn 0 1 0").unwrap();
    let mut statements = statements.into_iter();
    assert_eq!(words(statements.next().unwrap()), vec!["1.5", "-2", "3e1", "extra"]);
    assert_eq!(words(statements.next().unwrap()), vec!["0.25", "1"]);
    assert_eq!(words(statements.next().unwrap()), vec!["0", "1", "0"]);
    assert_eq!(loader.attribute_counts(), (1, 1, 1));
}

#[test]
fn a_quad_contributes_its_first_triangle_only() {
    let mut loader = MeshLoader::new();
    read(&mut loader, "v 0 0 0\nv 1 0 0\nv 1 1 0\nv 0 1 0\nvt 0 0\nvn 0 0 1\nf 1/1/1 2/1/1 3/1/1 4/1/1\n").unwrap();
    assert_eq!(loader.indices(), &vec![0, 1, 2]);
    assert_eq!(loader.vertices().len(), 3);
}

#[test]
fn short_faces_and_unknown_lines_are_skipped() {
    let mut loader = MeshLoader::new();
    let statements =
        read(&mut loader, "o object\ns off\nf 1/1/1 2/2/2\nusemtl stone\n\n   \nvx 1 2 3\n").unwrap();
    assert!(matches!(statements[2], ObjStatement::Face));
    assert!(matches!(statements[0], ObjStatement::Other));
    assert!(matches!(statements[6], ObjStatement::Other));
    assert!(loader.indices().is_empty());
}

#[test]
fn negative_indices_count_from_the_end() {
    let mut loader = MeshLoader::new();
    read(&mut loader, "v 0 0 0\nv 1 0 0\nv 1 1 0\nvt 0 0\nvt 1 0\nvn 0 0 1\nf -3/-2/-1 -2/-1/-1 -1/-1/-1\n").unwrap();
    assert_eq!(loader.indices(), &vec![0, 1, 2]);
    assert_eq!(
        loader.vertices()[0],
        ObjVertex { position: 0, texture_coordinate: 0, normal: 0 }
    );
    assert_eq!(
        loader.vertices()[2],
        ObjVertex { position: 2, texture_coordinate: 1, normal: 0 }
    );
}

#[test]
fn a_label_without_three_parts_is_an_invalid_face() {
    let mut loader = MeshLoader::new();
    match read(&mut loader, "v 0 0 0\nvn 0 0 1\nf 1 1//1 1//1\n") {
        Err(MeshLoadError::InvalidFace(label)) => assert_eq!(label, "1"),
        other => panic!("unexpected {:?}", other.map(|_| ())),
    }
}

#[test]
fn an_empty_texture_index_is_an_invalid_number() {
    let mut loader = MeshLoader::new();
    match read(&mut loader, "v 0 0 0\nvn 0 0 1\nf 1//1 1//1 1//1\n") {
        Err(MeshLoadError::InvalidNumber(value)) => assert_eq!(value, ""),
        other => panic!("unexpected {:?}", other.map(|_| ())),
    }
}

#[test]
fn an_index_past_the_attributes_is_missing() {
    let mut loader = MeshLoader::new();
    match read(&mut loader, "v 0 0 0\nvt 0 0\nvn 0 0 1\nf 1/1/1 2/1/1 1/1/1\n") {
        Err(MeshLoadError::MissingIndex(label)) => assert_eq!(label, "2/1/1"),
        other => panic!("unexpected {:?}", other.map(|_| ())),
    }
}

#[test]
fn index_resolution() {
    assert_eq!(MeshLoader::index("1", 3).unwrap(), 0);
    assert_eq!(MeshLoader::index("+3", 3).unwrap(), 2);
    assert_eq!(MeshLoader::index("7", 3).unwrap(), 6);
    assert_eq!(MeshLoader::index("-1", 3).unwrap(), 2);
    assert_eq!(MeshLoader::index("-3", 3).unwrap(), 0);
    match MeshLoader::index("0", 3) {
        Err(MeshLoadError::MissingIndex(text)) => assert_eq!(text, "0"),
        other => panic!("unexpected {:?}", other),
    }
    match MeshLoader::index("-4", 3) {
        Err(MeshLoadError::MissingIndex(text)) => assert_eq!(text, "-4"),
        other => panic!("unexpected {:?}", other),
    }
    match MeshLoader::index("-0012", 3) {
        Err(MeshLoadError::MissingIndex(text)) => assert_eq!(text, "-12"),
        other => panic!("unexpected {:?}", other),
    }
    for bad in ["", "-", "+", "1.0", " 1", "x", "99999999999999999999999"] {
        match MeshLoader::index(bad, 3) {
            Err(MeshLoadError::InvalidNumber(text)) => assert_eq!(text, bad),
            other => panic!("unexpected {:?} for {:?}", other, bad),
        }
    }
}

#[test]
fn lines_are_split_at_newlines() {
    let lines = MeshLoader::split_lines("a\nb c\n");
    let lines: Vec<String> = lines.into_iter().map(|l| l.into_iter().collect()).collect();
    assert_eq!(lines, vec!["a", "b c", ""]);
}
