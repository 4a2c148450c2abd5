use neta::visual::glb::{parse_glb, GlbError, GLB_BIN_CHUNK, GLB_JSON_CHUNK, GLB_MAGIC};
use neta::visual::obj::{
    face_index, finite_points, load_obj, sample_points, scan_obj, Mesh, ObjError, ObjRecord,
};

/// Reads an OBJ file whole: the words of its vertices as finite floats.
fn load(source: &str) -> Result<Mesh<[u32; 3]>, ObjError> {
    let records = scan_obj(source);
    let mut points = Vec::new();
    for record in &records {
        if let ObjRecord::Vertex { coordinates, .. } = record {
            let mut point = Some([0_u32; 3]);
            for axis in 0..3 {
                let value = coordinates
                    .get(axis)
                    .and_then(|word| word.parse::<f32>().ok())
                    .filter(|value| value.is_finite());
                match (&mut point, value) {
                    (Some(point), Some(value)) => point[axis] = value.to_bits(),
                    _ => point = None,
                }
            }
            points.push(point);
        }
    }
    load_obj(&records, &points)
}

#[test]
fn obj_triangulates_quad_and_supports_negative_indices() {
    let mesh = load("v 0 0 0\nv 1 0 0\nv 1 1 0\nv 0 1 0\nf -4 -3 -2 -1\n").unwrap();
    assert_eq!(mesh.positions.len(), 4);
    assert_eq!(mesh.indices, vec![0, 1, 2, 0, 2, 3]);
}

#[test]
fn obj_rejects_forward_face_index() {
    assert_eq!(
        load("f 1 2 3\n"),
        Err(ObjError::IndexOutOfRange { line: 1 })
    );
}

#[test]
fn obj_reports_the_first_problem_with_its_line() {
    assert_eq!(load("# car\r\nv 1 2\r\n"), Err(ObjError::InvalidVertex { line: 2 }));
    assert_eq!(load("v 1 2 nan\n"), Err(ObjError::InvalidVertex { line: 1 }));
    assert_eq!(load("v 0 0 0\n\nf 1 1\n"), Err(ObjError::InvalidFace { line: 3 }));
    assert_eq!(load("v 0 0 0\nf 1 0 1\n"), Err(ObjError::InvalidFace { line: 2 }));
    assert_eq!(load("v 0 0 0\nf 1 x 1\n"), Err(ObjError::InvalidFace { line: 2 }));
    assert_eq!(load("v 0 0 0\nf -2 1 1\n"), Err(ObjError::IndexOutOfRange { line: 2 }));
    let mesh = load("\tv 1 2 3 4\u{a0}5\nvn 0 0 1\nf 1/2/3 1//4 +1\nf 1 1 1 1").unwrap();
    assert_eq!(mesh.positions, vec![[1.0_f32.to_bits(), 2.0_f32.to_bits(), 3.0_f32.to_bits()]]);
    assert_eq!(mesh.indices, vec![0; 9]);
    assert_eq!(ObjError::InvalidFace { line: 12 }.message(), "invalid OBJ face at line 12");
}

#[test]
fn glb_parses_json_and_binary() {
    let json = br#"{}  "#;
    let binary = [1_u8, 2, 3, 4];
    let total = 12 + 8 + json.len() + 8 + binary.len();
    let mut bytes = Vec::new();
    bytes.extend(GLB_MAGIC.to_le_bytes());
    bytes.extend(2_u32.to_le_bytes());
    bytes.extend((total as u32).to_le_bytes());
    bytes.extend((json.len() as u32).to_le_bytes());
    bytes.extend(GLB_JSON_CHUNK.to_le_bytes());
    bytes.extend(json);
    bytes.extend((binary.len() as u32).to_le_bytes());
    bytes.extend(GLB_BIN_CHUNK.to_le_bytes());
    bytes.extend(binary);
    let parsed = parse_glb(&bytes).unwrap();
    assert_eq!(parsed.json, json);
    assert_eq!(parsed.binary, Some(binary.as_slice()));
}

#[test]
fn glb_rejects_mismatched_length() {
    let mut bytes = [0_u8; 12];
    bytes[0..4].copy_from_slice(&GLB_MAGIC.to_le_bytes());
    bytes[4..8].copy_from_slice(&2_u32.to_le_bytes());
    bytes[8..12].copy_from_slice(&999_u32.to_le_bytes());
    assert_eq!(parse_glb(&bytes), Err(GlbError::LengthMismatch));
}

fn container(version: u32, chunks: &[(u32, &[u8])]) -> Vec<u8> {
    let mut body = Vec::new();
    for (kind, data) in chunks {
        body.extend((data.len() as u32).to_le_bytes());
        body.extend(kind.to_le_bytes());
        body.extend(*data);
    }
    let mut bytes = Vec::new();
    bytes.extend(GLB_MAGIC.to_le_bytes());
    bytes.extend(version.to_le_bytes());
    bytes.extend((12 + body.len() as u32).to_le_bytes());
    bytes.extend(body);
    bytes
}

#[test]
fn glb_names_every_problem() {
    assert_eq!(parse_glb(&[0; 11]), Err(GlbError::TooShort));
    assert_eq!(parse_glb(&[0; 12]), Err(GlbError::BadMagic));
    assert_eq!(parse_glb(&container(1, &[])), Err(GlbError::UnsupportedVersion(1)));
    assert_eq!(parse_glb(&container(2, &[])), Err(GlbError::MissingJson));
    assert_eq!(
        parse_glb(&container(2, &[(GLB_JSON_CHUNK, b"{}"), (GLB_JSON_CHUNK, b"{}")])),
        Err(GlbError::DuplicateJson)
    );
    assert_eq!(
        parse_glb(&container(2, &[(GLB_BIN_CHUNK, b""), (GLB_BIN_CHUNK, b"")])),
        Err(GlbError::DuplicateBinary)
    );
    assert_eq!(
        parse_glb(&container(2, &[(0xbeef, b"")])),
        Err(GlbError::UnknownChunk(0xbeef))
    );
    assert_eq!(GlbError::UnknownChunk(0xbeef).message(), "unknown GLB chunk type 0xbeef");
    let mut cut = container(2, &[(GLB_JSON_CHUNK, b"{}")]);
    cut[12] = 3;
    assert_eq!(parse_glb(&cut), Err(GlbError::TruncatedChunk));
    let mut header = container(2, &[]);
    header.extend([0; 7]);
    header[8] = 19;
    assert_eq!(parse_glb(&header), Err(GlbError::TruncatedChunk));
}

#[test]
fn samples_keep_the_budget_and_span_the_model() {
    let points: Vec<u32> = (0..1_000).collect();
    let cloud = sample_points(&points, 64);
    assert_eq!(cloud.len(), 63);
    assert_eq!(cloud[0], 0);
    assert_eq!(cloud[1], 16);
    assert_eq!(*cloud.last().unwrap(), 992);
    assert_eq!(sample_points(&points, 1_000), points);
    assert_eq!(sample_points(&points, 0), Vec::<u32>::new());
    assert_eq!(sample_points(&Vec::<u32>::new(), 5), Vec::<u32>::new());
    assert_eq!(sample_points(&points, 1), vec![0]);
}

#[test]
fn points_without_a_place_are_dropped_before_the_bounds_are_taken() {
    let point = |x: f32, y: f32, z: f32| [x.to_bits(), y.to_bits(), z.to_bits()];
    let points = [
        point(1.0, 2.0, 3.0),
        point(f32::NAN, 0.0, 0.0),
        point(-1.0, 0.0, f32::INFINITY),
        point(4.0, 5.0, 6.0),
    ];
    assert_eq!(finite_points(&points), vec![points[0], points[3]]);
    assert!(finite_points(&points[1..3]).is_empty());
}

/// The finite points, recentred and scaled to the unit cube, as many as fit.
fn unit_point_cloud(positions: &[[f32; 3]], budget: usize) -> Vec<[f32; 3]> {
    let bits: Vec<[u32; 3]> = positions
        .iter()
        .map(|position| position.map(f32::to_bits))
        .collect();
    let finite: Vec<[f32; 3]> = finite_points(&bits)
        .into_iter()
        .map(|position| position.map(f32::from_bits))
        .collect();
    let bound = |axis: usize, start: f32, pick: fn(f32, f32) -> f32| {
        finite
            .iter()
            .map(|position| position[axis])
            .fold(start, pick)
    };
    let low: [f32; 3] = std::array::from_fn(|axis| bound(axis, f32::INFINITY, f32::min));
    let high: [f32; 3] = std::array::from_fn(|axis| bound(axis, f32::NEG_INFINITY, f32::max));
    let extent = (0..3)
        .map(|axis| high[axis] - low[axis])
        .fold(0.0_f32, f32::max);
    let scale = if extent > 0.0 { 2.0 / extent } else { 0.0 };
    sample_points(&finite, budget)
        .into_iter()
        .map(|position| {
            std::array::from_fn(|axis| (position[axis] - (low[axis] + high[axis]) * 0.5) * scale)
        })
        .collect()
}

#[test]
fn degenerate_models_produce_nothing_rather_than_infinities() {
    assert!(unit_point_cloud(&[], 16).is_empty());
    assert!(unit_point_cloud(&[[1.0, 1.0, 1.0]], 0).is_empty());
    let single = unit_point_cloud(&[[5.0, 5.0, 5.0]], 16);
    assert_eq!(single, vec![[0.0, 0.0, 0.0]]);
    // A NaN vertex is dropped, and the finite ones still arrive.
    let broken = [[f32::NAN, 0.0, 0.0], [1.0, 0.0, 0.0], [3.0, 0.0, 0.0]];
    let cloud = unit_point_cloud(&broken, 16);
    assert_eq!(cloud, vec![[-1.0, 0.0, 0.0], [1.0, 0.0, 0.0]]);
    assert!(unit_point_cloud(&[[f32::NAN; 3]], 16).is_empty());
}

#[test]
fn a_corner_names_a_vertex_from_either_end() {
    let line = 7;
    assert_eq!(face_index("1/2/3", 4, line), Ok(0));
    assert_eq!(face_index("+4//1", 4, line), Ok(3));
    assert_eq!(face_index("-4", 4, line), Ok(0));
    assert_eq!(face_index("5", 4, line), Err(ObjError::IndexOutOfRange { line }));
    assert_eq!(face_index("-5", 4, line), Err(ObjError::IndexOutOfRange { line }));
    for token in ["0", "", "/1", "x", "9223372036854775808"] {
        assert_eq!(face_index(token, 4, line), Err(ObjError::InvalidFace { line }));
    }
    assert_eq!(
        face_index("-9223372036854775808", 4, line),
        Err(ObjError::IndexOutOfRange { line })
    );
    // Counts past any index that a mesh could hold.
    let many = 0x1_0000_0003_u64 as usize;
    assert_eq!(face_index("-1", many, line), Ok(many - 1));
    assert_eq!(face_index("-1", usize::MAX, line), Ok(i64::MAX as usize - 1));
    assert_eq!(face_index("9223372036854775807", usize::MAX, line), Ok(i64::MAX as usize - 1));
}
