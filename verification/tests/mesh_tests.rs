use rat_engine::model::build_obj_model;
use rat_engine::model::MeshDefect;
use rat_engine::model::SubMesh;

fn submesh(name: &str, positions: Vec<u32>, normals: Vec<u32>, texcoords: Vec<u32>, indices: Vec<u32>) -> SubMesh {
    SubMesh { name: String::from(name), positions, normals, texcoords, indices }
}

fn bits(values: &[f32]) -> Vec<u32> {
    values.iter().map(|v| v.to_bits()).collect()
}

#[test]
fn odd_texcoord_count_skips_submesh_and_loading_continues() {
    let bad = submesh("bad", bits(&[0.0, 0.0, 0.0]), vec![], vec![1, 2, 3], vec![0, 0, 0]);
    let good = submesh("good", bits(&[1.0, 2.0, 3.0]), vec![], vec![5, 6], vec![0, 0, 0]);
    let (model, skipped) = build_obj_model(&vec![bad, good]);
    assert_eq!(skipped.len(), 1);
    assert_eq!(skipped[0].index, 0);
    assert_eq!(skipped[0].name, "bad");
    assert_eq!(skipped[0].defect, MeshDefect::TexcoordCount);
    // the second sub-mesh was still merged
    assert_eq!(model.vertices.len(), 1);
    assert_eq!(model.indices, vec![0, 0, 0]);
    assert_eq!(model.vertices[0].position, bits(&[1.0, 2.0, 3.0]));
    assert_eq!(model.vertices[0].tex_coords, vec![5, 6]);
}

#[test]
fn two_valid_submeshes_merge_with_shifted_indices() {
    let a = submesh(
        "a",
        bits(&[0.0, 0.0, 0.0, 1.0, 0.0, 0.0, 0.0, 1.0, 0.0]),
        bits(&[0.0, 0.0, 1.0, 0.0, 0.0, 1.0, 0.0, 0.0, 1.0]),
        vec![],
        vec![0, 1, 2],
    );
    let b = submesh("b", bits(&[2.0, 0.0, 0.0, 3.0, 0.0, 0.0, 2.0, 1.0, 0.0]), vec![], vec![], vec![2, 1, 0]);
    let (model, skipped) = build_obj_model(&vec![a, b]);
    assert_eq!(skipped.len(), 0);
    assert_eq!(model.vertices.len(), 6);
    assert_eq!(model.indices, vec![0, 1, 2, 5, 4, 3]);
    // a vertex of the first sub-mesh keeps its normal; one of the second
    // gets the zero normal
    assert_eq!(model.vertices[0].normals, bits(&[0.0, 0.0, 1.0]));
    assert_eq!(model.vertices[3].normals, vec![0, 0, 0]);
    assert_eq!(model.vertices[3].tex_coords, vec![0, 0]);
}

#[test]
fn each_defect_is_reported() {
    let cases = vec![
        (submesh("p", vec![1, 2, 3, 4], vec![], vec![], vec![]), MeshDefect::PositionCount),
        (submesh("t", vec![1, 2, 3], vec![], vec![9], vec![]), MeshDefect::TexcoordCount),
        (submesh("i", vec![1, 2, 3], vec![], vec![], vec![0]), MeshDefect::IndexCount),
        (
            submesh("n", vec![1, 2, 3], vec![1, 2], vec![], vec![]),
            MeshDefect::NormalMismatch,
        ),
        (
            submesh("tm", vec![1, 2, 3, 4, 5, 6], vec![], vec![1, 2, 3, 4, 5, 6], vec![]),
            MeshDefect::TexcoordMismatch,
        ),
        (submesh("r", vec![1, 2, 3], vec![], vec![], vec![0, 0, 1]), MeshDefect::IndexRange),
    ];
    for (m, expected) in cases {
        let (model, skipped) = build_obj_model(&vec![m]);
        assert_eq!(model.vertices.len(), 0);
        assert_eq!(model.indices.len(), 0);
        assert_eq!(skipped.len(), 1);
        assert_eq!(skipped[0].defect, expected);
    }
}

#[test]
fn empty_input_builds_empty_model() {
    let (model, skipped) = build_obj_model(&vec![]);
    assert_eq!(model.vertices.len(), 0);
    assert_eq!(model.indices.len(), 0);
    assert_eq!(skipped.len(), 0);
}
