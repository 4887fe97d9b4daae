use rat_engine::material::Material;
use rat_engine::shader::RatShader;
use rat_engine::shader::ShaderError;

#[test]
fn two_compiled_stages_pair_into_an_unlinked_shader() {
    let s = RatShader::from_stages(Ok(7), Ok(9)).unwrap();
    assert_eq!(s, RatShader { vert_id: 7, frag_id: 9, shader_program: 0 });
}

#[test]
fn a_compile_failure_surfaces_its_log() {
    let r = RatShader::from_stages(Err(String::from("bad vertex main")), Ok(9));
    assert_eq!(r, Err(ShaderError::CompileError(String::from("bad vertex main"))));
    let r = RatShader::from_stages(Ok(7), Err(String::from("bad fragment main")));
    assert_eq!(r, Err(ShaderError::CompileError(String::from("bad fragment main"))));
}

#[test]
fn successful_linking_releases_both_stage_handles() {
    let s = RatShader { vert_id: 7, frag_id: 9, shader_program: 0 };
    let (r, stale) = s.finish_link(Ok(42));
    assert_eq!(r, Ok(RatShader { vert_id: 7, frag_id: 9, shader_program: 42 }));
    assert_eq!(stale, vec![7, 9]);
}

#[test]
fn a_link_failure_surfaces_its_log_and_releases_nothing() {
    let s = RatShader { vert_id: 7, frag_id: 9, shader_program: 0 };
    let (r, stale) = s.finish_link(Err(String::from("unresolved varying")));
    assert_eq!(r, Err(ShaderError::LinkError(String::from("unresolved varying"))));
    assert!(stale.is_empty());
}

#[test]
fn only_a_nonzero_texture_is_bound() {
    let shader = RatShader { vert_id: 1, frag_id: 2, shader_program: 3 };
    let textured = Material { name: String::from("m"), shader, texture_id: 5 };
    assert_eq!(textured.texture_binding(), Some(5));
    let bare = Material { name: String::from("m"), shader, texture_id: 0 };
    assert_eq!(bare.texture_binding(), None);
}
