use trdl::shader::{
    check_source, compile_failure, link_failure, ShaderProgram, ShaderProgramBuilder, ShaderStage,
    DEFAULT_FRAGMENT_SHADER, DEFAULT_VERTEX_SHADER,
};
use trdl::TrdlError;

#[test]
fn builder_starts_with_the_default_shaders() {
    let builder = ShaderProgramBuilder::new();
    assert_eq!(
        builder.build_shader_program(),
        vec![
            (ShaderStage::Vertex, DEFAULT_VERTEX_SHADER.to_string()),
            (ShaderStage::Fragment, DEFAULT_FRAGMENT_SHADER.to_string()),
        ]
    );
}

#[test]
fn stages_are_planned_in_pipeline_order() {
    let mut builder = ShaderProgramBuilder::new();
    builder.set_fragment_shader("f");
    builder.set_geometry_shader("g");
    builder.set_tess_evaluation_shader("te");
    builder.set_tess_control_shader("tc");
    builder.set_vertex_shader("v");
    assert_eq!(
        builder.build_shader_program(),
        vec![
            (ShaderStage::Vertex, "v".to_string()),
            (ShaderStage::TessControl, "tc".to_string()),
            (ShaderStage::TessEvaluation, "te".to_string()),
            (ShaderStage::Geometry, "g".to_string()),
            (ShaderStage::Fragment, "f".to_string()),
        ]
    );
}

#[test]
fn a_stage_that_was_not_set_is_left_out() {
    let mut builder = ShaderProgramBuilder::new();
    builder.set_geometry_shader("g");
    let plan = builder.build_shader_program();
    assert_eq!(plan.len(), 3);
    assert_eq!(plan[1], (ShaderStage::Geometry, "g".to_string()));
}

#[test]
fn a_source_with_a_zero_byte_is_refused() {
    assert_eq!(check_source("void main() {}"), Ok(()));
    assert_eq!(check_source(""), Ok(()));
    assert_eq!(check_source("void\0main"), Err(TrdlError::NullString));
    assert_eq!(check_source(DEFAULT_VERTEX_SHADER), Ok(()));
}

#[test]
fn failures_are_named_after_their_log() {
    assert_eq!(compile_failure(Some("0:1 bad".to_string())), TrdlError::CompileError("0:1 bad".to_string()));
    assert_eq!(compile_failure(None), TrdlError::InvalidCompileError);
    assert_eq!(link_failure(Some("unresolved".to_string())), TrdlError::CompileError("unresolved".to_string()));
    assert_eq!(link_failure(None), TrdlError::InvalidCompileError);
}

#[test]
fn program_hands_out_its_handles() {
    let program = ShaderProgram::new(1, Some(2), None, Some(4), 5, 6);
    assert_eq!(program.get_vertex_shader_id(), 1);
    assert_eq!(program.get_tess_control_shader_id(), Some(2));
    assert_eq!(program.get_tess_evaluation_shader_id(), None);
    assert_eq!(program.getgeometry_shader_id(), Some(4));
    assert_eq!(program.get_fragment_shader_id(), 5);
    assert_eq!(program.get_program_id(), 6);
}

#[test]
fn compile_defaults() {
    let builder = ShaderProgramBuilder::new();
    let plan = builder.build_shader_program();
    assert_eq!(plan.len(), 2);
    for (_, code) in &plan {
        match check_source(code) {
            Ok(_) => {}
            Err(_) => assert!(false),
        };
    }
}

#[test]
fn shader_compile_defaults() {
    let mut builder = ShaderProgramBuilder::new();
    builder.set_vertex_shader(DEFAULT_VERTEX_SHADER);
    builder.set_fragment_shader(DEFAULT_FRAGMENT_SHADER);
    assert_eq!(builder.build_shader_program(), ShaderProgramBuilder::new().build_shader_program());
    match check_source(&builder.vertex_shader_code).and(check_source(&builder.fragment_shader_code)) {
        Ok(_) => {}
        Err(_) => assert!(false),
    };
}
