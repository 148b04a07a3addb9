//! Shader programs, as far as they can be planned without a graphics context:
//! which sources are compiled, in which order, and what a failure is called.

use vstd::prelude::*;
use vstd::string::StringSliceAdditionalSpecFns;
use crate::error::TrdlError;

verus! {

/// The pass-through vertex shader that a builder starts with.
pub const DEFAULT_VERTEX_SHADER: &'static str = "#version 400
    in vec3 vertex_position;
    in vec3 vertex_color;
    out vec3 color;
    void main() {
        color = vertex_color;
        gl_Position = vec4(vertex_position, 1.0);
    }";

/// The fragment shader that a builder starts with.
pub const DEFAULT_FRAGMENT_SHADER: &'static str = "#version 400
    in vec3 color;
    layout(location = 0) out vec4 frag_color;
    void main() {
        frag_color = vec4(color, 1.0);
    }";

/// The stages of the pipeline that a shader can be written for, in the order
/// in which they are compiled and attached.
#[derive(Debug, Clone, Copy, PartialEq, Eq, Structural)]
pub enum ShaderStage {
    Vertex,
    TessControl,
    TessEvaluation,
    Geometry,
    Fragment,
}

/// Collects the sources of a shader program, stage by stage.
pub struct ShaderProgramBuilder {
    pub vertex_shader_code: String,
    pub tess_control_shader_code: Option<String>,
    pub tess_evaluation_shader_code: Option<String>,
    pub geometry_shader_code: Option<String>,
    pub fragment_shader_code: String,
}

impl ShaderProgramBuilder {
    /// A builder with the default vertex and fragment shader and no other
    /// shaders.
    pub fn new() -> (builder: ShaderProgramBuilder)
        ensures
            builder.vertex_shader_code@ == DEFAULT_VERTEX_SHADER@,
            builder.tess_control_shader_code is None,
            builder.tess_evaluation_shader_code is None,
            builder.geometry_shader_code is None,
            builder.fragment_shader_code@ == DEFAULT_FRAGMENT_SHADER@,
    {
        ShaderProgramBuilder {
            vertex_shader_code: DEFAULT_VERTEX_SHADER.to_owned(),
            tess_control_shader_code: None,
            tess_evaluation_shader_code: None,
            geometry_shader_code: None,
            fragment_shader_code: DEFAULT_FRAGMENT_SHADER.to_owned(),
        }
    }

    /// Sets the source of the vertex shader.
    pub fn set_vertex_shader(&mut self, code: &str)
        ensures
            final(self).vertex_shader_code@ == code@,
            final(self).tess_control_shader_code == old(self).tess_control_shader_code,
            final(self).tess_evaluation_shader_code == old(self).tess_evaluation_shader_code,
            final(self).geometry_shader_code == old(self).geometry_shader_code,
            final(self).fragment_shader_code == old(self).fragment_shader_code,
    {
        self.vertex_shader_code = code.to_owned();
    }

    /// Sets the source of the tessellation control shader.
    pub fn set_tess_control_shader(&mut self, code: &str)
        ensures
            final(self).tess_control_shader_code matches Some(c) && c@ == code@,
            final(self).vertex_shader_code == old(self).vertex_shader_code,
            final(self).tess_evaluation_shader_code == old(self).tess_evaluation_shader_code,
            final(self).geometry_shader_code == old(self).geometry_shader_code,
            final(self).fragment_shader_code == old(self).fragment_shader_code,
    {
        self.tess_control_shader_code = Some(code.to_owned());
    }

    /// Sets the source of the tessellation evaluation shader.
    pub fn set_tess_evaluation_shader(&mut self, code: &str)
        ensures
            final(self).tess_evaluation_shader_code matches Some(c) && c@ == code@,
            final(self).vertex_shader_code == old(self).vertex_shader_code,
            final(self).tess_control_shader_code == old(self).tess_control_shader_code,
            final(self).geometry_shader_code == old(self).geometry_shader_code,
            final(self).fragment_shader_code == old(self).fragment_shader_code,
    {
        self.tess_evaluation_shader_code = Some(code.to_owned());
    }

    /// Sets the source of the geometry shader.
    pub fn set_geometry_shader(&mut self, code: &str)
        ensures
            final(self).geometry_shader_code matches Some(c) && c@ == code@,
            final(self).vertex_shader_code == old(self).vertex_shader_code,
            final(self).tess_control_shader_code == old(self).tess_control_shader_code,
            final(self).tess_evaluation_shader_code == old(self).tess_evaluation_shader_code,
            final(self).fragment_shader_code == old(self).fragment_shader_code,
    {
        self.geometry_shader_code = Some(code.to_owned());
    }

    /// Sets the source of the fragment shader.
    pub fn set_fragment_shader(&mut self, code: &str)
        ensures
            final(self).fragment_shader_code@ == code@,
            final(self).vertex_shader_code == old(self).vertex_shader_code,
            final(self).tess_control_shader_code == old(self).tess_control_shader_code,
            final(self).tess_evaluation_shader_code == old(self).tess_evaluation_shader_code,
            final(self).geometry_shader_code == old(self).geometry_shader_code,
    {
        self.fragment_shader_code = code.to_owned();
    }

    /// The sources to compile, in order: the vertex shader, then the
    /// tessellation control, tessellation evaluation and geometry shaders that
    /// were set, then the fragment shader.
    pub fn build_shader_program(&self) -> (plan: Vec<(ShaderStage, String)>)
        ensures
            plan_matches(plan@, *self),
    {
        let mut plan: Vec<(ShaderStage, String)> = Vec::new();
        plan.push((ShaderStage::Vertex, self.vertex_shader_code.clone()));
        match &self.tess_control_shader_code {
            Some(code) => {
                plan.push((ShaderStage::TessControl, code.clone()));
            },
            None => {},
        }
        match &self.tess_evaluation_shader_code {
            Some(code) => {
                plan.push((ShaderStage::TessEvaluation, code.clone()));
            },
            None => {},
        }
        match &self.geometry_shader_code {
            Some(code) => {
                plan.push((ShaderStage::Geometry, code.clone()));
            },
            None => {},
        }
        plan.push((ShaderStage::Fragment, self.fragment_shader_code.clone()));
        proof {
            assert(plan@.map_values(|e: (ShaderStage, String)| (e.0, e.1@)) =~= planned(*self));
        }
        plan
    }
}

/// One entry of a plan, if the stage has a source.
pub open spec fn optional_stage(stage: ShaderStage, code: Option<String>) -> Seq<
    (ShaderStage, Seq<char>),
> {
    match code {
        Some(code) => seq![(stage, code@)],
        None => Seq::empty(),
    }
}

/// The stages of a builder with their sources, in the order of compilation.
pub open spec fn planned(builder: ShaderProgramBuilder) -> Seq<(ShaderStage, Seq<char>)> {
    seq![(ShaderStage::Vertex, builder.vertex_shader_code@)] + optional_stage(
        ShaderStage::TessControl,
        builder.tess_control_shader_code,
    ) + optional_stage(ShaderStage::TessEvaluation, builder.tess_evaluation_shader_code)
        + optional_stage(ShaderStage::Geometry, builder.geometry_shader_code)
        + seq![(ShaderStage::Fragment, builder.fragment_shader_code@)]
}

/// A plan holds exactly the stages of a builder, with their sources.
pub open spec fn plan_matches(plan: Seq<(ShaderStage, String)>, builder: ShaderProgramBuilder) -> bool {
    plan.map_values(|e: (ShaderStage, String)| (e.0, e.1@)) == planned(builder)
}

/// A source can be handed to the compiler only if it holds no zero byte, which
/// would end it early.  Tells so: `NullString` for a source with a zero byte.
pub fn check_source(code: &str) -> (r: Result<(), TrdlError>)
    ensures
        r is Ok <==> forall|i: int| 0 <= i < code.spec_bytes().len() ==> code.spec_bytes()[i] != 0,
        r matches Err(e) ==> e is NullString,
{
    let bytes = code.as_bytes();
    let mut i: usize = 0;
    while i < bytes.len()
        invariant
            bytes@ == code.spec_bytes(),
            i <= bytes.len(),
            forall|k: int| 0 <= k < i ==> bytes@[k] != 0,
        decreases bytes.len() - i,
    {
        if bytes[i] == 0 {
            return Err(TrdlError::NullString);
        }
        i += 1;
    }
    Ok(())
}

/// The error for a shader that did not compile: `CompileError` with the log of
/// the compiler where there is a readable one, `InvalidCompileError` where
/// there is none.
pub fn compile_failure(log: Option<String>) -> (e: TrdlError)
    ensures
        log matches Some(text) ==> e matches TrdlError::CompileError(t) && t@ == text@,
        log is None ==> e is InvalidCompileError,
{
    match log {
        Some(text) => TrdlError::CompileError(text),
        None => TrdlError::InvalidCompileError,
    }
}

/// The error for a program that did not link.  It is reported under the same
/// names as a shader that did not compile.
pub fn link_failure(log: Option<String>) -> (e: TrdlError)
    ensures
        log matches Some(text) ==> e matches TrdlError::CompileError(t) && t@ == text@,
        log is None ==> e is InvalidCompileError,
{
    compile_failure(log)
}

/// The handles of a linked shader program and of its shaders.
#[derive(Debug, PartialEq, Eq)]
pub struct ShaderProgram {
    vertex_shader_id: u32,
    tess_control_shader_id: Option<u32>,
    tess_evaluation_shader_id: Option<u32>,
    geometry_shader_id: Option<u32>,
    fragment_shader_id: u32,
    program_id: u32,
}

impl ShaderProgram {
    /// The program with the given handles.
    pub fn new(
        vertex_shader_id: u32,
        tess_control_shader_id: Option<u32>,
        tess_evaluation_shader_id: Option<u32>,
        geometry_shader_id: Option<u32>,
        fragment_shader_id: u32,
        program_id: u32,
    ) -> (program: ShaderProgram)
        ensures
            program.vertex_shader() == vertex_shader_id,
            program.tess_control_shader() == tess_control_shader_id,
            program.tess_evaluation_shader() == tess_evaluation_shader_id,
            program.geometry_shader() == geometry_shader_id,
            program.fragment_shader() == fragment_shader_id,
            program.program() == program_id,
    {
        ShaderProgram {
            vertex_shader_id,
            tess_control_shader_id,
            tess_evaluation_shader_id,
            geometry_shader_id,
            fragment_shader_id,
            program_id,
        }
    }

    pub closed spec fn vertex_shader(&self) -> u32 {
        self.vertex_shader_id
    }

    pub closed spec fn tess_control_shader(&self) -> Option<u32> {
        self.tess_control_shader_id
    }

    pub closed spec fn tess_evaluation_shader(&self) -> Option<u32> {
        self.tess_evaluation_shader_id
    }

    pub closed spec fn geometry_shader(&self) -> Option<u32> {
        self.geometry_shader_id
    }

    pub closed spec fn fragment_shader(&self) -> u32 {
        self.fragment_shader_id
    }

    pub closed spec fn program(&self) -> u32 {
        self.program_id
    }

    /// The handle of the vertex shader.
    pub fn get_vertex_shader_id(&self) -> (id: u32)
        ensures
            id == self.vertex_shader(),
    {
        self.vertex_shader_id
    }

    /// The handle of the tessellation control shader, if there is one.
    pub fn get_tess_control_shader_id(&self) -> (id: Option<u32>)
        ensures
            id == self.tess_control_shader(),
    {
        self.tess_control_shader_id
    }

    /// The handle of the tessellation evaluation shader, if there is one.
    pub fn get_tess_evaluation_shader_id(&self) -> (id: Option<u32>)
        ensures
            id == self.tess_evaluation_shader(),
    {
        self.tess_evaluation_shader_id
    }

    /// The handle of the geometry shader, if there is one.
    pub fn getgeometry_shader_id(&self) -> (id: Option<u32>)
        ensures
            id == self.geometry_shader(),
    {
        self.geometry_shader_id
    }

    /// The handle of the fragment shader.
    pub fn get_fragment_shader_id(&self) -> (id: u32)
        ensures
            id == self.fragment_shader(),
    {
        self.fragment_shader_id
    }

    /// The handle of the program.
    pub fn get_program_id(&self) -> (id: u32)
        ensures
            id == self.program(),
    {
        self.program_id
    }
}

} // verus!
