//! Renderer-side resource records: shader program ids, uniform and
//! attribute handles, sprite geometry ids. These are plain data; the
//! graphics calls that fill and use them belong to the host
//! application, which hands the ids back in.

use vstd::prelude::*;

verus! {

/// A renderer error, as a message.
#[derive(Debug)]
pub enum RendererError {
    OtherError(String),
}

/// A graphics-layer error, as a message.
#[derive(Debug)]
pub enum GraphicsError {
    OtherError(String),
}

/// A sprite-loading error, as a message.
#[derive(Debug)]
pub enum SpriteError {
    OtherError(String),
}

/// A menu-layer error: a renderer or sprite failure, or a message.
#[derive(Debug)]
pub enum MenuError {
    RendererError(RendererError),
    SpriteError(SpriteError),
    OtherError(String),
}

/// A shader program record: the program id, the projection-matrix
/// uniform handle, and the sources it was built from.
pub struct GLSLProgram {
    pub program_id: u32,
    pub projection_handle: i32,
    pub vertex_source: String,
    pub fragment_source: String,
}

impl GLSLProgram {
    /// An empty program record, before the host compiles anything.
    pub fn new() -> (r: GLSLProgram)
        ensures
            r.program_id == 0,
            r.projection_handle == 0,
            r.vertex_source@ == Seq::<char>::empty(),
            r.fragment_source@ == Seq::<char>::empty(),
    {
        GLSLProgram {
            program_id: 0,
            projection_handle: 0,
            vertex_source: String::new(),
            fragment_source: String::new(),
        }
    }

    pub fn id(&self) -> (r: u32)
        ensures
            r == self.program_id,
    {
        self.program_id
    }
}

/// The world-rendering program record: the shared program and the
/// handles of its lighting uniforms.
pub struct WorldGLSLProgram {
    pub program: GLSLProgram,
    pub view_handle: i32,
    pub model_handle: i32,
    pub ambient_color_handle: i32,
    pub ambient_power_handle: i32,
    pub sun_handle: i32,
    pub sun_color_handle: i32,
    pub sun_power_handle: i32,
    pub light_handle: i32,
    pub light_color_handle: i32,
    pub light_power_handle: i32,
}

impl WorldGLSLProgram {
    pub fn new() -> (r: WorldGLSLProgram)
        ensures
            r.program.program_id == 0,
            r.view_handle == 0,
            r.model_handle == 0,
            r.ambient_color_handle == 0,
            r.ambient_power_handle == 0,
            r.sun_handle == 0,
            r.sun_color_handle == 0,
            r.sun_power_handle == 0,
            r.light_handle == 0,
            r.light_color_handle == 0,
            r.light_power_handle == 0,
    {
        let program = GLSLProgram::new();
        WorldGLSLProgram {
            program,
            view_handle: 0,
            model_handle: 0,
            ambient_color_handle: 0,
            ambient_power_handle: 0,
            sun_handle: 0,
            sun_color_handle: 0,
            sun_power_handle: 0,
            light_handle: 0,
            light_color_handle: 0,
            light_power_handle: 0,
        }
    }

    pub fn id(&self) -> (r: u32)
        ensures
            r == self.program.program_id,
    {
        self.program.program_id
    }
}

/// A sprite record: vertex-array and buffer ids, the texture id, and
/// the image size in pixels.
pub struct Sprite {
    pub vao: u32,
    pub vbo: u32,
    pub w: u32,
    pub h: u32,
    pub spriteTexture: u32,
}

impl Sprite {
    pub fn new() -> (r: Sprite)
        ensures
            r.vao == 0,
            r.vbo == 0,
            r.w == 0,
            r.h == 0,
            r.spriteTexture == 0,
    {
        Sprite { vao: 0, vbo: 0, w: 0, h: 0, spriteTexture: 0 }
    }
}

/// The sprite renderer's program and attribute handles.
pub struct SpriteRenderer {
    pub program: GLSLProgram,
    pub modelview_handle: i32,
    pub vertex_pos_handle: u32,
    pub texcoord_handle: u32,
}

impl SpriteRenderer {
    pub fn new() -> (r: SpriteRenderer)
        ensures
            r.program.program_id == 0,
            r.modelview_handle == 0,
            r.vertex_pos_handle == 0,
            r.texcoord_handle == 0,
    {
        SpriteRenderer {
            program: GLSLProgram::new(),
            modelview_handle: 0,
            vertex_pos_handle: 0,
            texcoord_handle: 0,
        }
    }
}

/// The text renderer's program, font texture, and handles.
pub struct TextRenderer {
    pub program: GLSLProgram,
    pub text_texture: u32,
    pub vao: u32,
    pub vbo: u32,
    pub modelview_handle: i32,
    pub character_handle: i32,
    pub texcoord_handle: u32,
}

impl TextRenderer {
    pub fn new() -> (r: TextRenderer)
        ensures
            r.program.program_id == 0,
            r.text_texture == 0,
            r.vao == 0,
            r.vbo == 0,
            r.modelview_handle == 0,
            r.character_handle == 0,
            r.texcoord_handle == 0,
    {
        TextRenderer {
            program: GLSLProgram::new(),
            text_texture: 0,
            vao: 0,
            vbo: 0,
            modelview_handle: 0,
            character_handle: 0,
            texcoord_handle: 0,
        }
    }
}

/// The character renderer's program, buffers and per-material handles.
pub struct CharacterRenderer {
    pub program: WorldGLSLProgram,
    pub vao: u32,
    pub vbo: [u32; 2],
    pub VertexPosHandle: u32,
    pub NormalHandle: u32,
    pub TexCoordHandle: u32,
    pub AmbientHandle: i32,
    pub DiffuseHandle: i32,
    pub SpecularHandle: i32,
    pub ShininessHandle: i32,
    pub TexHandle: i32,
}

impl CharacterRenderer {
    pub fn new() -> (r: CharacterRenderer)
        ensures
            r.program.program.program_id == 0,
            r.vao == 0,
            r.VertexPosHandle == 0,
            r.NormalHandle == 0,
            r.TexCoordHandle == 0,
            r.AmbientHandle == 0,
            r.DiffuseHandle == 0,
            r.SpecularHandle == 0,
            r.ShininessHandle == 0,
            r.TexHandle == 0,
    {
        CharacterRenderer {
            program: WorldGLSLProgram::new(),
            vao: 0,
            vbo: [0, 0],
            VertexPosHandle: 0,
            NormalHandle: 0,
            TexCoordHandle: 0,
            AmbientHandle: 0,
            DiffuseHandle: 0,
            SpecularHandle: 0,
            ShininessHandle: 0,
            TexHandle: 0,
        }
    }
}

} // verus!
