use vstd::prelude::*;

verus! {

/// A position, axis or scale, in whole units.
#[derive(Clone, Copy, Debug, PartialEq, Eq, Structural)]
pub struct Vec3 {
    pub x: i32,
    pub y: i32,
    pub z: i32,
}

/// A colour, one byte per channel.
#[derive(Clone, Copy, Debug, PartialEq, Eq, Structural)]
pub struct Rgb {
    pub r: u8,
    pub g: u8,
    pub b: u8,
}

/// One placed instance of a render unit: its transform and nothing else.
#[derive(Clone, Copy, Debug, PartialEq, Eq, Structural)]
pub struct RenderObject {
    pub position: Vec3,
    pub rotation: Vec3,
    pub rotation_angle: i32,
    pub scale: Vec3,
}

impl RenderObject {
    pub fn new(position: Vec3, rotation: Vec3, rotation_angle: i32, scale: Vec3) -> (r: RenderObject)
        ensures
            r == (RenderObject { position, rotation, rotation_angle, scale }),
    {
        RenderObject { position, rotation, rotation_angle, scale }
    }
}

/// One graphics-API step of a frame. The handles are the ones recorded when the
/// resource was uploaded; projections and cameras are named by their registry index.
#[derive(Clone, Copy, Debug, PartialEq, Eq)]
pub enum GpuCommand {
    /// Make the program current.
    UseProgram { program: u32 },
    /// Upload the projection matrix to the current program's `projection` uniform.
    BindProjection { projection: usize },
    /// Upload the camera's view matrix to the current program.
    BindCamera { camera: usize },
    /// Bind the texture to texture unit 0.
    BindTexture { texture: u32 },
    /// Upload translate(position) * scale(scale) * rotate(rotation, angle) to `model_matrix`.
    SetModelMatrix { object: RenderObject },
    /// Bind the mesh's vertex-array state.
    BindVertexArray { vao: u32 },
    /// Indexed triangle draw of `count` indices.
    DrawElements { count: usize },
    /// Alpha blending on, text colour uniform set, texture unit 0 active, glyph vertex array bound.
    BeginText { color: Rgb, vao: u32 },
    /// Rewrite the shared quad buffer with this rectangle, bind the glyph texture, draw 6 vertices.
    DrawGlyph { texture: u32, vbo: u32, x: i128, y: i128, width: i128, height: i128 },
    /// Unbind the glyph vertex array and texture.
    EndText,
}

} // verus!
