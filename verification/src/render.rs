//! Small values of the rendering side: blend modes, parts of meshes, counts
//! of resources, and what can go wrong when a frame is drawn.

use vstd::prelude::*;
use vstd::string::StringExecFns;

verus! {

/// How a pass is blended with what is already drawn.
#[derive(Debug, Clone, Copy, PartialEq, Eq, Structural)]
pub enum BlendMode {
    Opaque,
    AlphaBlend,
    Additive,
}

impl BlendMode {
    /// Whether a pass of this mode writes depth after it was chosen: a pass
    /// that blends by alpha does not, every other keeps what it had.
    pub fn depth_write_after(&self, depth_write: bool) -> (after: bool)
        ensures
            after == (if *self == BlendMode::AlphaBlend {
                false
            } else {
                depth_write
            }),
    {
        match self {
            BlendMode::AlphaBlend => false,
            _ => depth_write,
        }
    }
}

/// The index, among the vertices of a mesh of four-cornered faces, of corner
/// `k` of the two triangles of face `face`: the triangles share the first and
/// the third of the four vertices of the face.
pub open spec fn quad_index(face: int, k: int) -> int {
    4 * face + (if k == 0 || k == 3 {
        0int
    } else if k == 1 {
        1int
    } else if k == 2 || k == 4 {
        2int
    } else {
        3int
    })
}

/// The indices of `faces` four-cornered faces, six to the face.
pub open spec fn quad_indices_spec(faces: int) -> Seq<u32> {
    Seq::new((6 * faces) as nat, |i: int| quad_index(i / 6, i % 6) as u32)
}

/// The indices of the triangles of `faces` four-cornered faces whose
/// vertices stand four to the face, face after face.
pub fn quad_indices(faces: u32) -> (indices: Vec<u32>)
    requires
        4 * faces <= u32::MAX,
    ensures
        indices@ == quad_indices_spec(faces as int),
{
    let mut indices: Vec<u32> = Vec::new();
    let mut face: u32 = 0;
    while face < faces
        invariant
            face <= faces,
            4 * faces <= u32::MAX,
            indices@.len() == 6 * face,
            forall|i: int| 0 <= i < indices@.len() ==> indices@[i] == quad_index(i / 6, i % 6),
        decreases faces - face,
    {
        let base: u32 = 4 * face;
        indices.push(base);
        indices.push(base + 1);
        indices.push(base + 2);
        indices.push(base);
        indices.push(base + 2);
        indices.push(base + 3);
        face += 1;
    }
    assert(indices@ =~= quad_indices_spec(faces as int));
    indices
}

/// A run of indices of a mesh that is drawn with one material.
#[derive(Debug)]
pub struct SubMesh {
    pub name: String,
    pub index_start: u32,
    pub index_count: u32,
    pub material_name: String,
}

/// How many resources a renderer holds and how many commands wait.
#[derive(Debug, Clone, Copy, PartialEq, Eq, Structural)]
pub struct RenderStats {
    pub materials_count: usize,
    pub shaders_count: usize,
    pub meshes_count: usize,
    pub textures_count: usize,
    pub queued_commands: usize,
}

/// What can go wrong when a frame is drawn.
#[derive(Debug, PartialEq, Eq)]
pub enum RenderError {
    NoCamera,
    ShaderCompilation(String),
    MaterialNotFound(String),
    MeshNotFound(String),
}

/// The text of an error, as a mathematical value.
pub open spec fn render_error_text(error: RenderError) -> Seq<char> {
    match error {
        RenderError::NoCamera => "No active camera set"@,
        RenderError::ShaderCompilation(detail) => "Shader compilation failed: "@ + detail@,
        RenderError::MaterialNotFound(name) => "Material not found: "@ + name@,
        RenderError::MeshNotFound(name) => "Mesh not found: "@ + name@,
    }
}

impl RenderError {
    /// The error written out.
    pub fn message(&self) -> (text: String)
        ensures
            text@ == render_error_text(*self),
    {
        match self {
            RenderError::NoCamera => String::from_str("No active camera set"),
            RenderError::ShaderCompilation(detail) => String::from_str(
                "Shader compilation failed: ",
            ).concat(detail.as_str()),
            RenderError::MaterialNotFound(name) => String::from_str("Material not found: ").concat(
                name.as_str(),
            ),
            RenderError::MeshNotFound(name) => String::from_str("Mesh not found: ").concat(
                name.as_str(),
            ),
        }
    }
}

} // verus!
