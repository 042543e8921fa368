//! Shader programs with their uniforms and attributes, and the table they are
//! found in by name.

use vstd::hash_map::StringHashMap;
use vstd::prelude::*;

verus! {

/// The type of a uniform.
#[derive(Debug, Clone, Copy, PartialEq, Eq, Structural)]
pub enum UniformType {
    Matrix4,
    Vec4,
    Vec3,
    Vec2,
    Float,
    Int,
    Sampler2D,
    SamplerCube,
}

/// The type of a vertex attribute.
#[derive(Debug, Clone, Copy, PartialEq, Eq, Structural)]
pub enum AttributeType {
    Vec4,
    Vec3,
    Vec2,
    Float,
}

/// A uniform of a shader program.
#[derive(Debug)]
pub struct UniformInfo {
    pub name: String,
    pub uniform_type: UniformType,
    pub location: Option<u32>,
}

/// A vertex attribute of a shader program.
#[derive(Debug)]
pub struct AttributeInfo {
    pub name: String,
    pub attribute_type: AttributeType,
    pub location: Option<u32>,
}

impl UniformInfo {
    /// Whether this is the uniform of these values.
    pub open spec fn is_made_of(
        &self,
        name: Seq<char>,
        uniform_type: UniformType,
        location: Option<u32>,
    ) -> bool {
        self.name@ == name && self.uniform_type == uniform_type && self.location == location
    }
}

impl AttributeInfo {
    /// Whether this is the attribute of these values.
    pub open spec fn is_made_of(
        &self,
        name: Seq<char>,
        attribute_type: AttributeType,
        location: Option<u32>,
    ) -> bool {
        self.name@ == name && self.attribute_type == attribute_type && self.location == location
    }
}

/// A vertex shader and a fragment shader with what they take.
pub struct ShaderProgram {
    pub name: String,
    pub vertex_source: String,
    pub fragment_source: String,
    pub uniforms: StringHashMap<UniformInfo>,
    pub attributes: StringHashMap<AttributeInfo>,
}

impl ShaderProgram {
    /// A program without uniforms and attributes.
    pub fn new(name: &str, vertex_source: &str, fragment_source: &str) -> (program: Self)
        ensures
            program.name@ == name@,
            program.vertex_source@ == vertex_source@,
            program.fragment_source@ == fragment_source@,
            program.uniforms@ == Map::<Seq<char>, UniformInfo>::empty(),
            program.attributes@ == Map::<Seq<char>, AttributeInfo>::empty(),
    {
        Self {
            name: name.to_owned(),
            vertex_source: vertex_source.to_owned(),
            fragment_source: fragment_source.to_owned(),
            uniforms: StringHashMap::new(),
            attributes: StringHashMap::new(),
        }
    }

    /// The program with the uniform `name`, in place of one of that name.
    pub fn with_uniform(self, name: &str, uniform_type: UniformType, location: Option<u32>) -> (program:
        Self)
        ensures
            program.name == self.name,
            program.vertex_source == self.vertex_source,
            program.fragment_source == self.fragment_source,
            program.attributes == self.attributes,
            program.uniforms@.dom() == self.uniforms@.dom().insert(name@),
            program.uniforms@[name@].is_made_of(name@, uniform_type, location),
            forall|other: Seq<char>|
                other != name@ && self.uniforms@.contains_key(other)
                    ==> #[trigger] program.uniforms@[other] == self.uniforms@[other],
    {
        let mut program = self;
        program.uniforms.insert(
            name.to_owned(),
            UniformInfo { name: name.to_owned(), uniform_type, location },
        );
        assert(program.uniforms@.dom() =~= self.uniforms@.dom().insert(name@));
        program
    }

    /// The program with the attribute `name`, in place of one of that name.
    pub fn with_attribute(self, name: &str, attribute_type: AttributeType, location: Option<u32>) -> (program:
        Self)
        ensures
            program.name == self.name,
            program.vertex_source == self.vertex_source,
            program.fragment_source == self.fragment_source,
            program.uniforms == self.uniforms,
            program.attributes@.dom() == self.attributes@.dom().insert(name@),
            program.attributes@[name@].is_made_of(name@, attribute_type, location),
            forall|other: Seq<char>|
                other != name@ && self.attributes@.contains_key(other)
                    ==> #[trigger] program.attributes@[other] == self.attributes@[other],
    {
        let mut program = self;
        program.attributes.insert(
            name.to_owned(),
            AttributeInfo { name: name.to_owned(), attribute_type, location },
        );
        assert(program.attributes@.dom() =~= self.attributes@.dom().insert(name@));
        program
    }

    /// The uniform `name`, if the program has it.
    pub fn get_uniform(&self, name: &str) -> (uniform: Option<&UniformInfo>)
        ensures
            match uniform {
                Some(found) => self.uniforms@.contains_key(name@) && *found == self.uniforms@[name@],
                None => !self.uniforms@.contains_key(name@),
            },
    {
        self.uniforms.get(name)
    }

    /// The attribute `name`, if the program has it.
    pub fn get_attribute(&self, name: &str) -> (attribute: Option<&AttributeInfo>)
        ensures
            match attribute {
                Some(found) => self.attributes@.contains_key(name@) && *found
                    == self.attributes@[name@],
                None => !self.attributes@.contains_key(name@),
            },
    {
        self.attributes.get(name)
    }
}

/// The source of the vertex shader that draws instanced parts.
pub const INSTANCED_VERTEX_SOURCE: &'static str = r#"
// Instanced vertex shader
#version 450

layout(location = 0) in vec4 vertex;
layout(location = 1) in vec3 normal;
layout(location = 2) in vec4 uv0;
layout(location = 3) in vec4 uv1;
layout(location = 4) in vec4 uv2;
layout(location = 5) in vec4 uv3;
layout(location = 6) in vec4 uv4;
layout(location = 7) in vec3 tangent;

layout(location = 0) out vec2 v_uv0;
layout(location = 1) out vec3 v_normal;
layout(location = 2) out vec3 v_world_pos;
layout(location = 3) out vec4 v_part_color;

layout(set = 0, binding = 0) uniform ViewProj {
    mat4 view_proj;
};

void main() {
    // Reconstruct world matrix from UV coordinates (instancing data)
    mat4 world_matrix = mat4(
        uv1,  // column 0
        uv2,  // column 1
        uv3,  // column 2
        vec4(0.0, 0.0, 0.0, 1.0)  // column 3
    );

    vec4 world_pos = vertex * world_matrix;
    vec3 world_norm = normalize(mat3(world_matrix) * normal);

    gl_Position = view_proj * world_pos;

    v_uv0 = uv0.xy;
    v_normal = world_norm;
    v_world_pos = world_pos.xyz;
    v_part_color = uv4;
}
"#;

/// The source of the fragment shader that draws instanced parts.
pub const INSTANCED_FRAGMENT_SOURCE: &'static str = r#"
// Instanced fragment shader
#version 450

layout(location = 0) in vec2 v_uv0;
layout(location = 1) in vec3 v_normal;
layout(location = 2) in vec3 v_world_pos;
layout(location = 3) in vec4 v_part_color;

layout(location = 0) out vec4 out_color;

layout(set = 0, binding = 1) uniform Lighting {
    vec4 light_position;
    vec3 camera_position;
    vec3 light_ambient;
    vec3 light_diffuse;
    vec3 light_specular;
    float light_gloss;
};

void main() {
    vec4 base_color = v_part_color;

    // Blinn-Phong lighting
    vec3 normal = normalize(v_normal);
    vec3 light_dir = light_position.xyz - v_world_pos * light_position.w;
    vec3 eye_dir = normalize(camera_position - v_world_pos);

    float light_distance = length(light_dir);
    light_dir = normalize(light_dir);

    float n_dot_l = max(0.0, dot(normal, light_dir));
    vec3 half_vector = normalize(light_dir + eye_dir);
    float h_dot_n = max(0.0, dot(half_vector, normal));

    vec3 ambient = light_ambient;
    vec3 diffuse = light_diffuse * n_dot_l;
    vec3 specular = light_specular * pow(h_dot_n, light_gloss);

    vec3 direct_lighting = diffuse + specular;

    out_color = vec4(base_color.xyz * (direct_lighting + ambient), base_color.a);
}
"#;

/// Whether `program` is the program that draws instanced parts: its name and
/// sources, its two uniforms, its eight attributes, each at its location.
pub open spec fn is_instanced_shader(program: ShaderProgram) -> bool {
    &&& program.name@ == "InstancedShader"@
    &&& program.vertex_source@ == INSTANCED_VERTEX_SOURCE@
    &&& program.fragment_source@ == INSTANCED_FRAGMENT_SOURCE@
    &&& program.uniforms@.dom() == set!["view_proj"@, "lighting"@]
    &&& program.uniforms@["view_proj"@].is_made_of("view_proj"@, UniformType::Matrix4, Some(0))
    &&& program.uniforms@["lighting"@].is_made_of("lighting"@, UniformType::Vec4, Some(1))
    &&& program.attributes@.dom() == set![
        "vertex"@,
        "normal"@,
        "uv0"@,
        "uv1"@,
        "uv2"@,
        "uv3"@,
        "uv4"@,
        "tangent"@,
    ]
    &&& program.attributes@["vertex"@].is_made_of("vertex"@, AttributeType::Vec4, Some(0))
    &&& program.attributes@["normal"@].is_made_of("normal"@, AttributeType::Vec3, Some(1))
    &&& program.attributes@["uv0"@].is_made_of("uv0"@, AttributeType::Vec4, Some(2))
    &&& program.attributes@["uv1"@].is_made_of("uv1"@, AttributeType::Vec4, Some(3))
    &&& program.attributes@["uv2"@].is_made_of("uv2"@, AttributeType::Vec4, Some(4))
    &&& program.attributes@["uv3"@].is_made_of("uv3"@, AttributeType::Vec4, Some(5))
    &&& program.attributes@["uv4"@].is_made_of("uv4"@, AttributeType::Vec4, Some(6))
    &&& program.attributes@["tangent"@].is_made_of("tangent"@, AttributeType::Vec3, Some(7))
}

/// Shader programs by name.
pub struct ShaderManager {
    pub programs: StringHashMap<ShaderProgram>,
}

impl ShaderManager {
    pub fn new() -> (manager: Self)
        ensures
            manager.programs@ == Map::<Seq<char>, ShaderProgram>::empty(),
    {
        Self { programs: StringHashMap::new() }
    }

    /// Puts `program` under its name, in place of what stood there.
    pub fn register_program(&mut self, program: ShaderProgram)
        ensures
            final(self).programs@ == old(self).programs@.insert(program.name@, program),
    {
        let name = program.name.clone();
        self.programs.insert(name, program);
    }

    /// The program under `name`, if any.
    pub fn get_program(&self, name: &str) -> (program: Option<&ShaderProgram>)
        ensures
            match program {
                Some(found) => self.programs@.contains_key(name@) && *found == self.programs@[name@],
                None => !self.programs@.contains_key(name@),
            },
    {
        self.programs.get(name)
    }

    /// Registers the program that draws instanced parts, under
    /// "InstancedShader".
    pub fn create_instanced_shader(&mut self)
        ensures
            final(self).programs@.dom() == old(self).programs@.dom().insert("InstancedShader"@),
            is_instanced_shader(final(self).programs@["InstancedShader"@]),
            forall|name: Seq<char>|
                name != "InstancedShader"@ && old(self).programs@.contains_key(name)
                    ==> #[trigger] final(self).programs@[name] == old(self).programs@[name],
    {
        proof {
            lemma_names_differ();
        }
        let program = ShaderProgram::new(
            "InstancedShader",
            INSTANCED_VERTEX_SOURCE,
            INSTANCED_FRAGMENT_SOURCE,
        ).with_uniform("view_proj", UniformType::Matrix4, Some(0)).with_uniform(
            "lighting",
            UniformType::Vec4,
            Some(1),
        ).with_attribute("vertex", AttributeType::Vec4, Some(0)).with_attribute(
            "normal",
            AttributeType::Vec3,
            Some(1),
        ).with_attribute("uv0", AttributeType::Vec4, Some(2)).with_attribute(
            "uv1",
            AttributeType::Vec4,
            Some(3),
        ).with_attribute("uv2", AttributeType::Vec4, Some(4)).with_attribute(
            "uv3",
            AttributeType::Vec4,
            Some(5),
        ).with_attribute("uv4", AttributeType::Vec4, Some(6)).with_attribute(
            "tangent",
            AttributeType::Vec3,
            Some(7),
        );
        assert(program.uniforms@.dom() =~= set!["view_proj"@, "lighting"@]);
        assert(program.attributes@.dom() =~= set![
            "vertex"@,
            "normal"@,
            "uv0"@,
            "uv1"@,
            "uv2"@,
            "uv3"@,
            "uv4"@,
            "tangent"@,
        ]);
        assert(is_instanced_shader(program));
        self.register_program(program);
        assert(self.programs@.dom() =~= old(self).programs@.dom().insert("InstancedShader"@));
    }
}

/// The names of the uniforms and attributes of the instanced shader are all
/// different.
proof fn lemma_names_differ()
    ensures
        "view_proj"@ != "lighting"@,
        "vertex"@ != "normal"@,
        "vertex"@ != "uv0"@,
        "vertex"@ != "uv1"@,
        "vertex"@ != "uv2"@,
        "vertex"@ != "uv3"@,
        "vertex"@ != "uv4"@,
        "vertex"@ != "tangent"@,
        "normal"@ != "uv0"@,
        "normal"@ != "uv1"@,
        "normal"@ != "uv2"@,
        "normal"@ != "uv3"@,
        "normal"@ != "uv4"@,
        "normal"@ != "tangent"@,
        "uv0"@ != "uv1"@,
        "uv0"@ != "uv2"@,
        "uv0"@ != "uv3"@,
        "uv0"@ != "uv4"@,
        "uv0"@ != "tangent"@,
        "uv1"@ != "uv2"@,
        "uv1"@ != "uv3"@,
        "uv1"@ != "uv4"@,
        "uv1"@ != "tangent"@,
        "uv2"@ != "uv3"@,
        "uv2"@ != "uv4"@,
        "uv2"@ != "tangent"@,
        "uv3"@ != "uv4"@,
        "uv3"@ != "tangent"@,
        "uv4"@ != "tangent"@,
{
    reveal_strlit("view_proj");
    reveal_strlit("lighting");
    reveal_strlit("vertex");
    reveal_strlit("normal");
    reveal_strlit("uv0");
    reveal_strlit("uv1");
    reveal_strlit("uv2");
    reveal_strlit("uv3");
    reveal_strlit("uv4");
    reveal_strlit("tangent");
    assert("view_proj"@[0] != "lighting"@[0]);
    assert("vertex"@[0] != "normal"@[0]);
    assert("vertex"@[0] != "uv0"@[0]);
    assert("vertex"@[0] != "uv1"@[0]);
    assert("vertex"@[0] != "uv2"@[0]);
    assert("vertex"@[0] != "uv3"@[0]);
    assert("vertex"@[0] != "uv4"@[0]);
    assert("vertex"@[0] != "tangent"@[0]);
    assert("normal"@[0] != "uv0"@[0]);
    assert("normal"@[0] != "uv1"@[0]);
    assert("normal"@[0] != "uv2"@[0]);
    assert("normal"@[0] != "uv3"@[0]);
    assert("normal"@[0] != "uv4"@[0]);
    assert("normal"@[0] != "tangent"@[0]);
    assert("uv0"@[2] != "uv1"@[2]);
    assert("uv0"@[2] != "uv2"@[2]);
    assert("uv0"@[2] != "uv3"@[2]);
    assert("uv0"@[2] != "uv4"@[2]);
    assert("uv0"@[0] != "tangent"@[0]);
    assert("uv1"@[2] != "uv2"@[2]);
    assert("uv1"@[2] != "uv3"@[2]);
    assert("uv1"@[2] != "uv4"@[2]);
    assert("uv1"@[0] != "tangent"@[0]);
    assert("uv2"@[2] != "uv3"@[2]);
    assert("uv2"@[2] != "uv4"@[2]);
    assert("uv2"@[0] != "tangent"@[0]);
    assert("uv3"@[2] != "uv4"@[2]);
    assert("uv3"@[0] != "tangent"@[0]);
    assert("uv4"@[0] != "tangent"@[0]);
}

impl Default for ShaderManager {
    fn default() -> (manager: Self)
        ensures
            manager.programs@ == Map::<Seq<char>, ShaderProgram>::empty(),
    {
        Self::new()
    }
}

} // verus!
