use rnr::joints::JointsService;
use rnr::render::{BlendMode, RenderError, RenderStats, SubMesh};
use rnr::shader::{
    AttributeType, ShaderManager, ShaderProgram, UniformType, INSTANCED_FRAGMENT_SOURCE,
    INSTANCED_VERTEX_SOURCE,
};
use rnr::texture::{AddressMode, FilterMode, MipmapMode, Texture, TextureFormat, TextureManager};

#[test]
fn test_joints_service() {
    let mut service = JointsService::new();

    assert_eq!(service.joint_count(), 0);

    // Add a ball joint
    service.add_ball_joint();

    assert_eq!(service.joint_count(), 1);
    assert_eq!(service.ball_joints_count, 1);

    service.clear();
    assert_eq!(service.joint_count(), 0);
}

#[test]
fn joints_are_counted_by_kind() {
    let mut service = JointsService::default();
    service.add_ball_joint();
    service.add_fixed_joint();
    service.add_fixed_joint();
    service.add_prismatic_joint();
    service.add_prismatic_joint();
    service.add_prismatic_joint();
    service.add_revolute_joint();
    assert_eq!(service.ball_joints_count, 1);
    assert_eq!(service.fixed_joints_count, 2);
    assert_eq!(service.prismatic_joints_count, 3);
    assert_eq!(service.revolute_joints_count, 1);
    assert_eq!(service.joint_count(), 7);
    service.clear();
    assert_eq!(service.fixed_joints_count, 0);
    assert_eq!(service.prismatic_joints_count, 0);
    assert_eq!(service.revolute_joints_count, 0);
}

#[test]
fn test_shader_program_creation() {
    let program = ShaderProgram::new("TestShader", "vertex shader source", "fragment shader source")
        .with_uniform("view_proj", UniformType::Matrix4, Some(0))
        .with_attribute("position", AttributeType::Vec3, Some(0));

    assert_eq!(program.name, "TestShader");
    assert!(program.get_uniform("view_proj").is_some());
    assert!(program.get_attribute("position").is_some());
}

#[test]
fn test_shader_manager() {
    let mut manager = ShaderManager::new();

    let program = ShaderProgram::new("Test", "vert", "frag");
    manager.register_program(program);

    assert!(manager.get_program("Test").is_some());
    assert!(manager.get_program("NonExistent").is_none());
}

#[test]
fn test_instanced_shader_creation() {
    let mut manager = ShaderManager::new();
    manager.create_instanced_shader();

    let program = manager.get_program("InstancedShader").unwrap();
    assert!(program.vertex_source.contains("#version 450"));
    assert!(program.fragment_source.contains("#version 450"));
    assert!(program.get_attribute("vertex").is_some());
    assert!(program.get_uniform("view_proj").is_some());
}

#[test]
fn instanced_shader_has_its_uniforms_and_attributes() {
    let mut manager = ShaderManager::default();
    manager.create_instanced_shader();
    let program = manager.get_program("InstancedShader").unwrap();
    assert_eq!(program.name, "InstancedShader");
    assert_eq!(program.vertex_source, INSTANCED_VERTEX_SOURCE);
    assert_eq!(program.fragment_source, INSTANCED_FRAGMENT_SOURCE);
    assert!(program.vertex_source.contains("uniform ViewProj"));
    assert!(program.fragment_source.contains("uniform Lighting"));
    assert_eq!(program.uniforms.len(), 2);
    assert_eq!(program.attributes.len(), 8);

    let view_proj = program.get_uniform("view_proj").unwrap();
    assert_eq!(view_proj.name, "view_proj");
    assert_eq!(view_proj.uniform_type, UniformType::Matrix4);
    assert_eq!(view_proj.location, Some(0));
    let lighting = program.get_uniform("lighting").unwrap();
    assert_eq!(lighting.uniform_type, UniformType::Vec4);
    assert_eq!(lighting.location, Some(1));
    assert!(program.get_uniform("vertex").is_none());

    let expected = [
        ("vertex", AttributeType::Vec4, 0),
        ("normal", AttributeType::Vec3, 1),
        ("uv0", AttributeType::Vec4, 2),
        ("uv1", AttributeType::Vec4, 3),
        ("uv2", AttributeType::Vec4, 4),
        ("uv3", AttributeType::Vec4, 5),
        ("uv4", AttributeType::Vec4, 6),
        ("tangent", AttributeType::Vec3, 7),
    ];
    for (name, kind, location) in expected {
        let attribute = program.get_attribute(name).unwrap();
        assert_eq!(attribute.name, name);
        assert_eq!(attribute.attribute_type, kind);
        assert_eq!(attribute.location, Some(location));
    }
    assert!(program.get_attribute("view_proj").is_none());
}

#[test]
fn a_uniform_of_the_same_name_takes_the_place_of_the_old() {
    let program = ShaderProgram::new("P", "v", "f")
        .with_uniform("tint", UniformType::Vec3, None)
        .with_uniform("tint", UniformType::Vec4, Some(3))
        .with_attribute("uv", AttributeType::Vec2, Some(1))
        .with_attribute("uv", AttributeType::Float, None);
    assert_eq!(program.vertex_source, "v");
    assert_eq!(program.fragment_source, "f");
    assert_eq!(program.uniforms.len(), 1);
    assert_eq!(program.get_uniform("tint").unwrap().uniform_type, UniformType::Vec4);
    assert_eq!(program.get_uniform("tint").unwrap().location, Some(3));
    assert_eq!(program.get_attribute("uv").unwrap().attribute_type, AttributeType::Float);
    assert_eq!(program.get_attribute("uv").unwrap().location, None);
    let mut manager = ShaderManager::new();
    manager.register_program(program);
    manager.register_program(ShaderProgram::new("P", "v2", "f2"));
    assert_eq!(manager.programs.len(), 1);
    assert_eq!(manager.get_program("P").unwrap().vertex_source, "v2");
}

#[test]
fn test_texture_creation() {
    let data = vec![255, 0, 0, 255]; // Red pixel
    let texture = Texture::new("red", 1, 1, data, TextureFormat::Rgba8);

    assert_eq!(texture.name, "red");
    assert_eq!(texture.width, 1);
    assert_eq!(texture.height, 1);
    assert_eq!(texture.bytes_per_pixel(), 4);
    assert!(texture.is_valid());
}

#[test]
fn test_solid_color_texture() {
    let texture = Texture::solid_color("white", [255, 255, 255, 255]);

    assert_eq!(texture.width, 1);
    assert_eq!(texture.height, 1);
    assert_eq!(texture.data, vec![255, 255, 255, 255]);
    assert!(texture.is_valid());
}

#[test]
fn test_checkerboard_texture() {
    let texture = Texture::checkerboard("check", 8, 8, [255, 0, 0, 255], [0, 255, 0, 255]);

    assert_eq!(texture.width, 8);
    assert_eq!(texture.height, 8);
    assert_eq!(texture.size_in_bytes(), 256); // 8 * 8 * 4
    assert!(texture.is_valid());
}

#[test]
fn test_texture_manager() {
    let mut manager = TextureManager::new();

    let texture = Texture::solid_color("test", [128, 128, 128, 255]);
    manager.register_texture(texture);

    assert!(manager.get_texture("test").is_some());
    assert!(manager.get_texture("nonexistent").is_none());
}

#[test]
fn checkerboard_squares_are_eight_pixels_wide() {
    let one = [1, 2, 3, 4];
    let two = [5, 6, 7, 8];
    let texture = Texture::checkerboard("c", 17, 9, one, two);
    assert_eq!(texture.name, "c");
    assert_eq!(texture.format, TextureFormat::Rgba8);
    assert!(texture.mipmaps.is_empty());
    assert_eq!(texture.size_in_bytes(), 17 * 9 * 4);
    assert!(texture.is_valid());
    let pixel = |x: usize, y: usize| -> [u8; 4] {
        let at = (y * 17 + x) * 4;
        [texture.data[at], texture.data[at + 1], texture.data[at + 2], texture.data[at + 3]]
    };
    assert_eq!(pixel(0, 0), one);
    assert_eq!(pixel(7, 7), one);
    assert_eq!(pixel(8, 0), two);
    assert_eq!(pixel(15, 7), two);
    assert_eq!(pixel(16, 0), one);
    assert_eq!(pixel(0, 8), two);
    assert_eq!(pixel(8, 8), one);
    assert_eq!(pixel(16, 8), two);
    let empty = Texture::checkerboard("none", 0, 5, one, two);
    assert_eq!(empty.size_in_bytes(), 0);
    assert!(empty.is_valid());
}

#[test]
fn validity_follows_size_and_format() {
    let rgb = Texture::new("rgb", 2, 3, vec![0; 18], TextureFormat::Rgb8);
    assert_eq!(rgb.bytes_per_pixel(), 3);
    assert!(rgb.is_valid());
    let short = Texture::new("short", 2, 3, vec![0; 17], TextureFormat::Rgb8);
    assert!(!short.is_valid());
    let grey = Texture::new("grey", 4, 4, vec![0; 16], TextureFormat::R8);
    assert_eq!(grey.bytes_per_pixel(), 1);
    assert!(grey.is_valid());
    let depth = Texture::new("depth", 1, 2, vec![0; 8], TextureFormat::Depth32Float);
    assert_eq!(depth.bytes_per_pixel(), 4);
    assert!(depth.is_valid());
    let huge = Texture::new("huge", u32::MAX, u32::MAX, Vec::new(), TextureFormat::Rgba8);
    assert!(!huge.is_valid());
    let wrapped = Texture::new("wrapped", 65536, 65536, Vec::new(), TextureFormat::R8);
    assert!(!wrapped.is_valid());
}

#[test]
fn default_textures_are_placeholder_and_checkerboard() {
    let mut manager = TextureManager::default();
    manager.register_texture(Texture::solid_color("mine", [1, 2, 3, 4]));
    manager.create_default_textures();
    assert_eq!(manager.textures.len(), 3);
    let placeholder = manager.get_texture("placeholder").unwrap();
    assert_eq!(placeholder.name, "placeholder");
    assert_eq!((placeholder.width, placeholder.height), (1, 1));
    assert_eq!(placeholder.data, vec![255, 255, 255, 255]);
    let board = manager.get_texture("checkerboard").unwrap();
    assert_eq!((board.width, board.height), (64, 64));
    assert_eq!(board.size_in_bytes(), 64 * 64 * 4);
    assert_eq!(&board.data[0..4], &[255, 255, 255, 255]);
    assert_eq!(&board.data[8 * 4..8 * 4 + 4], &[0, 0, 0, 255]);
    assert!(board.is_valid());
    assert_eq!(manager.get_texture("mine").unwrap().data, vec![1, 2, 3, 4]);
}

#[test]
fn sampling_modes_compare_by_variant() {
    assert_eq!(FilterMode::Linear, FilterMode::Linear);
    assert_ne!(FilterMode::Linear, FilterMode::Nearest);
    assert_ne!(MipmapMode::Linear, MipmapMode::Nearest);
    assert_ne!(AddressMode::Repeat, AddressMode::ClampToEdge);
    assert_ne!(AddressMode::Repeat, AddressMode::MirrorRepeat);
}

#[test]
fn render_values_say_what_they_hold() {
    assert_eq!(RenderError::NoCamera.message(), "No active camera set");
    assert_eq!(
        RenderError::ShaderCompilation("line 3".to_string()).message(),
        "Shader compilation failed: line 3"
    );
    assert_eq!(
        RenderError::MaterialNotFound("Gold".to_string()).message(),
        "Material not found: Gold"
    );
    assert_eq!(RenderError::MeshNotFound("Cube".to_string()).message(), "Mesh not found: Cube");
    assert!(!BlendMode::AlphaBlend.depth_write_after(true));
    assert!(BlendMode::Opaque.depth_write_after(true));
    assert!(!BlendMode::Additive.depth_write_after(false));
    let part = SubMesh {
        name: "Cube".to_string(),
        index_start: 0,
        index_count: 36,
        material_name: "InstancedMaterial".to_string(),
    };
    assert_eq!(part.index_count, 36);
    let stats = RenderStats {
        materials_count: 2,
        shaders_count: 1,
        meshes_count: 1,
        textures_count: 2,
        queued_commands: 0,
    };
    assert_eq!(stats, stats.clone());
}
