use museum::resources::{Mesh, MeshLibrary, Shader, ShaderLibrary, Texture, TextureLibrary};
use std::rc::Rc;

#[test]
fn texture_handle_keeps_its_name_and_target() {
    let texture = Texture::from_handle(7, 0x0DE1);
    assert_eq!((texture.id(), texture.target()), (7, 0x0DE1));
}

#[test]
fn mesh_draws_as_many_indices_as_it_was_given() {
    let mesh = Mesh::from_buffers(1, 2, 3, 36);
    assert_eq!(mesh.vertex_array_id(), 1);
    assert_eq!(mesh.vertex_buffer_id(), 2);
    assert_eq!(mesh.element_buffer_id(), 3);
    assert_eq!(mesh.vertex_count(), 36);
}

#[test]
fn shader_keeps_its_sources() {
    let shader = Shader::from_program(4, "void main(){}".to_string(), "out vec4 c;".to_string());
    assert_eq!(shader.id(), 4);
    assert_eq!(shader.vertex_shader_source(), "void main(){}");
    assert_eq!(shader.fragment_shader_source(), "out vec4 c;");
}

#[test]
fn unloading_removes_exactly_the_given_texture() {
    let mut library = TextureLibrary::new();
    let first = library.add_loaded(Rc::new(Texture::from_handle(1, 2)));
    let second = library.add_loaded(Rc::new(Texture::from_handle(2, 2)));
    assert_eq!(library.len(), 2);
    // Same contents, other allocation: not an entry of the library.
    let stranger = Rc::new(Texture::from_handle(1, 2));
    assert!(!library.unload(&stranger));
    assert_eq!(library.len(), 2);
    assert!(library.unload(&first));
    assert_eq!(library.len(), 1);
    assert!(!library.unload(&first));
    assert!(library.unload(&second));
    assert_eq!(library.len(), 0);
}

#[test]
fn library_shares_the_allocation_it_records() {
    let mut library = MeshLibrary::new();
    let mesh = Rc::new(Mesh::from_buffers(1, 2, 3, 6));
    let shared = library.add_loaded(Rc::clone(&mesh));
    assert!(Rc::ptr_eq(&mesh, &shared));
    assert_eq!(Rc::strong_count(&mesh), 3);
    library.unload_all();
    assert_eq!(library.len(), 0);
    assert_eq!(Rc::strong_count(&mesh), 2);
}

#[test]
fn unload_position_removes_the_entry_at_that_position() {
    let mut library = ShaderLibrary::new();
    library.add_loaded(Rc::new(Shader::from_program(1, String::new(), String::new())));
    let kept = library.add_loaded(Rc::new(Shader::from_program(2, String::new(), String::new())));
    assert!(!library.unload_position(None));
    assert!(library.unload_position(Some(0)));
    assert_eq!(library.len(), 1);
    assert!(library.unload(&kept));
    assert_eq!(library.len(), 0);
}
