use museum::basic::{reverse_triangle_winding, Plane, Sphere};
use museum::hierarchy::{hierarchy_string, HierarchyNode};
use museum::museum::{
    canvas_width, update_camera_movement, CameraKeymap, CameraMovementState, Museum, MovementKey,
    PanelSelection, SkyType, CONTROL_PANEL_WIDTH, WIDTH,
};
use museum::camera::Movement;
use museum::offscreen::{MsaaOffscreenBuffer, ReleasedBuffers, ShaderOffscreenBuffer};
use museum::texture_image::flip_vertical;
use museum::uniforms::{light_count_uniform, light_uniform, texture_uniform, LightArray};

#[test]
fn indices_match_the_legacy_two_triangle_winding() {
    let indices = Sphere::indices();
    let xlong = Sphere::XLONG as u32;
    assert_eq!(&indices[..6], &[0, 1, xlong + 1, 0, xlong + 1, xlong]);
}

#[test]
fn gl_canvas_width_excludes_the_west_control_panel() {
    assert_eq!(
        canvas_width(WIDTH as i32),
        WIDTH as i32 - CONTROL_PANEL_WIDTH
    );
    assert_eq!(canvas_width(CONTROL_PANEL_WIDTH), 1);
}

#[test]
fn canvas_width_is_at_least_one_pixel() {
    assert_eq!(canvas_width(0), 1);
    assert_eq!(canvas_width(-40), 1);
    assert_eq!(canvas_width(276), 1);
    assert_eq!(canvas_width(277), 2);
}

#[test]
fn sphere_indices_cover_every_grid_quad() {
    let indices = Sphere::indices();
    assert_eq!(indices.len(), 6 * 29 * 29);
    // Second quad of the second row: n = 30 + 1.
    let t = 6 * (29 + 1);
    assert_eq!(&indices[t..t + 6], &[31, 32, 62, 31, 62, 61]);
    // Last quad: n = 28 * 30 + 28 = 868.
    let last = indices.len() - 6;
    assert_eq!(&indices[last..], &[868, 869, 899, 868, 899, 898]);
    assert_eq!(*indices.iter().max().unwrap(), 899);
}

#[test]
fn plane_indices_are_two_triangles() {
    assert_eq!(Plane::indices(), vec![0, 1, 2, 0, 2, 3]);
}

#[test]
fn reversing_winding_swaps_the_last_two_corners() {
    let mut indices = vec![0, 1, 2, 0, 2, 3, 7];
    reverse_triangle_winding(&mut indices);
    assert_eq!(indices, vec![0, 2, 1, 0, 3, 2, 7]);
    reverse_triangle_winding(&mut indices);
    assert_eq!(indices, vec![0, 1, 2, 0, 2, 3, 7]);
}

fn node(name: &str, kind: &str, children: Vec<HierarchyNode>) -> HierarchyNode {
    HierarchyNode {
        name: name.to_string(),
        kind: kind.to_string(),
        children,
    }
}

#[test]
fn hierarchy_contains_children_in_order() {
    let root = node(
        "Root",
        "BasicNode",
        vec![node("First", "BasicNode", vec![]), node("Second", "BasicNode", vec![])],
    );
    let text = hierarchy_string(&root);
    assert!(text.contains("[Root - BasicNode]"));
    assert!(text.find("First").unwrap() < text.find("Second").unwrap());
}

#[test]
fn hierarchy_draws_branches_and_indentation() {
    let root = node(
        "Scene root",
        "BasicNode",
        vec![
            node(
                "Room",
                "ModelNode",
                vec![node("Wall", "ModelNode", vec![]), node("Floor", "ModelNode", vec![])],
            ),
            node("Lamp", "PointLightNode", vec![node("Bulb", "ModelNode", vec![])]),
        ],
    );
    let expected = [
        "[Scene root - BasicNode]\n",
        "├─[Room - ModelNode]\n",
        "│ ├─[Wall - ModelNode]\n",
        "│ └─[Floor - ModelNode]\n",
        "└─[Lamp - PointLightNode]\n",
        "  └─[Bulb - ModelNode]\n",
    ]
    .join("");
    assert_eq!(hierarchy_string(&root), expected);
}

#[test]
fn hierarchy_of_a_leaf_is_its_line() {
    assert_eq!(hierarchy_string(&node("Egg", "ModelNode", vec![])), "[Egg - ModelNode]\n");
}

#[test]
fn museum_keeps_its_title() {
    assert_eq!(Museum::new("Museum").title(), "Museum");
}

#[test]
fn default_selection_matches_swing_panel() {
    let panel = PanelSelection::default();
    assert_eq!(panel.sky_type, SkyType::B);
    assert_eq!(panel.camera_keymap, CameraKeymap::Steve);
}

#[test]
fn selection_changes_track_the_original_button_pairs() {
    let mut panel = PanelSelection::default();
    assert!(!panel.set_sky_type(SkyType::B));
    assert!(panel.set_sky_type(SkyType::A));
    assert!(!panel.set_camera_keymap(CameraKeymap::Steve));
    assert!(panel.set_camera_keymap(CameraKeymap::My));
}

#[test]
fn wasd_keymap_drives_the_six_directions() {
    let mut state = CameraMovementState::default();
    update_camera_movement(CameraKeymap::My, &mut state, MovementKey::W, true);
    update_camera_movement(CameraKeymap::My, &mut state, MovementKey::A, true);
    update_camera_movement(CameraKeymap::My, &mut state, MovementKey::Z, true);
    assert!(state.forward && state.left);
    assert!(!state.backward && !state.right && !state.up && !state.down);
    assert_eq!(state.movements(), vec![Movement::Left, Movement::Forward]);
    update_camera_movement(CameraKeymap::My, &mut state, MovementKey::W, false);
    assert!(!state.forward && state.left);
}

#[test]
fn arrows_keymap_uses_a_and_z_for_depth() {
    let mut state = CameraMovementState::default();
    update_camera_movement(CameraKeymap::Steve, &mut state, MovementKey::A, true);
    update_camera_movement(CameraKeymap::Steve, &mut state, MovementKey::Z, true);
    update_camera_movement(CameraKeymap::Steve, &mut state, MovementKey::Up, true);
    update_camera_movement(CameraKeymap::Steve, &mut state, MovementKey::W, true);
    assert!(state.forward && state.backward && state.up);
    assert!(!state.left && !state.right && !state.down);
    assert_eq!(
        state.movements(),
        vec![Movement::Up, Movement::Forward, Movement::Backward]
    );
}

#[test]
fn msaa_buffer_releases_only_what_it_owns() {
    let mut buffer = MsaaOffscreenBuffer::new(16);
    assert_eq!(buffer.samples(), 16);
    assert_eq!(
        buffer.release_buffers(),
        ReleasedBuffers { framebuffer: None, color_texture: None, depth_stencil_renderbuffer: None }
    );
    buffer.attach_buffers(800, 600, 3, 4, 0);
    assert_eq!((buffer.width(), buffer.height(), buffer.framebuffer_id()), (800, 600, 3));
    assert_eq!(
        buffer.release_buffers(),
        ReleasedBuffers { framebuffer: Some(3), color_texture: Some(4), depth_stencil_renderbuffer: None }
    );
    assert_eq!(buffer.framebuffer_id(), 0);
    assert_eq!((buffer.width(), buffer.height()), (800, 600));
}

#[test]
fn shader_buffer_keeps_its_quad_when_released() {
    let mut buffer = ShaderOffscreenBuffer::with_quad(9, 10);
    buffer.attach_image_buffers(1, 2, 5);
    assert_eq!(buffer.color_buffer_id(), 2);
    assert_eq!(
        buffer.release_image_buffers(),
        ReleasedBuffers { framebuffer: Some(1), color_texture: Some(2), depth_stencil_renderbuffer: Some(5) }
    );
    assert_eq!((buffer.framebuffer_id(), buffer.color_buffer_id()), (0, 0));
    assert_eq!((buffer.quad_vertex_array_id(), buffer.quad_vertex_buffer_id()), (9, 10));
}

#[test]
fn flipping_reverses_the_rows() {
    let pixels: Vec<u8> = vec![1, 2, 3, 4, 5, 6, 7, 8, 9, 10, 11, 12];
    assert_eq!(flip_vertical(&pixels, 4, 3), vec![9, 10, 11, 12, 5, 6, 7, 8, 1, 2, 3, 4]);
    assert_eq!(flip_vertical(&flip_vertical(&pixels, 4, 3), 4, 3), pixels);
    assert_eq!(flip_vertical(&pixels, 6, 2), vec![7, 8, 9, 10, 11, 12, 1, 2, 3, 4, 5, 6]);
    assert_eq!(flip_vertical(&vec![], 6, 0), Vec::<u8>::new());
}

#[test]
fn light_uniform_names() {
    assert_eq!(light_uniform(LightArray::Directional, 0, "direction"), "dirLights[0].direction");
    assert_eq!(light_uniform(LightArray::Point, 12, "quadratic"), "pointLights[12].quadratic");
    assert_eq!(light_uniform(LightArray::Spot, 3, "outerCutOff"), "spotLights[3].outerCutOff");
    assert_eq!(light_count_uniform(LightArray::Point), "numPointLights");
    assert_eq!(texture_uniform(1), "texture1");
    assert_eq!(texture_uniform(105), "texture105");
}
