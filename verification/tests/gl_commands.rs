use wgpu_mc_jni::gl::{GLCommand, GlState};
use wgpu_mc_jni::matrix::{bound_projection, matrix_from_elements, Matrix4, OrthoBounds};

fn last(state: &GlState) -> &GLCommand {
    state.commands.last().unwrap()
}

#[test]
fn commands_are_handed_on_in_order_and_once() {
    let mut state = GlState::new();
    state.push_matrix();
    state.active_texture(4);
    let first = state.submit_commands();
    assert_eq!(first, vec![GLCommand::PushMatrix, GLCommand::ActiveTexture(4)]);
    state.pop_matrix();
    let second = state.submit_commands();
    assert_eq!(second, vec![GLCommand::PopMatrix]);
    assert!(state.submit_commands().is_empty());
}

#[test]
fn the_last_buffer_bound_to_a_target_stays() {
    let mut state = GlState::new();
    state.bind_buffer(10, 1);
    state.bind_buffer(11, 2);
    state.bind_buffer(10, 3);
    assert_eq!(state.buffers.get(&10), Some(&3));
    assert_eq!(state.buffers.get(&11), Some(&2));
    assert_eq!(state.submit_commands().len(), 3);
    assert_eq!(state.buffers.len(), 2);
}

#[test]
fn calls_become_their_commands() {
    let mut s = GlState::new();
    s.vertex_pointer(1, 2, 3, 4);
    assert_eq!(last(&s), &GLCommand::VertexPointer(1, 2, 3, 4));
    s.color_pointer(1, 2, 3, -1);
    assert_eq!(last(&s), &GLCommand::ColorPointer(1, 2, 3, usize::MAX));
    s.tex_coord_pointer(5, 6, 7, 8);
    assert_eq!(last(&s), &GLCommand::TexCoordPointer(5, 6, 7, 8));
    s.draw_array(1, 2, 3);
    assert_eq!(last(&s), &GLCommand::DrawArray(1, 2, 3));
    s.draw_elements(1, 2, 3, 4);
    assert_eq!(last(&s), &GLCommand::DrawElements(1, 2, 3, 4));
    s.draw_indexed(-2);
    assert_eq!(last(&s), &GLCommand::DrawIndexed(0xffff_fffe));
    s.enable_client_state(0x8074);
    assert_eq!(last(&s), &GLCommand::EnableClientState(0x8074));
    s.disable_client_state(-1);
    assert_eq!(last(&s), &GLCommand::DisableClientState(u32::MAX));
    s.bind_vertex_array(9);
    assert_eq!(last(&s), &GLCommand::BindVertexArray(9));
    s.attach_texture_bind_group(12);
    assert_eq!(last(&s), &GLCommand::AttachTexture(12));
    s.matrix_mode(2);
    assert_eq!(last(&s), &GLCommand::MatrixMode(2));
    s.matrix_mode(-1);
    assert_eq!(last(&s), &GLCommand::MatrixMode(usize::MAX));
    s.wm_use_pipeline(1);
    assert_eq!(last(&s), &GLCommand::UsePipeline(1));
    s.clear_color(1.0f32.to_bits(), 0.5f32.to_bits(), 0);
    assert_eq!(last(&s), &GLCommand::ClearColor(0x3f80_0000, 0x3f00_0000, 0));
    assert_eq!(s.commands.len(), 14);
}

#[test]
fn matrices_are_those_of_the_mathematics() {
    let mut s = GlState::new();
    s.load_identity();
    let one = 1.0f32.to_bits();
    let identity = Matrix4 {
        columns: [[one, 0, 0, 0], [0, one, 0, 0], [0, 0, one, 0], [0, 0, 0, one]],
    };
    assert_eq!(last(&s), &GLCommand::SetMatrix(identity));
    let (x, y, z) = (2.0f32.to_bits(), (-3.5f32).to_bits(), 0.25f32.to_bits());
    s.translate(x, y, z);
    let mut translation = identity;
    translation.columns[3] = [x, y, z, one];
    assert_eq!(last(&s), &GLCommand::MultMatrix(translation));
    s.translate(0, 0, 0);
    assert_eq!(last(&s), &GLCommand::MultMatrix(identity));
    s.set_matrix(translation);
    assert_eq!(last(&s), &GLCommand::SetMatrix(translation));
}

#[test]
fn translation_agrees_with_cgmath() {
    let expected: [[f32; 4]; 4] =
        cgmath::Matrix4::from_translation(cgmath::Vector3::new(1.5f32, 2.5, -3.5)).into();
    let m = Matrix4::from_translation(1.5f32.to_bits(), 2.5f32.to_bits(), (-3.5f32).to_bits());
    assert_eq!(m.columns.map(|c| c.map(f32::from_bits)), expected);
}

#[test]
fn a_projection_goes_to_its_slot() {
    let mut s = GlState::new();
    let m = Matrix4::identity();
    s.bind_matrix4f(3, &[0; 16], m);
    assert_eq!(last(&s), &GLCommand::BindMat(3, m));
    assert_eq!(
        bound_projection(),
        OrthoBounds { left: 0, right: 1280, bottom: 720, top: 0, near: 0, far: 10000 }
    );
}

#[test]
fn elements_fill_the_columns() {
    let elements: Vec<u32> = (0..16).map(|i| (i as f32 + 0.5).to_bits()).collect();
    let m = matrix_from_elements(&elements);
    for c in 0..4 {
        for r in 0..4 {
            let read = u32::from_le_bytes(elements[4 * c + r].to_ne_bytes());
            assert_eq!(m.columns[c][r], read);
        }
    }
}

#[test]
fn vertex_numbers_lie_in_memory_order() {
    let mut s = GlState::new();
    let numbers = [1.0f32, -2.5, 1e-3];
    let mut bytes: Vec<i8> = vec![];
    let mut expected: Vec<u8> = vec![];
    for n in numbers {
        bytes.extend(n.to_le_bytes().map(|b| b as i8));
        expected.extend(n.to_ne_bytes());
    }
    s.set_vertex_buffer(&bytes);
    assert_eq!(last(&s), &GLCommand::SetVertexBuffer(expected));
    s.set_vertex_buffer(&[]);
    assert_eq!(last(&s), &GLCommand::SetVertexBuffer(vec![]));
}

#[test]
fn indices_keep_their_bits() {
    let mut s = GlState::new();
    s.set_index_buffer(&[0, 1, -1, i32::MIN]);
    assert_eq!(last(&s), &GLCommand::SetIndexBuffer(vec![0, 1, u32::MAX, 0x8000_0000]));
}
