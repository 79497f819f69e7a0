use wgpu_mc_jni::event::{
    next_step, react, sub_image_2d, tex_image_2d, update_window_title, Action, ControlFlow, Event,
    LoopStep, MinecraftRenderState, Reaction, RenderMessage, Task, WindowEvent, WindowSize,
};
use wgpu_mc_jni::startup::{initial_window_size, GlPipelineState};

fn window_event(for_this_window: bool, event: WindowEvent) -> Event {
    Event::WindowEvent { for_this_window, event }
}

fn poll(action: Action) -> Reaction {
    Reaction { control_flow: ControlFlow::Poll, action }
}

#[test]
fn each_event_has_its_answer() {
    let size = WindowSize { width: 800, height: 600 };
    assert_eq!(react(Event::MainEventsCleared), poll(Action::RequestRedraw));
    assert_eq!(react(Event::RedrawRequested), poll(Action::UpdateAndRender));
    assert_eq!(react(Event::Other), poll(Action::Nothing));
    assert_eq!(react(window_event(true, WindowEvent::Resized(size))), poll(Action::Resize(size)));
    assert_eq!(
        react(window_event(true, WindowEvent::ScaleFactorChanged(size))),
        poll(Action::Resize(size))
    );
    assert_eq!(react(window_event(true, WindowEvent::Other)), poll(Action::Nothing));
}

#[test]
fn only_closing_this_window_ends_the_loop() {
    let closing = react(window_event(true, WindowEvent::CloseRequested));
    assert_eq!(closing.control_flow, ControlFlow::Exit);
    assert_eq!(closing.action, Action::Nothing);
    assert_eq!(react(window_event(false, WindowEvent::CloseRequested)), poll(Action::Nothing));
}

#[test]
fn other_windows_do_not_resize_this_one() {
    let size = WindowSize { width: 1, height: 2 };
    assert_eq!(react(window_event(false, WindowEvent::Resized(size))), poll(Action::Nothing));
}

#[test]
fn a_turn_carries_out_messages_before_its_event() {
    let mut waiting = vec![
        tex_image_2d(1, 2, 3, 0x1908, 0x1401, 0),
        update_window_title("second".to_string()),
        update_window_title("first".to_string()),
    ];
    let mut steps = vec![];
    loop {
        let step = next_step(waiting.pop(), Event::MainEventsCleared);
        let last = matches!(step, LoopStep::React(_));
        steps.push(step);
        if last {
            break;
        }
    }
    assert_eq!(steps.len(), 4);
    assert_eq!(steps[0], LoopStep::SetTitle("first".to_string()));
    assert_eq!(steps[1], LoopStep::SetTitle("second".to_string()));
    assert!(matches!(steps[2], LoopStep::Run(Task::TexImage2D(_))));
    assert_eq!(steps[3], LoopStep::React(poll(Action::RequestRedraw)));
}

#[test]
fn requests_keep_their_arguments() {
    match tex_image_2d(1, 2, 3, 4, 5, 6) {
        RenderMessage::Task(Task::TexImage2D(t)) => {
            assert_eq!((t.texture_id, t.width, t.height), (1, 2, 3));
            assert_eq!((t.format, t.component_type, t.pixels), (4, 5, 6));
        }
        other => panic!("{:?}", other),
    }
    match sub_image_2d(1, 2, 3, 4, 5, 0x80E1, 7, 8) {
        RenderMessage::Task(Task::SubImage2D(t)) => {
            assert_eq!((t.texture_id, t.offset_x, t.offset_y), (1, 2, 3));
            assert_eq!((t.width, t.height, t.format), (4, 5, 0x80E1));
            assert_eq!((t.component_type, t.pixels), (7, 8));
        }
        other => panic!("{:?}", other),
    }
}

#[test]
fn the_world_is_drawn_once_it_is_switched_on() {
    let mut state = MinecraftRenderState::new();
    assert!(!state.render_world);
    state.set_world_render_state(1);
    assert!(state.render_world);
    state.set_world_render_state(255);
    assert!(state.render_world);
    state.set_world_render_state(0);
    assert!(!state.render_world);
}

#[test]
fn everything_starts_at_the_beginning() {
    assert_eq!(initial_window_size(), WindowSize { width: 1280, height: 720 });
    let state = GlPipelineState::new();
    assert_eq!(state.matrix_stacks.len(), 3);
    for stack in &state.matrix_stacks {
        assert_eq!(stack.matrices.len(), 32);
        assert_eq!(stack.current, 0);
        for matrix in &stack.matrices {
            assert_eq!(f32::from_bits(matrix.columns[2][2]), 1.0);
            assert_eq!(f32::from_bits(matrix.columns[2][1]), 0.0);
        }
    }
    assert_eq!(state.matrix_mode, 0);
    assert_eq!(state.active_texture_unit, 0);
    assert!(state.texture_units.is_empty());
    assert_eq!(state.vertex_array, None);
    assert!(state.client_states.is_empty());
    assert_eq!(state.active_pipeline, 0);
}
