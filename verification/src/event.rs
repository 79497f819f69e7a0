//! What the thread that owns the window does: it carries out the messages that wait for it and
//! answers the events of the window system.

use vstd::prelude::*;

use crate::texture::{SubImage2D, TexImage2D};

verus! {

/// The size of a window's inside, in pixels.
#[derive(Clone, Copy, Debug, PartialEq, Eq, Structural)]
pub struct WindowSize {
    pub width: u32,
    pub height: u32,
}

/// Work that has to be done on the thread that owns the renderer.
#[derive(Clone, Copy, Debug, PartialEq, Eq, Structural)]
pub enum Task {
    TexImage2D(TexImage2D),
    SubImage2D(SubImage2D),
}

/// What other threads ask of the thread that owns the window.
#[derive(Debug, PartialEq, Eq)]
pub enum RenderMessage {
    SetTitle(String),
    Task(Task),
}

/// What is known of the game that decides what is drawn.
#[derive(Clone, Copy, Debug, PartialEq, Eq, Structural)]
pub struct MinecraftRenderState {
    pub render_world: bool,
}

impl MinecraftRenderState {
    /// At the start the world is not drawn.
    pub fn new() -> (r: Self)
        ensures
            !r.render_world,
    {
        MinecraftRenderState { render_world: false }
    }

    /// Switches the drawing of the world: zero is off, everything else is on.
    pub fn set_world_render_state(&mut self, boolean: u8)
        ensures
            final(self).render_world == (boolean != 0),
    {
        self.render_world = boolean != 0;
    }
}

/// Asks for a new window title.
pub fn update_window_title(title: String) -> (r: RenderMessage)
    ensures
        r == RenderMessage::SetTitle(title),
{
    RenderMessage::SetTitle(title)
}

/// Asks for a texture made out of a whole image. Whether the request can be carried out is only
/// looked at when its turn comes.
pub fn tex_image_2d(
    texture_id: i32,
    width: i32,
    height: i32,
    format: i32,
    component_type: i32,
    pixels: i64,
) -> (r: RenderMessage)
    ensures
        r == RenderMessage::Task(
            Task::TexImage2D(
                TexImage2D { texture_id, width, height, format, component_type, pixels },
            ),
        ),
{
    RenderMessage::Task(
        Task::TexImage2D(TexImage2D { texture_id, width, height, format, component_type, pixels }),
    )
}

/// Asks for a part of a texture to be replaced. The format must be a known one at once; the rest
/// is only looked at when the request's turn comes.
pub fn sub_image_2d(
    texture_id: i32,
    offset_x: i32,
    offset_y: i32,
    width: i32,
    height: i32,
    format: i32,
    component_type: i32,
    pixels: i64,
) -> (r: RenderMessage)
    requires
        crate::texture::format_of(format) is Some,
    ensures
        r == RenderMessage::Task(
            Task::SubImage2D(
                SubImage2D {
                    texture_id,
                    offset_x,
                    offset_y,
                    width,
                    height,
                    format,
                    component_type,
                    pixels,
                },
            ),
        ),
{
    RenderMessage::Task(
        Task::SubImage2D(
            SubImage2D {
                texture_id,
                offset_x,
                offset_y,
                width,
                height,
                format,
                component_type,
                pixels,
            },
        ),
    )
}

/// What can happen to a window, as far as anything is done about it.
#[derive(Clone, Copy, Debug, PartialEq, Eq, Structural)]
pub enum WindowEvent {
    CloseRequested,
    Resized(WindowSize),
    ScaleFactorChanged(WindowSize),
    Other,
}

/// An event of the window system. One that is for a window says whether it is for this one.
#[derive(Clone, Copy, Debug, PartialEq, Eq, Structural)]
pub enum Event {
    MainEventsCleared,
    WindowEvent { for_this_window: bool, event: WindowEvent },
    RedrawRequested,
    Other,
}

/// Whether the event loop goes on at once or ends.
#[derive(Clone, Copy, Debug, PartialEq, Eq, Structural)]
pub enum ControlFlow {
    Poll,
    Exit,
}

/// What is done about an event.
#[derive(Clone, Copy, Debug, PartialEq, Eq, Structural)]
pub enum Action {
    RequestRedraw,
    Resize(WindowSize),
    UpdateAndRender,
    Nothing,
}

/// The answer to an event.
#[derive(Clone, Copy, Debug, PartialEq, Eq, Structural)]
pub struct Reaction {
    pub control_flow: ControlFlow,
    pub action: Action,
}

/// Whether `event` asks for this window to be closed.
pub open spec fn asks_to_close(event: Event) -> bool {
    event == (Event::WindowEvent { for_this_window: true, event: WindowEvent::CloseRequested })
}

/// What is done about `event`.
pub open spec fn action_for(event: Event) -> Action {
    match event {
        Event::MainEventsCleared => Action::RequestRedraw,
        Event::WindowEvent { for_this_window: true, event: WindowEvent::Resized(size) } => {
            Action::Resize(size)
        },
        Event::WindowEvent { for_this_window: true, event: WindowEvent::ScaleFactorChanged(size) }
        => { Action::Resize(size) },
        Event::RedrawRequested => Action::UpdateAndRender,
        _ => Action::Nothing,
    }
}

/// The answer to `event`: the loop ends where the window is to be closed, and goes on otherwise.
pub open spec fn reaction_to(event: Event) -> Reaction {
    Reaction {
        control_flow: if asks_to_close(event) {
            ControlFlow::Exit
        } else {
            ControlFlow::Poll
        },
        action: action_for(event),
    }
}

/// Answers an event.
pub fn react(event: Event) -> (r: Reaction)
    ensures
        r == reaction_to(event),
{
    let mut control_flow: ControlFlow = ControlFlow::Poll;
    let action: Action = match event {
        Event::MainEventsCleared => Action::RequestRedraw,
        Event::WindowEvent { for_this_window, event } => {
            if for_this_window {
                match event {
                    WindowEvent::CloseRequested => {
                        control_flow = ControlFlow::Exit;
                        Action::Nothing
                    },
                    WindowEvent::Resized(size) => Action::Resize(size),
                    WindowEvent::ScaleFactorChanged(size) => Action::Resize(size),
                    WindowEvent::Other => Action::Nothing,
                }
            } else {
                Action::Nothing
            }
        },
        Event::RedrawRequested => Action::UpdateAndRender,
        Event::Other => Action::Nothing,
    };
    Reaction { control_flow, action }
}

/// One step of a turn of the event loop.
#[derive(Debug, PartialEq, Eq)]
pub enum LoopStep {
    SetTitle(String),
    Run(Task),
    React(Reaction),
}

/// The step for what waits: a message is carried out, and where none waits the turn ends with the
/// answer to its event.
pub open spec fn step_for(waiting: Option<RenderMessage>, event: Event) -> LoopStep {
    match waiting {
        Some(RenderMessage::SetTitle(title)) => LoopStep::SetTitle(title),
        Some(RenderMessage::Task(task)) => LoopStep::Run(task),
        None => LoopStep::React(reaction_to(event)),
    }
}

/// The next step of the turn that `event` began, given the message that waits, if one does.
pub fn next_step(waiting: Option<RenderMessage>, event: Event) -> (r: LoopStep)
    ensures
        r == step_for(waiting, event),
{
    match waiting {
        Some(RenderMessage::SetTitle(title)) => LoopStep::SetTitle(title),
        Some(RenderMessage::Task(task)) => LoopStep::Run(task),
        None => LoopStep::React(react(event)),
    }
}

/// The steps of the turn that `event` began, where `messages` came one after the other before
/// none was left.
pub open spec fn turn(messages: Seq<RenderMessage>, event: Event) -> Seq<LoopStep>
    decreases messages.len(),
{
    if messages.len() == 0 {
        seq![step_for(None, event)]
    } else {
        seq![step_for(Some(messages[0]), event)] + turn(messages.drop_first(), event)
    }
}

/// A turn carries out every message that came, in order, and then answers its event, once.
pub proof fn turn_handles_messages_then_the_event(messages: Seq<RenderMessage>, event: Event)
    ensures
        turn(messages, event).len() == messages.len() + 1,
        forall|i: int|
            0 <= i < messages.len() ==> #[trigger] turn(messages, event)[i] == step_for(
                Some(messages[i]),
                event,
            ),
        forall|i: int|
            0 <= i < messages.len() ==> match messages[i] {
                RenderMessage::SetTitle(title) => #[trigger] turn(messages, event)[i]
                    == LoopStep::SetTitle(title),
                RenderMessage::Task(task) => turn(messages, event)[i] == LoopStep::Run(task),
            },
        forall|i: int|
            0 <= i < messages.len() ==> !(#[trigger] turn(messages, event)[i] is React),
        turn(messages, event).last() == LoopStep::React(reaction_to(event)),
    decreases messages.len(),
{
    if messages.len() > 0 {
        let rest = messages.drop_first();
        turn_handles_messages_then_the_event(rest, event);
        assert forall|i: int| 0 <= i < messages.len() implies #[trigger] turn(messages, event)[i]
            == step_for(Some(messages[i]), event) by {
            if i > 0 {
                assert(turn(messages, event)[i] == turn(rest, event)[i - 1]);
                assert(rest[i - 1] == messages[i]);
            }
        }
        assert(turn(messages, event).last() == turn(rest, event).last());
    }
}

/// The loop ends on the request to close this window and on nothing else, and then does nothing
/// more.
pub proof fn loop_ends_only_on_close(event: Event)
    ensures
        reaction_to(event).control_flow == ControlFlow::Exit <==> asks_to_close(event),
        asks_to_close(event) ==> reaction_to(event).action == Action::Nothing,
{
}

/// What happens to other windows is left alone.
pub proof fn other_windows_are_left_alone(event: WindowEvent)
    ensures
        reaction_to(Event::WindowEvent { for_this_window: false, event }) == (Reaction {
            control_flow: ControlFlow::Poll,
            action: Action::Nothing,
        }),
{
}

/// The step for a waiting message carries out that message and no other: a task is run as it is,
/// and a title is set as it is, whatever the event. Where nothing waits, the event is answered.
pub proof fn waiting_messages_are_carried_out(
    waiting: Option<RenderMessage>,
    event: Event,
    step: LoopStep,
)
    requires
        call_ensures(next_step, (waiting, event), step),
    ensures
        waiting matches Some(RenderMessage::Task(task)) ==> step == LoopStep::Run(task),
        step matches LoopStep::Run(task) ==> waiting == Some(RenderMessage::Task(task)),
        waiting matches Some(RenderMessage::SetTitle(title)) ==> step == LoopStep::SetTitle(title),
        step matches LoopStep::SetTitle(title) ==> waiting == Some(RenderMessage::SetTitle(title)),
        step is React <==> waiting is None,
{
}

/// Where nothing waits, the step is the answer that the event gets by itself.
pub proof fn an_idle_turn_answers_its_event(event: Event, step: LoopStep, answer: Reaction)
    requires
        call_ensures(next_step, (None::<RenderMessage>, event), step),
        call_ensures(react, (event,), answer),
    ensures
        step == LoopStep::React(answer),
{
}

/// What is done about an event: each action belongs to the events that ask for it, and to no
/// others. The loop ends where this window is to be closed, and nowhere else.
pub proof fn events_get_what_they_ask_for(event: Event, answer: Reaction)
    requires
        call_ensures(react, (event,), answer),
    ensures
        answer.action is RequestRedraw <==> event is MainEventsCleared,
        answer.action is UpdateAndRender <==> event is RedrawRequested,
        answer.action matches Action::Resize(size) ==> event == (Event::WindowEvent {
            for_this_window: true,
            event: WindowEvent::Resized(size),
        }) || event == (Event::WindowEvent {
            for_this_window: true,
            event: WindowEvent::ScaleFactorChanged(size),
        }),
        event matches Event::WindowEvent {
            for_this_window: true,
            event: WindowEvent::Resized(size),
        } ==> answer.action == Action::Resize(size),
        event matches Event::WindowEvent {
            for_this_window: true,
            event: WindowEvent::ScaleFactorChanged(size),
        } ==> answer.action == Action::Resize(size),
        answer.control_flow is Exit <==> event == (Event::WindowEvent {
            for_this_window: true,
            event: WindowEvent::CloseRequested,
        }),
        answer.control_flow is Exit ==> answer.action is Nothing,
{
}

/// Of an event that has to do with another window, nothing is taken note of.
pub proof fn another_window_changes_nothing(event: WindowEvent, answer: Reaction)
    requires
        call_ensures(react, (Event::WindowEvent { for_this_window: false, event },), answer),
    ensures
        answer.action is Nothing,
        answer.control_flow is Poll,
{
}

/// A title that is asked for is the one that is set when the request's turn comes.
pub proof fn titles_arrive(title: String, message: RenderMessage, event: Event, step: LoopStep)
    requires
        call_ensures(update_window_title, (title,), message),
        call_ensures(next_step, (Some(message), event), step),
    ensures
        step matches LoopStep::SetTitle(set) && set@ == title@,
{
}

/// The image that a texture is asked to be made of is the one that is run when the request's turn
/// comes, with every number as it was given.
pub proof fn whole_images_arrive(
    texture_id: i32,
    width: i32,
    height: i32,
    format: i32,
    component_type: i32,
    pixels: i64,
    message: RenderMessage,
    event: Event,
    step: LoopStep,
)
    requires
        call_ensures(
            tex_image_2d,
            (texture_id, width, height, format, component_type, pixels),
            message,
        ),
        call_ensures(next_step, (Some(message), event), step),
    ensures
        step matches LoopStep::Run(Task::TexImage2D(task)) && task.texture_id == texture_id
            && task.width == width && task.height == height && task.format == format
            && task.component_type == component_type && task.pixels == pixels,
{
}

/// The part of a texture that is asked to be replaced is the one that is run when the request's
/// turn comes, with every number as it was given. Every part of a known format can be asked for.
pub proof fn parts_arrive(
    texture_id: i32,
    offset_x: i32,
    offset_y: i32,
    width: i32,
    height: i32,
    format: i32,
    component_type: i32,
    pixels: i64,
    message: RenderMessage,
    event: Event,
    step: LoopStep,
)
    requires
        format == 0x1908 || format == 0x80E1,
        call_ensures(
            sub_image_2d,
            (texture_id, offset_x, offset_y, width, height, format, component_type, pixels),
            message,
        ),
        call_ensures(next_step, (Some(message), event), step),
    ensures
        call_requires(
            sub_image_2d,
            (texture_id, offset_x, offset_y, width, height, format, component_type, pixels),
        ),
        step matches LoopStep::Run(Task::SubImage2D(task)) && task.texture_id == texture_id
            && task.offset_x == offset_x && task.offset_y == offset_y && task.width == width
            && task.height == height && task.format == format && task.component_type
            == component_type && task.pixels == pixels,
{
}

/// The world is drawn after a switch exactly if the switch was not given zero, whatever was set
/// before. At the start it is not drawn.
pub proof fn the_last_switch_decides(
    state: &mut MinecraftRenderState,
    boolean: u8,
    first: MinecraftRenderState,
)
    requires
        call_ensures(MinecraftRenderState::set_world_render_state, (state, boolean), ()),
        call_ensures(MinecraftRenderState::new, (), first),
    ensures
        final(state).render_world <==> boolean > 0,
        !first.render_world,
{
}

} // verus!
