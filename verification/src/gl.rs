//! The calls of the graphics interface, recorded as commands and handed on in batches.

use std::collections::HashMap;
use vstd::prelude::*;

use crate::jvalue::{
    address_from_jlong, address_of, index_from_jint, index_of, word_from_jint, word_of,
};
use crate::matrix::Matrix4;
use crate::stream::unsigned;
use crate::words::{reversed_groups, vertex_bytes};

verus! {

broadcast use vstd::std_specs::hash::group_hash_axioms;

/// A recorded call. Single-precision numbers are held as their bits, pointers as addresses.
#[derive(Debug, PartialEq, Eq)]
pub enum GLCommand {
    BindBuffer(i32, i32),
    ActiveTexture(i32),
    PushMatrix,
    PopMatrix,
    MultMatrix(Matrix4),
    SetMatrix(Matrix4),
    MatrixMode(usize),
    BindMat(usize, Matrix4),
    VertexPointer(i32, i32, i32, usize),
    ColorPointer(i32, i32, i32, usize),
    TexCoordPointer(i32, i32, i32, usize),
    EnableClientState(u32),
    DisableClientState(u32),
    BindVertexArray(i32),
    AttachTexture(i32),
    ClearColor(u32, u32, u32),
    UsePipeline(usize),
    SetVertexBuffer(Vec<u8>),
    SetIndexBuffer(Vec<u32>),
    DrawArray(i32, i32, i32),
    DrawElements(i32, i32, i32, usize),
    DrawIndexed(u32),
}

/// What can happen to the queue of recorded commands.
pub ghost enum QueueStep {
    Record(GLCommand),
    Submit,
}

/// The queue after `step`: a command goes to its end, and handing it on leaves it empty.
pub open spec fn queue_after(queue: Seq<GLCommand>, step: QueueStep) -> Seq<GLCommand> {
    match step {
        QueueStep::Record(command) => queue.push(command),
        QueueStep::Submit => seq![],
    }
}

/// The graphics interface as its callers see it: the buffer bound to each target, and the
/// commands recorded since the last batch was handed on.
#[derive(Debug)]
pub struct GlState {
    pub buffers: HashMap<i32, i32>,
    pub commands: Vec<GLCommand>,
}

impl GlState {
    /// Whether this is `before` with one more command, `command`, at the end of the queue.
    pub open spec fn records(self, before: Self, command: GLCommand) -> bool {
        &&& self.commands@ == queue_after(before.commands@, QueueStep::Record(command))
        &&& self.buffers@ == before.buffers@
    }

    /// Nothing bound and nothing recorded.
    pub fn new() -> (r: Self)
        ensures
            r.buffers@ == Map::<i32, i32>::empty(),
            r.commands@ == Seq::<GLCommand>::empty(),
    {
        GlState { buffers: HashMap::new(), commands: Vec::new() }
    }

    /// Hands on the recorded commands, in the order of the calls, and starts over.
    pub fn submit_commands(&mut self) -> (batch: Vec<GLCommand>)
        ensures
            batch@ == old(self).commands@,
            final(self).commands@ == queue_after(old(self).commands@, QueueStep::Submit),
            final(self).buffers@ == old(self).buffers@,
    {
        let mut batch: Vec<GLCommand> = Vec::new();
        std::mem::swap(&mut batch, &mut self.commands);
        batch
    }

    /// Binds `buffer` to `target`, in the place of the one that was bound there.
    pub fn bind_buffer(&mut self, target: i32, buffer: i32)
        ensures
            final(self).buffers@ == old(self).buffers@.insert(target, buffer),
            final(self).commands@ == queue_after(
                old(self).commands@,
                QueueStep::Record(GLCommand::BindBuffer(target, buffer)),
            ),
    {
        self.buffers.insert(target, buffer);
        self.commands.push(GLCommand::BindBuffer(target, buffer));
    }

    /// Makes `tex` the active texture unit.
    pub fn active_texture(&mut self, tex: i32)
        ensures
            final(self).records(*old(self), GLCommand::ActiveTexture(tex)),
    {
        self.commands.push(GLCommand::ActiveTexture(tex));
    }

    /// Keeps a copy of the current matrix.
    pub fn push_matrix(&mut self)
        ensures
            final(self).records(*old(self), GLCommand::PushMatrix),
    {
        self.commands.push(GLCommand::PushMatrix);
    }

    /// Goes back to the matrix that was kept last.
    pub fn pop_matrix(&mut self)
        ensures
            final(self).records(*old(self), GLCommand::PopMatrix),
    {
        self.commands.push(GLCommand::PopMatrix);
    }

    /// Multiplies the current matrix by `matrix`.
    pub fn mult_matrix(&mut self, matrix: Matrix4)
        ensures
            final(self).records(*old(self), GLCommand::MultMatrix(matrix)),
    {
        self.commands.push(GLCommand::MultMatrix(matrix));
    }

    /// Makes `matrix` the current matrix.
    pub fn set_matrix(&mut self, matrix: Matrix4)
        ensures
            final(self).records(*old(self), GLCommand::SetMatrix(matrix)),
    {
        self.commands.push(GLCommand::SetMatrix(matrix));
    }

    /// Chooses the matrix that is current.
    pub fn matrix_mode(&mut self, mode: i32)
        ensures
            final(self).records(*old(self), GLCommand::MatrixMode(index_of(mode) as usize)),
    {
        self.commands.push(GLCommand::MatrixMode(index_from_jint(mode)));
    }

    /// Says where the positions of the vertices are.
    pub fn vertex_pointer(&mut self, size: i32, vertex_type: i32, stride: i32, pointer: i64)
        ensures
            final(self).records(
                *old(self),
                GLCommand::VertexPointer(size, vertex_type, stride, address_of(pointer) as usize),
            ),
    {
        let address: usize = address_from_jlong(pointer);
        self.commands.push(GLCommand::VertexPointer(size, vertex_type, stride, address));
    }

    /// Says where the colours of the vertices are.
    pub fn color_pointer(&mut self, size: i32, vertex_type: i32, stride: i32, pointer: i64)
        ensures
            final(self).records(
                *old(self),
                GLCommand::ColorPointer(size, vertex_type, stride, address_of(pointer) as usize),
            ),
    {
        let address: usize = address_from_jlong(pointer);
        self.commands.push(GLCommand::ColorPointer(size, vertex_type, stride, address));
    }

    /// Says where the texture coordinates of the vertices are.
    pub fn tex_coord_pointer(&mut self, size: i32, vertex_type: i32, stride: i32, pointer: i64)
        ensures
            final(self).records(
                *old(self),
                GLCommand::TexCoordPointer(size, vertex_type, stride, address_of(pointer) as usize),
            ),
    {
        let address: usize = address_from_jlong(pointer);
        self.commands.push(GLCommand::TexCoordPointer(size, vertex_type, stride, address));
    }

    /// Switches a kind of vertex data on.
    pub fn enable_client_state(&mut self, state: i32)
        ensures
            final(self).records(*old(self), GLCommand::EnableClientState(word_of(state) as u32)),
    {
        self.commands.push(GLCommand::EnableClientState(word_from_jint(state)));
    }

    /// Switches a kind of vertex data off.
    pub fn disable_client_state(&mut self, state: i32)
        ensures
            final(self).records(*old(self), GLCommand::DisableClientState(word_of(state) as u32)),
    {
        self.commands.push(GLCommand::DisableClientState(word_from_jint(state)));
    }

    /// Makes `array` the current vertex array.
    pub fn bind_vertex_array(&mut self, array: i32)
        ensures
            final(self).records(*old(self), GLCommand::BindVertexArray(array)),
    {
        self.commands.push(GLCommand::BindVertexArray(array));
    }

    /// Makes the texture `id` the one to draw with.
    pub fn attach_texture_bind_group(&mut self, id: i32)
        ensures
            final(self).records(*old(self), GLCommand::AttachTexture(id)),
    {
        self.commands.push(GLCommand::AttachTexture(id));
    }

    /// Fills the screen with a colour, given by the bits of its parts.
    pub fn clear_color(&mut self, r: u32, g: u32, b: u32)
        ensures
            final(self).records(*old(self), GLCommand::ClearColor(r, g, b)),
    {
        self.commands.push(GLCommand::ClearColor(r, g, b));
    }

    /// Makes `pipeline` the one to draw with.
    pub fn wm_use_pipeline(&mut self, pipeline: i32)
        ensures
            final(self).records(*old(self), GLCommand::UsePipeline(index_of(pipeline) as usize)),
    {
        self.commands.push(GLCommand::UsePipeline(index_from_jint(pipeline)));
    }

    /// Draws `count` vertices from `first` on.
    pub fn draw_array(&mut self, mode: i32, first: i32, count: i32)
        ensures
            final(self).records(*old(self), GLCommand::DrawArray(mode, first, count)),
    {
        self.commands.push(GLCommand::DrawArray(mode, first, count));
    }

    /// Draws by the indices at an address.
    pub fn draw_elements(&mut self, mode: i32, first: i32, index_type: i32, indices: i64)
        ensures
            final(self).records(
                *old(self),
                GLCommand::DrawElements(mode, first, index_type, address_of(indices) as usize),
            ),
    {
        let address: usize = address_from_jlong(indices);
        self.commands.push(GLCommand::DrawElements(mode, first, index_type, address));
    }

    /// Draws by the first `count` indices of the index buffer.
    pub fn draw_indexed(&mut self, count: i32)
        ensures
            final(self).records(*old(self), GLCommand::DrawIndexed(word_of(count) as u32)),
    {
        self.commands.push(GLCommand::DrawIndexed(word_from_jint(count)));
    }

    /// Moves by `x`, `y` and `z`, given by their bits: multiplies the current matrix by the
    /// translation.
    pub fn translate(&mut self, x: u32, y: u32, z: u32)
        ensures
            final(self).commands@.len() == old(self).commands@.len() + 1,
            final(self).commands@.last() matches GLCommand::MultMatrix(m) && m.is_translation(
                x,
                y,
                z,
            ) && final(self).records(*old(self), GLCommand::MultMatrix(m)),
    {
        self.mult_matrix(Matrix4::from_translation(x, y, z));
    }

    /// Makes the identity the current matrix.
    pub fn load_identity(&mut self)
        ensures
            final(self).commands@.len() == old(self).commands@.len() + 1,
            final(self).commands@.last() matches GLCommand::SetMatrix(m) && m.is_identity()
                && final(self).records(*old(self), GLCommand::SetMatrix(m)),
    {
        self.set_matrix(Matrix4::identity());
    }

    /// Binds `projection` to a matrix slot. The sixteen numbers that come with the call are not
    /// looked at.
    pub fn bind_matrix4f(&mut self, slot: i32, elements: &[u32], projection: Matrix4)
        requires
            elements@.len() == 16,
        ensures
            final(self).records(
                *old(self),
                GLCommand::BindMat(index_of(slot) as usize, projection),
            ),
    {
        self.commands.push(GLCommand::BindMat(index_from_jint(slot), projection));
    }

    /// Sets the vertex data: the numbers that `bytes` spells with the lowest byte first, as they
    /// lie in this machine's memory.
    pub fn set_vertex_buffer(&mut self, bytes: &[i8])
        requires
            bytes@.len() % 4 == 0,
        ensures
            final(self).commands@.len() == old(self).commands@.len() + 1,
            final(self).commands@.last() matches GLCommand::SetVertexBuffer(v) && (v@ == unsigned(
                bytes@,
            ) || v@ == reversed_groups(unsigned(bytes@))) && final(self).records(
                *old(self),
                GLCommand::SetVertexBuffer(v),
            ),
    {
        let vertices: Vec<u8> = vertex_bytes(bytes);
        self.commands.push(GLCommand::SetVertexBuffer(vertices));
    }

    /// Sets the indices: `elements` by their bits.
    pub fn set_index_buffer(&mut self, elements: &[i32])
        ensures
            final(self).commands@.len() == old(self).commands@.len() + 1,
            final(self).commands@.last() matches GLCommand::SetIndexBuffer(v) && v@
                == elements@.map_values(|e: i32| word_of(e) as u32) && final(self).records(
                *old(self),
                GLCommand::SetIndexBuffer(v),
            ),
    {
        let mut indices: Vec<u32> = Vec::with_capacity(elements.len());
        let mut i: usize = 0;
        while i < elements.len()
            invariant
                i <= elements@.len(),
                indices@ == elements@.map_values(|e: i32| word_of(e) as u32).take(i as int),
            decreases elements@.len() - i,
        {
            indices.push(word_from_jint(elements[i]));
            i = i + 1;
            assert(indices@ =~= elements@.map_values(|e: i32| word_of(e) as u32).take(i as int));
        }
        assert(indices@ =~= elements@.map_values(|e: i32| word_of(e) as u32));
        self.commands.push(GLCommand::SetIndexBuffer(indices));
    }
}

/// The queue after `steps`, from `queue` on.
pub open spec fn queue_after_all(queue: Seq<GLCommand>, steps: Seq<QueueStep>) -> Seq<GLCommand>
    decreases steps.len(),
{
    if steps.len() == 0 {
        queue
    } else {
        queue_after(queue_after_all(queue, steps.drop_last()), steps.last())
    }
}

/// The commands handed on by `steps`, from `queue` on, batch after batch.
pub open spec fn handed_on(queue: Seq<GLCommand>, steps: Seq<QueueStep>) -> Seq<GLCommand>
    decreases steps.len(),
{
    if steps.len() == 0 {
        seq![]
    } else {
        let before = steps.drop_last();
        match steps.last() {
            QueueStep::Record(command) => handed_on(queue, before),
            QueueStep::Submit => handed_on(queue, before) + queue_after_all(queue, before),
        }
    }
}

/// The commands recorded by `steps`, in order.
pub open spec fn recorded(steps: Seq<QueueStep>) -> Seq<GLCommand>
    decreases steps.len(),
{
    if steps.len() == 0 {
        seq![]
    } else {
        match steps.last() {
            QueueStep::Record(command) => recorded(steps.drop_last()).push(command),
            QueueStep::Submit => recorded(steps.drop_last()),
        }
    }
}

/// Whatever is recorded and handed on, in whatever order: the batches and what still waits are
/// together what waited at first and every command recorded since, once each and in order.
pub proof fn no_command_is_lost(queue: Seq<GLCommand>, steps: Seq<QueueStep>)
    ensures
        handed_on(queue, steps) + queue_after_all(queue, steps) == queue + recorded(steps),
    decreases steps.len(),
{
    if steps.len() > 0 {
        no_command_is_lost(queue, steps.drop_last());
        let before = steps.drop_last();
        match steps.last() {
            QueueStep::Record(command) => {
                assert(handed_on(queue, steps) + queue_after_all(queue, steps) =~= (handed_on(
                    queue,
                    before,
                ) + queue_after_all(queue, before)).push(command));
                assert(queue + recorded(steps) =~= (queue + recorded(before)).push(command));
            },
            QueueStep::Submit => {
                assert(handed_on(queue, steps) + queue_after_all(queue, steps) =~= handed_on(
                    queue,
                    before,
                ) + queue_after_all(queue, before));
            },
        }
    } else {
        assert(handed_on(queue, steps) + queue_after_all(queue, steps) =~= queue + recorded(
            steps,
        ));
    }
}

/// Calls that only note down their arguments add one command to the end of the queue, which holds
/// the arguments as they were given, and change nothing else.
pub proof fn arguments_are_noted_down(
    s: &mut GlState,
    a: i32,
    b: i32,
    c: i32,
    x: u32,
    y: u32,
    z: u32,
    m: Matrix4,
)
    ensures
        call_ensures(GlState::active_texture, (s, a), ()) ==> {
            &&& final(s).commands@ == old(s).commands@.push(GLCommand::ActiveTexture(a))
            &&& final(s).buffers@ == old(s).buffers@
        },
        call_ensures(GlState::push_matrix, (s,), ()) ==> {
            &&& final(s).commands@ == old(s).commands@.push(GLCommand::PushMatrix)
            &&& final(s).buffers@ == old(s).buffers@
        },
        call_ensures(GlState::pop_matrix, (s,), ()) ==> {
            &&& final(s).commands@ == old(s).commands@.push(GLCommand::PopMatrix)
            &&& final(s).buffers@ == old(s).buffers@
        },
        call_ensures(GlState::mult_matrix, (s, m), ()) ==> {
            &&& final(s).commands@ == old(s).commands@.push(GLCommand::MultMatrix(m))
            &&& final(s).buffers@ == old(s).buffers@
        },
        call_ensures(GlState::set_matrix, (s, m), ()) ==> {
            &&& final(s).commands@ == old(s).commands@.push(GLCommand::SetMatrix(m))
            &&& final(s).buffers@ == old(s).buffers@
        },
        call_ensures(GlState::bind_vertex_array, (s, a), ()) ==> {
            &&& final(s).commands@ == old(s).commands@.push(GLCommand::BindVertexArray(a))
            &&& final(s).buffers@ == old(s).buffers@
        },
        call_ensures(GlState::attach_texture_bind_group, (s, a), ()) ==> {
            &&& final(s).commands@ == old(s).commands@.push(GLCommand::AttachTexture(a))
            &&& final(s).buffers@ == old(s).buffers@
        },
        call_ensures(GlState::clear_color, (s, x, y, z), ()) ==> {
            &&& final(s).commands@ == old(s).commands@.push(GLCommand::ClearColor(x, y, z))
            &&& final(s).buffers@ == old(s).buffers@
        },
        call_ensures(GlState::draw_array, (s, a, b, c), ()) ==> {
            &&& final(s).commands@ == old(s).commands@.push(GLCommand::DrawArray(a, b, c))
            &&& final(s).buffers@ == old(s).buffers@
        },
{
}

/// Of a call whose number is not negative, the command holds that number: the matrix mode, the
/// pipeline, the matrix slot, the kind of vertex data, the count.
pub proof fn numbers_are_noted_down(s: &mut GlState, v: i32, elements: &[u32], m: Matrix4)
    requires
        v >= 0,
        elements@.len() == 16,
    ensures
        call_ensures(GlState::matrix_mode, (s, v), ()) ==> {
            &&& final(s).commands@ == old(s).commands@.push(GLCommand::MatrixMode(v as usize))
            &&& final(s).buffers@ == old(s).buffers@
        },
        call_ensures(GlState::wm_use_pipeline, (s, v), ()) ==> {
            &&& final(s).commands@ == old(s).commands@.push(GLCommand::UsePipeline(v as usize))
            &&& final(s).buffers@ == old(s).buffers@
        },
        call_ensures(GlState::bind_matrix4f, (s, v, elements, m), ()) ==> {
            &&& final(s).commands@ == old(s).commands@.push(GLCommand::BindMat(v as usize, m))
            &&& final(s).buffers@ == old(s).buffers@
        },
        call_ensures(GlState::enable_client_state, (s, v), ()) ==> {
            &&& final(s).commands@ == old(s).commands@.push(GLCommand::EnableClientState(v as u32))
            &&& final(s).buffers@ == old(s).buffers@
        },
        call_ensures(GlState::disable_client_state, (s, v), ()) ==> {
            &&& final(s).commands@ == old(s).commands@.push(GLCommand::DisableClientState(v as u32))
            &&& final(s).buffers@ == old(s).buffers@
        },
        call_ensures(GlState::draw_indexed, (s, v), ()) ==> {
            &&& final(s).commands@ == old(s).commands@.push(GLCommand::DrawIndexed(v as u32))
            &&& final(s).buffers@ == old(s).buffers@
        },
{
}

/// Of a call whose number is negative, the command holds the number counted from the top of its
/// range.
pub proof fn negative_numbers_count_from_the_top(
    s: &mut GlState,
    v: i32,
    elements: &[u32],
    m: Matrix4,
)
    requires
        v < 0,
        elements@.len() == 16,
    ensures
        call_ensures(GlState::matrix_mode, (s, v), ()) ==> {
            &&& final(s).commands@ == old(s).commands@.push(
                GLCommand::MatrixMode((v + usize::MAX + 1) as usize),
            )
            &&& final(s).buffers@ == old(s).buffers@
        },
        call_ensures(GlState::wm_use_pipeline, (s, v), ()) ==> {
            &&& final(s).commands@ == old(s).commands@.push(
                GLCommand::UsePipeline((v + usize::MAX + 1) as usize),
            )
            &&& final(s).buffers@ == old(s).buffers@
        },
        call_ensures(GlState::bind_matrix4f, (s, v, elements, m), ()) ==> {
            &&& final(s).commands@ == old(s).commands@.push(
                GLCommand::BindMat((v + usize::MAX + 1) as usize, m),
            )
            &&& final(s).buffers@ == old(s).buffers@
        },
        call_ensures(GlState::enable_client_state, (s, v), ()) ==> {
            &&& final(s).commands@ == old(s).commands@.push(
                GLCommand::EnableClientState((v + u32::MAX + 1) as u32),
            )
            &&& final(s).buffers@ == old(s).buffers@
        },
        call_ensures(GlState::disable_client_state, (s, v), ()) ==> {
            &&& final(s).commands@ == old(s).commands@.push(
                GLCommand::DisableClientState((v + u32::MAX + 1) as u32),
            )
            &&& final(s).buffers@ == old(s).buffers@
        },
        call_ensures(GlState::draw_indexed, (s, v), ()) ==> {
            &&& final(s).commands@ == old(s).commands@.push(
                GLCommand::DrawIndexed((v + u32::MAX + 1) as u32),
            )
            &&& final(s).buffers@ == old(s).buffers@
        },
{
}

/// Different numbers leave different commands behind.
pub proof fn different_numbers_differ(s: &mut GlState, t: &mut GlState, v: i32, w: i32)
    requires
        v != w,
    ensures
        call_ensures(GlState::matrix_mode, (s, v), ()) && call_ensures(
            GlState::matrix_mode,
            (t, w),
            (),
        ) ==> final(s).commands@.last() != final(t).commands@.last(),
        call_ensures(GlState::wm_use_pipeline, (s, v), ()) && call_ensures(
            GlState::wm_use_pipeline,
            (t, w),
            (),
        ) ==> final(s).commands@.last() != final(t).commands@.last(),
        call_ensures(GlState::enable_client_state, (s, v), ()) && call_ensures(
            GlState::enable_client_state,
            (t, w),
            (),
        ) ==> final(s).commands@.last() != final(t).commands@.last(),
        call_ensures(GlState::disable_client_state, (s, v), ()) && call_ensures(
            GlState::disable_client_state,
            (t, w),
            (),
        ) ==> final(s).commands@.last() != final(t).commands@.last(),
        call_ensures(GlState::draw_indexed, (s, v), ()) && call_ensures(
            GlState::draw_indexed,
            (t, w),
            (),
        ) ==> final(s).commands@.last() != final(t).commands@.last(),
{
}

/// A call that says where data is leaves a command with its numbers and an address. The address is
/// the pointer where the pointer is an address, and always differs from it by a multiple of the
/// number of addresses.
pub proof fn pointers_are_noted_down(
    s: &mut GlState,
    a: i32,
    b: i32,
    c: i32,
    pointer: i64,
    address: usize,
)
    requires
        (pointer - address) % (usize::MAX + 1) == 0,
    ensures
        0 <= pointer <= usize::MAX ==> address == pointer,
        call_ensures(GlState::vertex_pointer, (s, a, b, c, pointer), ()) ==> {
            &&& final(s).commands@ == old(s).commands@.push(
                GLCommand::VertexPointer(a, b, c, address),
            )
            &&& final(s).buffers@ == old(s).buffers@
        },
        call_ensures(GlState::color_pointer, (s, a, b, c, pointer), ()) ==> {
            &&& final(s).commands@ == old(s).commands@.push(
                GLCommand::ColorPointer(a, b, c, address),
            )
            &&& final(s).buffers@ == old(s).buffers@
        },
        call_ensures(GlState::tex_coord_pointer, (s, a, b, c, pointer), ()) ==> {
            &&& final(s).commands@ == old(s).commands@.push(
                GLCommand::TexCoordPointer(a, b, c, address),
            )
            &&& final(s).buffers@ == old(s).buffers@
        },
        call_ensures(GlState::draw_elements, (s, a, b, c, pointer), ()) ==> {
            &&& final(s).commands@ == old(s).commands@.push(
                GLCommand::DrawElements(a, b, c, address),
            )
            &&& final(s).buffers@ == old(s).buffers@
        },
{
    let (p, n, count) = (pointer as int, address as int, usize::MAX + 1);
    let k = (p - n) / count;
    vstd::arithmetic::div_mod::lemma_fundamental_div_mod(p - n, count);
    vstd::arithmetic::div_mod::lemma_mod_multiples_vanish(k, n, count);
    vstd::arithmetic::div_mod::lemma_small_mod(n as nat, count as nat);
    if 0 <= pointer <= usize::MAX {
        vstd::arithmetic::div_mod::lemma_small_mod(p as nat, count as nat);
    }
    assert(count * k + n == p);
    assert(address_of(pointer) == address);
}

/// Moving multiplies by a matrix with the distances in its last column, and loading the identity
/// sets a matrix with the bits of the number one on the diagonal. All other numbers of the two
/// matrices are the same. Each call leaves one command and changes nothing else.
pub proof fn matrices_are_noted_down(
    s: &mut GlState,
    x: u32,
    y: u32,
    z: u32,
    c: int,
    r: int,
)
    requires
        0 <= c < 4,
        0 <= r < 4,
    ensures
        call_ensures(GlState::translate, (s, x, y, z), ()) ==> {
            &&& final(s).commands@.drop_last() == old(s).commands@
            &&& final(s).commands@.len() == old(s).commands@.len() + 1
            &&& final(s).buffers@ == old(s).buffers@
            &&& final(s).commands@.last() matches GLCommand::MultMatrix(m) && m.columns[c][r]
                == if c == 3 && r == 0 {
                x
            } else if c == 3 && r == 1 {
                y
            } else if c == 3 && r == 2 {
                z
            } else if c == r {
                0x3f80_0000u32
            } else {
                0u32
            }
        },
        call_ensures(GlState::load_identity, (s,), ()) ==> {
            &&& final(s).commands@.drop_last() == old(s).commands@
            &&& final(s).commands@.len() == old(s).commands@.len() + 1
            &&& final(s).buffers@ == old(s).buffers@
            &&& final(s).commands@.last() matches GLCommand::SetMatrix(m) && m.columns[c][r]
                == if c == r {
                0x3f80_0000u32
            } else {
                0u32
            }
        },
{
    if call_ensures(GlState::translate, (s, x, y, z), ()) {
        assert(final(s).commands@.drop_last() =~= old(s).commands@);
        match final(s).commands@.last() {
            GLCommand::MultMatrix(m) => assert(m.at(c, r) == m.columns[c][r]),
            _ => {},
        }
    }
    if call_ensures(GlState::load_identity, (s,), ()) {
        assert(final(s).commands@.drop_last() =~= old(s).commands@);
        match final(s).commands@.last() {
            GLCommand::SetMatrix(m) => assert(m.at(c, r) == m.columns[c][r]),
            _ => {},
        }
    }
}

/// Index data leaves one command that holds as many indices as came, in order. Each is the number
/// that came, or differs from it by the number of indices there are.
pub proof fn indices_are_noted_down(s: &mut GlState, elements: &[i32])
    requires
        call_ensures(GlState::set_index_buffer, (s, elements), ()),
    ensures
        final(s).commands@.drop_last() == old(s).commands@,
        final(s).commands@.len() == old(s).commands@.len() + 1,
        final(s).buffers@ == old(s).buffers@,
        final(s).commands@.last() matches GLCommand::SetIndexBuffer(v) && v@.len()
            == elements@.len() && forall|i: int|
            0 <= i < v@.len() ==> #[trigger] v@[i] == elements@[i] || v@[i] - elements@[i]
                == 0x1_0000_0000,
{
    assert(final(s).commands@.drop_last() =~= old(s).commands@);
}

/// Vertex data leaves one command that holds as many bytes as came, each with its bits. All bytes
/// stay where they were, or every group of four is turned round.
pub proof fn vertices_are_noted_down(s: &mut GlState, bytes: &[i8])
    requires
        call_ensures(GlState::set_vertex_buffer, (s, bytes), ()),
        bytes@.len() % 4 == 0,
    ensures
        call_requires(GlState::set_vertex_buffer, (s, bytes)),
        final(s).commands@.drop_last() == old(s).commands@,
        final(s).commands@.len() == old(s).commands@.len() + 1,
        final(s).buffers@ == old(s).buffers@,
        final(s).commands@.last() matches GLCommand::SetVertexBuffer(v) && v@.len() == bytes@.len()
            && ((forall|i: int|
            0 <= i < v@.len() ==> #[trigger] v@[i] == bytes@[i] || v@[i] - bytes@[i] == 0x100) || (
        forall|j: int, k: int|
            0 <= j && 0 <= k < 4 && 4 * j + 3 < v@.len() ==> #[trigger] v@[4 * j + k] == bytes@[4
                * j + 3 - k] || v@[4 * j + k] - bytes@[4 * j + 3 - k] == 0x100)),
{
    assert(final(s).commands@.drop_last() =~= old(s).commands@);
    match final(s).commands@.last() {
        GLCommand::SetVertexBuffer(v) => crate::words::lemma_stay_or_turn(bytes@, v@),
        _ => {},
    }
}

/// Binding a buffer is noted down. The target then has that buffer, and every other target has the
/// buffer that it had.
pub proof fn bindings_stay_apart(s: &mut GlState, target: i32, buffer: i32, other: i32)
    requires
        call_ensures(GlState::bind_buffer, (s, target, buffer), ()),
        other != target,
    ensures
        final(s).commands@ == old(s).commands@.push(GLCommand::BindBuffer(target, buffer)),
        final(s).buffers@.contains_key(target),
        final(s).buffers@[target] == buffer,
        final(s).buffers@.contains_key(other) <==> old(s).buffers@.contains_key(other),
        old(s).buffers@.contains_key(other) ==> final(s).buffers@[other] == old(s).buffers@[other],
{
}

/// A batch is everything that waited, in order. Nothing waits afterwards, so that a second batch is
/// empty, and the bindings stay. At the start nothing waits and nothing is bound.
pub proof fn a_batch_is_everything_that_waited(
    s: &mut GlState,
    batch: Vec<GLCommand>,
    t: &mut GlState,
    second: Vec<GLCommand>,
    first: GlState,
)
    requires
        call_ensures(GlState::submit_commands, (s,), batch),
        *old(t) == *final(s),
        call_ensures(GlState::submit_commands, (t,), second),
        call_ensures(GlState::new, (), first),
    ensures
        batch@ == old(s).commands@,
        final(s).commands@.len() == 0,
        final(s).buffers@ == old(s).buffers@,
        second@.len() == 0,
        first.commands@.len() == 0,
        first.buffers@.dom() == Set::<i32>::empty(),
{
}

} // verus!
