//! How everything stands when it starts.

use std::collections::HashMap;
use vstd::prelude::*;

use crate::event::WindowSize;
use crate::matrix::Matrix4;

verus! {

broadcast use vstd::std_specs::hash::group_hash_axioms;

/// The number of matrix stacks.
pub const MATRIX_STACKS: usize = 3;

/// The number of matrices that a stack has room for.
pub const STACK_DEPTH: usize = 32;

/// A stack of matrices with the position of the current one.
#[derive(Debug)]
pub struct MatrixStack {
    pub matrices: Vec<Matrix4>,
    pub current: usize,
}

impl MatrixStack {
    /// Whether every place holds the identity and the first one is current.
    pub open spec fn is_initial(self) -> bool {
        &&& self.matrices@.len() == STACK_DEPTH
        &&& forall|i: int|
            0 <= i < self.matrices@.len() ==> (#[trigger] self.matrices@[i]).is_identity()
        &&& self.current == 0
    }

    fn new() -> (r: Self)
        ensures
            r.is_initial(),
    {
        let mut matrices: Vec<Matrix4> = Vec::with_capacity(STACK_DEPTH);
        let mut i: usize = 0;
        while i < STACK_DEPTH
            invariant
                i <= STACK_DEPTH,
                matrices@.len() == i,
                forall|j: int| 0 <= j < i ==> (#[trigger] matrices@[j]).is_identity(),
            decreases STACK_DEPTH - i,
        {
            matrices.push(Matrix4::identity());
            i = i + 1;
        }
        MatrixStack { matrices, current: 0 }
    }
}

/// What the commands of the graphics interface change as they are carried out.
#[derive(Debug)]
pub struct GlPipelineState {
    pub matrix_stacks: Vec<MatrixStack>,
    pub matrix_mode: usize,
    pub active_texture_unit: i32,
    pub texture_units: HashMap<i32, i32>,
    pub vertex_array: Option<i32>,
    pub client_states: Vec<u32>,
    pub active_pipeline: usize,
}

impl GlPipelineState {
    /// Identity matrices, the first of everything, and nothing bound or switched on.
    pub fn new() -> (r: Self)
        ensures
            r.matrix_stacks@.len() == MATRIX_STACKS,
            forall|i: int|
                0 <= i < MATRIX_STACKS ==> (#[trigger] r.matrix_stacks@[i]).is_initial(),
            r.matrix_mode == 0,
            r.active_texture_unit == 0,
            r.texture_units@ == Map::<i32, i32>::empty(),
            r.vertex_array is None,
            r.client_states@ == Seq::<u32>::empty(),
            r.active_pipeline == 0,
    {
        let mut matrix_stacks: Vec<MatrixStack> = Vec::with_capacity(MATRIX_STACKS);
        let mut i: usize = 0;
        while i < MATRIX_STACKS
            invariant
                i <= MATRIX_STACKS,
                matrix_stacks@.len() == i,
                forall|j: int| 0 <= j < i ==> (#[trigger] matrix_stacks@[j]).is_initial(),
            decreases MATRIX_STACKS - i,
        {
            matrix_stacks.push(MatrixStack::new());
            i = i + 1;
        }
        GlPipelineState {
            matrix_stacks,
            matrix_mode: 0,
            active_texture_unit: 0,
            texture_units: HashMap::new(),
            vertex_array: None,
            client_states: Vec::new(),
            active_pipeline: 0,
        }
    }
}

/// The size that the window opens with.
pub fn initial_window_size() -> (r: WindowSize)
    ensures
        r == (WindowSize { width: 1280, height: 720 }),
{
    WindowSize { width: 1280, height: 720 }
}

/// At the start there are three stacks of thirty-two matrices. Every matrix has the bits of the
/// number one on its diagonal and zero elsewhere, and everything that is counted is at its first.
pub proof fn everything_starts_at_the_first(state: GlPipelineState, i: int, j: int, c: int, r: int)
    requires
        call_ensures(GlPipelineState::new, (), state),
        0 <= i < 3,
        0 <= j < 32,
        0 <= c < 4,
        0 <= r < 4,
    ensures
        state.matrix_stacks@.len() == 3,
        state.matrix_stacks@[i].matrices@.len() == 32,
        state.matrix_stacks@[i].matrices@[j].columns[c][r] == if c == r {
            0x3f80_0000u32
        } else {
            0u32
        },
        state.matrix_stacks@[i].current == 0,
        state.matrix_mode == 0 && state.active_texture_unit == 0 && state.active_pipeline == 0,
        state.texture_units@.dom() == Set::<i32>::empty(),
        state.vertex_array == None::<i32>,
        state.client_states@.len() == 0,
{
    let m = state.matrix_stacks@[i].matrices@[j];
    assert(m.at(c, r) == m.columns[c][r]);
}

} // verus!
