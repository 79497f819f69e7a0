//! Matrices of single-precision numbers, each number held as its bits.

use vstd::prelude::*;

use crate::words::{swapped, words_in_memory};

verus! {

/// The bits of the number one.
pub const ONE: u32 = 0x3f80_0000;

/// A matrix of four columns with four numbers each.
#[derive(Clone, Copy, Debug, PartialEq, Eq)]
pub struct Matrix4 {
    pub columns: [[u32; 4]; 4],
}

/// The edges of the box that an orthographic projection shows.
#[derive(Clone, Copy, Debug, PartialEq, Eq, Structural)]
pub struct OrthoBounds {
    pub left: i32,
    pub right: i32,
    pub bottom: i32,
    pub top: i32,
    pub near: i32,
    pub far: i32,
}

impl Matrix4 {
    /// The number in column `c` and row `r`.
    pub open spec fn at(self, c: int, r: int) -> u32 {
        self.columns[c][r]
    }

    /// The numbers of the matrix, column after column.
    pub open spec fn words(self) -> Seq<u32> {
        Seq::new(16, |i: int| self.at(i / 4, i % 4))
    }

    /// Whether the matrix leaves every vector as it is.
    pub open spec fn is_identity(self) -> bool {
        forall|c: int, r: int|
            0 <= c < 4 && 0 <= r < 4 ==> #[trigger] self.at(c, r) == if c == r {
                ONE
            } else {
                0
            }
    }

    /// The matrix that leaves every vector as it is.
    pub fn identity() -> (m: Self)
        ensures
            m.is_identity(),
    {
        Matrix4 {
            columns: [[ONE, 0, 0, 0], [0, ONE, 0, 0], [0, 0, ONE, 0], [0, 0, 0, ONE]],
        }
    }

    /// The matrix that moves every point by `x`, `y` and `z`.
    pub fn from_translation(x: u32, y: u32, z: u32) -> (m: Self)
        ensures
            m.is_translation(x, y, z),
    {
        Matrix4 {
            columns: [[ONE, 0, 0, 0], [0, ONE, 0, 0], [0, 0, ONE, 0], [x, y, z, ONE]],
        }
    }

    /// Whether the matrix moves every point by `x`, `y` and `z`, and does no more.
    pub open spec fn is_translation(self, x: u32, y: u32, z: u32) -> bool {
        &&& self.at(3, 0) == x
        &&& self.at(3, 1) == y
        &&& self.at(3, 2) == z
        &&& self.at(3, 3) == ONE
        &&& forall|c: int, r: int|
            0 <= c < 3 && 0 <= r < 4 ==> #[trigger] self.at(c, r) == if c == r {
                ONE
            } else {
                0
            }
    }
}

/// Calls `bytemuck::from_bytes` on the memory of sixteen words, which `bytemuck::cast_slice` shows
/// as bytes: the same sixteen words, in order, as four columns. It fails on memory of another
/// size, so there must be sixteen; words are always aligned as it asks.
#[verifier::external_body]
fn columns_from_words(words: &[u32]) -> (columns: [[u32; 4]; 4])
    requires
        words@.len() == 16,
    ensures
        forall|c: int, r: int|
            0 <= c < 4 && 0 <= r < 4 ==> #[trigger] columns[c][r] == words@[4 * c + r],
{
    *bytemuck::from_bytes(bytemuck::cast_slice(words))
}

/// The matrix whose numbers, column after column, are `elements`, taken by their bytes with the
/// lowest first: the numbers themselves, or, on a machine that keeps the highest byte first, each
/// of them turned round.
pub fn matrix_from_elements(elements: &[u32]) -> (m: Matrix4)
    requires
        elements@.len() == 16,
    ensures
        m.words() == elements@ || m.words() == elements@.map_values(|w: u32| swapped(w)),
{
    let words: Vec<u32> = words_in_memory(elements);
    let m: Matrix4 = Matrix4 { columns: columns_from_words(words.as_slice()) };
    assert forall|i: int| 0 <= i < 16 implies m.words()[i] == words@[i] by {
        assert(m.columns[i / 4][i % 4] == words@[4 * (i / 4) + i % 4]);
    }
    assert(m.words() =~= words@);
    m
}

/// The box of the projection that is bound to a matrix slot: the screen in pixels.
pub fn bound_projection() -> (r: OrthoBounds)
    ensures
        r == (OrthoBounds { left: 0, right: 1280, bottom: 720, top: 0, near: 0, far: 10000 }),
{
    OrthoBounds { left: 0, right: 1280, bottom: 720, top: 0, near: 0, far: 10000 }
}

/// Moving by nothing is doing nothing.
pub proof fn translation_by_zero_is_identity(m: Matrix4)
    requires
        m.is_translation(0, 0, 0),
    ensures
        m.is_identity(),
{
    assert forall|c: int, r: int| 0 <= c < 4 && 0 <= r < 4 implies #[trigger] m.at(c, r) == if c
        == r {
        ONE
    } else {
        0
    } by {
        if c == 3 {
            assert(r == 0 || r == 1 || r == 2 || r == 3);
        }
    }
}

/// The identity has the bits of the number one where column and row are the same, and zero
/// everywhere else.
pub proof fn identity_has_ones_on_its_diagonal(m: Matrix4, c: int, r: int)
    requires
        call_ensures(Matrix4::identity, (), m),
        0 <= c < 4,
        0 <= r < 4,
    ensures
        c == r ==> m.columns[c][r] == 0x3f80_0000,
        c != r ==> m.columns[c][r] == 0,
{
    assert(m.at(c, r) == m.columns[c][r]);
}

/// A translation is the identity but for its last column, whose first three numbers are the
/// distances.
pub proof fn translation_differs_in_three_places(
    x: u32,
    y: u32,
    z: u32,
    m: Matrix4,
    identity: Matrix4,
    c: int,
    r: int,
)
    requires
        call_ensures(Matrix4::from_translation, (x, y, z), m),
        call_ensures(Matrix4::identity, (), identity),
        0 <= c < 4,
        0 <= r < 4,
    ensures
        c == 3 && r == 0 ==> m.columns[c][r] == x,
        c == 3 && r == 1 ==> m.columns[c][r] == y,
        c == 3 && r == 2 ==> m.columns[c][r] == z,
        c < 3 || r == 3 ==> m.columns[c][r] == identity.columns[c][r],
{
    assert(m.at(c, r) == m.columns[c][r]);
    assert(identity.at(c, r) == identity.columns[c][r]);
}

/// Sixteen numbers fill a matrix column after column. Either all of them are there as they are, or
/// each has its four bytes in the opposite order.
pub proof fn elements_fill_the_columns(elements: &[u32], m: Matrix4)
    requires
        call_ensures(matrix_from_elements, (elements,), m),
        elements@.len() == 16,
    ensures
        ({
            ||| forall|c: int, r: int|
                0 <= c < 4 && 0 <= r < 4 ==> #[trigger] m.columns[c][r] == elements@[4 * c + r]
            ||| forall|c: int, r: int|
                0 <= c < 4 && 0 <= r < 4 ==> {
                    let (new, old_word) = (#[trigger] m.columns[c][r], elements@[4 * c + r]);
                    &&& new % 0x100 == old_word / 0x100_0000
                    &&& new / 0x100 % 0x100 == old_word / 0x1_0000 % 0x100
                    &&& new / 0x1_0000 % 0x100 == old_word / 0x100 % 0x100
                    &&& new / 0x100_0000 == old_word % 0x100
                }
        }),
{
    assert forall|c: int, r: int| 0 <= c < 4 && 0 <= r < 4 implies #[trigger] m.columns[c][r]
        == m.words()[4 * c + r] by {
        assert((4 * c + r) / 4 == c && (4 * c + r) % 4 == r);
        assert(m.words()[4 * c + r] == m.at(c, r));
    }
    if m.words() != elements@ {
        assert forall|c: int, r: int| 0 <= c < 4 && 0 <= r < 4 implies {
            let (new, old_word) = (#[trigger] m.columns[c][r], elements@[4 * c + r]);
            &&& new % 0x100 == old_word / 0x100_0000
            &&& new / 0x100 % 0x100 == old_word / 0x1_0000 % 0x100
            &&& new / 0x1_0000 % 0x100 == old_word / 0x100 % 0x100
            &&& new / 0x100_0000 == old_word % 0x100
        } by {
            assert(m.columns[c][r] == swapped(elements@[4 * c + r]));
            crate::words::swapped_bytes_change_places(elements@[4 * c + r]);
        }
    }
}

/// The projection shows the window that is opened at the start, pixel by pixel and from its upper
/// left corner on, ten thousand deep.
pub proof fn projection_shows_the_window(r: OrthoBounds, size: crate::event::WindowSize)
    requires
        call_ensures(bound_projection, (), r),
        call_ensures(crate::startup::initial_window_size, (), size),
    ensures
        r.left == 0 && r.right - r.left == size.width && size.width == 1280,
        r.top == 0 && r.bottom - r.top == size.height && size.height == 720,
        r.near == 0 && r.far == 10000,
{
}

} // verus!
