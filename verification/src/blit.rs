//! Copying the rows of a small image into the pixel bytes of a larger one.

use vstd::prelude::*;

verus! {

/// `data` with `bytes` laid over it from position `at` on.
pub open spec fn overwrite(data: Seq<u8>, at: int, bytes: Seq<u8>) -> Seq<u8> {
    Seq::new(
        data.len(),
        |i: int|
            if at <= i < at + bytes.len() {
                bytes[i - at]
            } else {
                data[i]
            },
    )
}

/// Where rows go: row `y` holds `row_len` bytes, is found at `row_len * y` in the source, and is
/// laid down at `start + stride * y` in the target.
#[derive(Clone, Copy)]
pub struct RowLayout {
    pub start: i32,
    pub stride: i32,
    pub row_len: i32,
    pub rows: i32,
}

impl RowLayout {
    /// How many rows there are to copy: none where the count is negative.
    pub open spec fn row_count(self) -> nat {
        if self.rows > 0 {
            self.rows as nat
        } else {
            0
        }
    }

    /// The target position of the first byte of row `y`.
    pub open spec fn target(self, y: int) -> int {
        self.start + self.stride * y
    }

    /// The bytes of row `y` in the source image `pixels`.
    pub open spec fn source_row(self, pixels: Seq<u8>, y: int) -> Seq<u8> {
        pixels.subrange(self.row_len * y, self.row_len * y + self.row_len)
    }

    /// Whether target byte `i` belongs to row `y`.
    pub open spec fn covers(self, y: int, i: int) -> bool {
        self.target(y) <= i < self.target(y) + self.row_len
    }

    /// Whether every row lies inside a source of `source_len` and a target of `target_len` bytes.
    pub open spec fn fits(self, source_len: nat, target_len: nat) -> bool {
        self.rows > 0 ==> {
            &&& 0 <= self.row_len
            &&& 0 <= self.stride
            &&& 0 <= self.start
            &&& self.target(self.rows - 1) + self.row_len <= target_len
            &&& self.row_len * self.rows <= source_len
        }
    }
}

/// `data` once the first `count` rows of `pixels` have been laid over it, in order: where rows
/// overlap, the later one is seen.
pub open spec fn blit(layout: RowLayout, data: Seq<u8>, pixels: Seq<u8>, count: nat) -> Seq<u8>
    decreases count,
{
    if count == 0 {
        data
    } else {
        let y = count - 1;
        overwrite(
            blit(layout, data, pixels, y as nat),
            layout.target(y),
            layout.source_row(pixels, y),
        )
    }
}

/// What a row's place says about the buffers: its source and target ranges lie inside them.
proof fn lemma_row_in_bounds(layout: RowLayout, source_len: nat, target_len: nat, y: int)
    requires
        layout.fits(source_len, target_len),
        0 <= y < layout.rows,
    ensures
        0 <= layout.row_len * y <= layout.row_len * y + layout.row_len <= source_len,
        0 <= layout.target(y) <= layout.target(y) + layout.row_len <= target_len,
        layout.row_len * y + layout.row_len == layout.row_len * (y + 1),
        layout.target(y) + layout.stride == layout.target(y + 1),
{
    let (s, l, n) = (layout.stride as int, layout.row_len as int, layout.rows as int);
    assert(0 <= s * y <= s * (n - 1)) by (nonlinear_arith)
        requires
            0 <= s,
            0 <= y < n,
    ;
    assert(0 <= l * y && l * y + l <= l * n) by (nonlinear_arith)
        requires
            0 <= l,
            0 <= y < n,
    ;
    assert(l * (y + 1) == l * y + l) by (nonlinear_arith);
    assert(s * (y + 1) == s * y + s) by (nonlinear_arith);
}

/// Copying keeps the length of the target.
pub proof fn blit_keeps_length(layout: RowLayout, data: Seq<u8>, pixels: Seq<u8>, count: nat)
    ensures
        blit(layout, data, pixels, count).len() == data.len(),
    decreases count,
{
    if count > 0 {
        blit_keeps_length(layout, data, pixels, (count - 1) as nat);
    }
}

/// A byte that lies in no row is left as it was.
pub proof fn blit_leaves_the_rest(
    layout: RowLayout,
    data: Seq<u8>,
    pixels: Seq<u8>,
    count: nat,
    i: int,
)
    requires
        layout.fits(pixels.len(), data.len()),
        count <= layout.row_count(),
        0 <= i < data.len(),
        forall|y: int| 0 <= y < count ==> !#[trigger] layout.covers(y, i),
    ensures
        blit(layout, data, pixels, count)[i] == data[i],
    decreases count,
{
    blit_keeps_length(layout, data, pixels, count);
    if count > 0 {
        let y = count - 1;
        blit_keeps_length(layout, data, pixels, y as nat);
        lemma_row_in_bounds(layout, pixels.len(), data.len(), y);
        assert(!layout.covers(y, i));
        blit_leaves_the_rest(layout, data, pixels, y as nat, i);
    }
}

/// A byte that lies in row `y`, and in no later row, is the one that the source holds there.
pub proof fn blit_shows_the_last_row(
    layout: RowLayout,
    data: Seq<u8>,
    pixels: Seq<u8>,
    count: nat,
    y: int,
    i: int,
)
    requires
        layout.fits(pixels.len(), data.len()),
        count <= layout.row_count(),
        0 <= y < count,
        layout.covers(y, i),
        forall|later: int| y < later < count ==> !#[trigger] layout.covers(later, i),
    ensures
        0 <= i < data.len(),
        blit(layout, data, pixels, count)[i] == pixels[layout.row_len * y + (i - layout.target(y))],
    decreases count,
{
    let last = count - 1;
    blit_keeps_length(layout, data, pixels, last as nat);
    lemma_row_in_bounds(layout, pixels.len(), data.len(), y);
    lemma_row_in_bounds(layout, pixels.len(), data.len(), last);
    if y < last {
        assert(!layout.covers(last, i));
        blit_shows_the_last_row(layout, data, pixels, last as nat, y, i);
    }
}

/// Where rows are no longer than the distance between them, every byte of every row arrives.
pub proof fn blit_shows_every_row(
    layout: RowLayout,
    data: Seq<u8>,
    pixels: Seq<u8>,
    y: int,
    k: int,
)
    requires
        layout.fits(pixels.len(), data.len()),
        layout.row_len <= layout.stride,
        0 <= y < layout.row_count(),
        0 <= k < layout.row_len,
    ensures
        blit(layout, data, pixels, layout.row_count())[layout.target(y) + k]
            == pixels[layout.row_len * y + k],
{
    let i = layout.target(y) + k;
    assert forall|later: int| y < later < layout.row_count() implies !#[trigger] layout.covers(
        later,
        i,
    ) by {
        let s = layout.stride as int;
        assert(s * later >= s * y + s) by (nonlinear_arith)
            requires
                0 <= s,
                y < later,
        ;
    }
    blit_shows_the_last_row(layout, data, pixels, layout.row_count(), y, i);
}

/// The last of the first `count` rows that holds byte `i`, or -1 where none does.
spec fn last_row_over(layout: RowLayout, count: nat, i: int) -> int
    decreases count,
{
    if count == 0 {
        -1
    } else if layout.covers(count - 1, i) {
        count - 1
    } else {
        last_row_over(layout, (count - 1) as nat, i)
    }
}

proof fn lemma_blit_byte(layout: RowLayout, data: Seq<u8>, pixels: Seq<u8>, count: nat, i: int)
    requires
        layout.fits(pixels.len(), data.len()),
        count <= layout.row_count(),
        0 <= i < data.len(),
    ensures
        ({
            let y = last_row_over(layout, count, i);
            blit(layout, data, pixels, count)[i] == if y >= 0 {
                pixels[layout.row_len * y + (i - layout.target(y))]
            } else {
                data[i]
            }
        }),
    decreases count,
{
    if count > 0 {
        let last = count - 1;
        blit_keeps_length(layout, data, pixels, last as nat);
        lemma_row_in_bounds(layout, pixels.len(), data.len(), last);
        lemma_blit_byte(layout, data, pixels, last as nat, i);
    }
}

/// Copying the same rows a second time changes nothing.
pub proof fn blit_is_idempotent(layout: RowLayout, data: Seq<u8>, pixels: Seq<u8>)
    requires
        layout.fits(pixels.len(), data.len()),
    ensures
        blit(
            layout,
            blit(layout, data, pixels, layout.row_count()),
            pixels,
            layout.row_count(),
        ) == blit(layout, data, pixels, layout.row_count()),
{
    let n = layout.row_count();
    let once = blit(layout, data, pixels, n);
    let twice = blit(layout, once, pixels, n);
    blit_keeps_length(layout, data, pixels, n);
    blit_keeps_length(layout, once, pixels, n);
    assert forall|i: int| 0 <= i < data.len() implies twice[i] == once[i] by {
        lemma_blit_byte(layout, data, pixels, n, i);
        lemma_blit_byte(layout, once, pixels, n, i);
    }
    assert(twice =~= once);
}

/// Lays the rows of `pixels` over `data`.
pub fn copy_rows(layout: RowLayout, data: &mut Vec<u8>, pixels: &Vec<u8>)
    requires
        layout.fits(pixels@.len(), old(data)@.len()),
    ensures
        final(data)@ == blit(layout, old(data)@, pixels@, layout.row_count()),
{
    let ghost before = data@;
    let source_len: usize = pixels.len();
    let target_len: usize = data.len();
    let mut y: i32 = 0;
    let mut src_begin: usize = 0;
    let mut dest_begin: usize = if layout.rows > 0 { layout.start as usize } else { 0 };
    while y < layout.rows
        invariant
            source_len == pixels@.len(),
            target_len == before.len(),
            data@.len() == before.len(),
            layout.fits(pixels@.len(), before.len()),
            0 <= y,
            y <= layout.row_count(),
            data@ == blit(layout, before, pixels@, y as nat),
            y < layout.rows ==> src_begin == layout.row_len * y,
            y < layout.rows ==> dest_begin == layout.target(y as int),
        decreases layout.rows - y,
    {
        let ghost row_before = data@;
        proof {
            lemma_row_in_bounds(layout, pixels@.len(), before.len(), y as int);
        }
        let row_len: usize = layout.row_len as usize;
        let mut k: usize = 0;
        while k < row_len
            invariant
                row_len == layout.row_len,
                k <= row_len,
                data@.len() == row_before.len(),
                source_len == pixels@.len(),
                target_len == data@.len(),
                src_begin + row_len <= source_len,
                dest_begin + row_len <= target_len,
                data@ == overwrite(
                    row_before,
                    dest_begin as int,
                    pixels@.subrange(src_begin as int, src_begin + k),
                ),
            decreases row_len - k,
        {
            let byte: u8 = pixels[src_begin + k];
            data.set(dest_begin + k, byte);
            k = k + 1;
            assert(data@ =~= overwrite(
                row_before,
                dest_begin as int,
                pixels@.subrange(src_begin as int, src_begin + k),
            ));
        }
        y = y + 1;
        if y < layout.rows {
            proof {
                lemma_row_in_bounds(layout, pixels@.len(), before.len(), y as int);
            }
            src_begin = src_begin + row_len;
            dest_begin = dest_begin + layout.stride as usize;
        }
    }
}

/// Rows can be copied wherever the last of them ends inside the target and all of them are there in
/// the source, and always where there are none.
pub proof fn rows_inside_can_be_copied(layout: RowLayout, data: &mut Vec<u8>, pixels: &Vec<u8>)
    requires
        layout.rows <= 0 || {
            &&& 0 <= layout.start && 0 <= layout.stride && 0 <= layout.row_len
            &&& layout.start + layout.stride * (layout.rows - 1) + layout.row_len
                <= old(data)@.len()
            &&& layout.row_len * layout.rows <= pixels@.len()
        },
    ensures
        call_requires(copy_rows, (layout, data, pixels)),
{
}

/// Byte `k` of row `y` arrives at its distance from the start, unless the next row, which is copied
/// later, begins at or before it.
pub proof fn copied_rows_are_seen(
    layout: RowLayout,
    data: &mut Vec<u8>,
    pixels: &Vec<u8>,
    y: int,
    k: int,
)
    requires
        call_ensures(copy_rows, (layout, data, pixels), ()),
        layout.fits(pixels@.len(), old(data)@.len()),
        0 <= y < layout.rows,
        0 <= k < layout.row_len,
        y == layout.rows - 1 || k < layout.stride,
    ensures
        final(data)@.len() == old(data)@.len(),
        final(data)@[layout.start + layout.stride * y + k] == pixels@[layout.row_len * y + k],
{
    lemma_copied_row_is_seen(layout, old(data)@, pixels@, y, k);
    blit_keeps_length(layout, old(data)@, pixels@, layout.row_count());
}

/// Bytes before the first row, behind the last row, and between two rows stay as they were. Where
/// there are no rows, all bytes do.
pub proof fn copying_leaves_the_gaps(
    layout: RowLayout,
    data: &mut Vec<u8>,
    pixels: &Vec<u8>,
    y: int,
    i: int,
)
    requires
        call_ensures(copy_rows, (layout, data, pixels), ()),
        layout.fits(pixels@.len(), old(data)@.len()),
        0 <= i < old(data)@.len(),
        ({
            ||| layout.rows <= 0
            ||| i < layout.start
            ||| layout.start + layout.stride * (layout.rows - 1) + layout.row_len <= i
            ||| 0 <= y < layout.rows - 1 && layout.start + layout.stride * y + layout.row_len <= i
                < layout.start + layout.stride * (y + 1)
        }),
    ensures
        final(data)@[i] == old(data)@[i],
{
    lemma_gap_is_left(layout, old(data)@, pixels@, y, i);
}

pub(crate) proof fn lemma_copied_row_is_seen(
    layout: RowLayout,
    data: Seq<u8>,
    pixels: Seq<u8>,
    y: int,
    k: int,
)
    requires
        layout.fits(pixels.len(), data.len()),
        0 <= y < layout.rows,
        0 <= k < layout.row_len,
        y == layout.rows - 1 || k < layout.stride,
    ensures
        blit(layout, data, pixels, layout.row_count())[layout.start + layout.stride * y + k]
            == pixels[layout.row_len * y + k],
{
    let i = layout.start + layout.stride * y + k;
    assert forall|later: int| y < later < layout.row_count() implies !#[trigger] layout.covers(
        later,
        i,
    ) by {
        let s = layout.stride as int;
        assert(s * later >= s * y + s) by (nonlinear_arith)
            requires
                0 <= s,
                y < later,
        ;
    }
    blit_shows_the_last_row(layout, data, pixels, layout.row_count(), y, i);
}

pub(crate) proof fn lemma_gap_is_left(
    layout: RowLayout,
    data: Seq<u8>,
    pixels: Seq<u8>,
    y: int,
    i: int,
)
    requires
        layout.fits(pixels.len(), data.len()),
        0 <= i < data.len(),
        ({
            ||| layout.rows <= 0
            ||| i < layout.start
            ||| layout.start + layout.stride * (layout.rows - 1) + layout.row_len <= i
            ||| 0 <= y < layout.rows - 1 && layout.start + layout.stride * y + layout.row_len <= i
                < layout.start + layout.stride * (y + 1)
        }),
    ensures
        blit(layout, data, pixels, layout.row_count())[i] == data[i],
{
    if layout.rows > 0 {
        let (s, n) = (layout.stride as int, layout.rows as int);
        assert forall|row: int| 0 <= row < layout.row_count() implies !#[trigger] layout.covers(
            row,
            i,
        ) by {
            assert(0 <= s * row <= s * (n - 1)) by (nonlinear_arith)
                requires
                    0 <= s,
                    0 <= row < n,
            ;
            if row <= y {
                assert(s * row <= s * y) by (nonlinear_arith)
                    requires
                        0 <= s,
                        row <= y,
                ;
            } else {
                assert(s * (y + 1) <= s * row) by (nonlinear_arith)
                    requires
                        0 <= s,
                        y + 1 <= row,
                ;
            }
        }
        blit_leaves_the_rest(layout, data, pixels, layout.row_count(), i);
    }
}

} // verus!
