//! Texture images: what is kept of them, how a new one comes in, and how a part of one is
//! replaced.
//!
//! The calls that bring an image only describe the work. The work itself is done later, on the
//! thread that owns the renderer, and in steps: find out which bytes to fetch, hand them over,
//! and take away what has to go to the graphics card.

use std::collections::HashMap;
use vstd::prelude::*;

use crate::blit::{copy_rows, RowLayout};
use crate::jvalue::{address_from_jlong, low_half, word_from_jint};

verus! {

broadcast use vstd::std_specs::hash::group_hash_axioms;

/// The one pixel component type that images may have: unsigned bytes.
pub const UNSIGNED_BYTE: i32 = 0x1401;

/// Pixels as red, green, blue and alpha.
pub const RGBA: i32 = 0x1908;

/// Pixels as blue, green, red and alpha.
pub const BGRA: i32 = 0x80E1;

#[derive(Clone, Copy, Debug, PartialEq, Eq, Structural)]
pub enum TextureFormat {
    Rgba8Unorm,
    Bgra8Unorm,
}

/// The texture format that a format number stands for, if it is a known one.
pub open spec fn format_of(format: i32) -> Option<TextureFormat> {
    if format == RGBA {
        Some(TextureFormat::Rgba8Unorm)
    } else if format == BGRA {
        Some(TextureFormat::Bgra8Unorm)
    } else {
        None
    }
}

pub fn texture_format(format: i32) -> (r: Option<TextureFormat>)
    ensures
        r == format_of(format),
{
    if format == RGBA {
        Some(TextureFormat::Rgba8Unorm)
    } else if format == BGRA {
        Some(TextureFormat::Bgra8Unorm)
    } else {
        None
    }
}

/// Whether `v` is a value that a 32-bit signed integer can hold.
pub open spec fn is_i32(v: int) -> bool {
    i32::MIN <= v <= i32::MAX
}

/// The bytes of an image of `width` by `height` pixels: four for each pixel, in either format.
pub open spec fn image_size(width: i32, height: i32) -> int {
    4 * (width * height)
}

/// Whether the pixels of an image can be counted in a 32-bit integer and its bytes be allocated.
pub open spec fn image_fits(width: i32, height: i32) -> bool {
    &&& 0 <= width * height <= i32::MAX
    &&& image_size(width, height) <= isize::MAX
}

fn image_fits_exec(width: i32, height: i32) -> (r: bool)
    ensures
        r == image_fits(width, height),
{
    proof {
        lemma_product_bound(width as int, height as int);
    }
    let area: i64 = width as i64 * height as i64;
    0 <= area && area <= i32::MAX as i64 && 4 * area <= isize::MAX as i64
}

proof fn lemma_product_bound(a: int, b: int)
    requires
        is_i32(a),
        is_i32(b),
    ensures
        -0x4000_0000_0000_0000 <= a * b <= 0x4000_0000_0000_0000,
{
    assert(-0x4000_0000_0000_0000 <= a * b <= 0x4000_0000_0000_0000) by (nonlinear_arith)
        requires
            -0x8000_0000 <= a <= 0x8000_0000,
            -0x8000_0000 <= b <= 0x8000_0000,
    ;
}

/// Where the area is not negative and the height is positive, the width is not negative.
proof fn lemma_width_not_negative(width: int, height: int)
    requires
        0 <= width * height,
        height > 0,
    ensures
        width >= 0,
{
    assert(width >= 0) by (nonlinear_arith)
        requires
            0 <= width * height,
            height > 0,
    ;
}

fn image_size_exec(width: i32, height: i32) -> (r: usize)
    requires
        image_fits(width, height),
    ensures
        r == image_size(width, height),
{
    let area: i32 = width * height;
    area as usize * 4
}

/// Where the bytes of an image come from: there are none and zeroes take their place, or they
/// stand in memory.
#[derive(Clone, Copy, Debug, PartialEq, Eq, Structural)]
pub enum PixelSource {
    Zeroed,
    Memory { address: usize, size: usize },
}

/// The source that a pixel pointer names for an image of `size` bytes.
pub open spec fn source_of(pixels: i64, size: int) -> PixelSource {
    if pixels == 0 {
        PixelSource::Zeroed
    } else {
        PixelSource::Memory {
            address: crate::jvalue::address_of(pixels) as usize,
            size: size as usize,
        }
    }
}

/// Whether `read` is what the source of an image can have given: nothing for the null pointer,
/// and every byte of the image for any other.
pub open spec fn read_matches(pixels: i64, size: int, read: Option<Vec<u8>>) -> bool {
    match read {
        None => pixels == 0,
        Some(bytes) => pixels != 0 && bytes@.len() == size,
    }
}

/// The bytes of an image of `size` bytes: those that were read, or zeroes.
pub open spec fn image_bytes(size: int, read: Option<Vec<u8>>) -> Seq<u8> {
    match read {
        None => Seq::new(size as nat, |i: int| 0u8),
        Some(bytes) => bytes@,
    }
}

fn pixel_source(pixels: i64, size: usize) -> (r: PixelSource)
    ensures
        r == source_of(pixels, size as int),
{
    if pixels == 0 {
        PixelSource::Zeroed
    } else {
        PixelSource::Memory { address: address_from_jlong(pixels), size }
    }
}

fn pixel_bytes(size: usize, read: Option<Vec<u8>>) -> (r: Vec<u8>)
    ensures
        r@ == image_bytes(size as int, read),
{
    match read {
        None => {
            let zeroes: Vec<u8> = vec![0u8; size];
            assert(zeroes@ =~= image_bytes(size as int, read));
            zeroes
        },
        Some(bytes) => bytes,
    }
}

/// What is kept of a texture: the low halves of the sizes that it was made with, and the number by
/// which the renderer knows its image on the graphics card, once it has one.
#[derive(Clone, Copy, Debug, PartialEq, Eq, Structural)]
pub struct GlTexture {
    pub width: u16,
    pub height: u16,
    pub bindable_texture: Option<u64>,
}

/// What an identifier of the graphics interface stands for: a texture with its pixel bytes, or a
/// buffer.
#[derive(Debug)]
pub enum GlResource {
    Texture(GlTexture, Vec<u8>),
    Buffer(Vec<u8>),
}

/// An image as the graphics card takes it.
#[derive(Debug)]
pub struct TextureUpload<'a> {
    pub width: u32,
    pub height: u32,
    pub depth_or_array_layers: u32,
    pub format: TextureFormat,
    pub data: &'a [u8],
}

/// The request to make a texture out of a whole image.
#[derive(Clone, Copy, Debug, PartialEq, Eq, Structural)]
pub struct TexImage2D {
    pub texture_id: i32,
    pub width: i32,
    pub height: i32,
    pub format: i32,
    pub component_type: i32,
    pub pixels: i64,
}

impl TexImage2D {
    /// The bytes that the image takes.
    pub open spec fn size(self) -> int {
        image_size(self.width, self.height)
    }

    /// Whether it is known which bytes the image is made of.
    pub open spec fn readable(self) -> bool {
        &&& self.component_type == UNSIGNED_BYTE
        &&& image_fits(self.width, self.height)
    }

    /// Whether the request can be carried out.
    pub open spec fn runnable(self) -> bool {
        &&& self.readable()
        &&& format_of(self.format) is Some
    }

    /// The width that is kept.
    pub open spec fn kept_width(self) -> u16 {
        (self.width as int % 0x1_0000) as u16
    }

    /// The height that is kept.
    pub open spec fn kept_height(self) -> u16 {
        (self.height as int % 0x1_0000) as u16
    }

    /// What is kept of the texture, where `bindable_texture` is its image on the graphics card.
    pub open spec fn texture(self, bindable_texture: u64) -> GlTexture {
        GlTexture {
            width: self.kept_width(),
            height: self.kept_height(),
            bindable_texture: Some(bindable_texture),
        }
    }

    /// Whether it is known which bytes the image is made of.
    pub fn is_readable(&self) -> (r: bool)
        ensures
            r == self.readable(),
    {
        self.component_type == UNSIGNED_BYTE && image_fits_exec(self.width, self.height)
    }

    /// Whether the request can be carried out.
    pub fn is_runnable(&self) -> (r: bool)
        ensures
            r == self.runnable(),
    {
        self.is_readable() && texture_format(self.format).is_some()
    }

    /// Where the bytes of the image are to be read.
    pub fn source(&self) -> (r: PixelSource)
        requires
            self.readable(),
        ensures
            r == source_of(self.pixels, self.size()),
    {
        pixel_source(self.pixels, image_size_exec(self.width, self.height))
    }

    /// The bytes of the image, given what its source held.
    pub fn image(&self, read: Option<Vec<u8>>) -> (r: Vec<u8>)
        requires
            self.readable(),
            read_matches(self.pixels, self.size(), read),
        ensures
            r@ == image_bytes(self.size(), read),
            r@.len() == self.size(),
    {
        pixel_bytes(image_size_exec(self.width, self.height), read)
    }

    /// What goes to the graphics card.
    pub fn upload<'a>(&self, data: &'a Vec<u8>) -> (r: TextureUpload<'a>)
        requires
            self.runnable(),
            data@.len() == self.size(),
        ensures
            r.width == crate::jvalue::word_of(self.width),
            r.height == crate::jvalue::word_of(self.height),
            r.depth_or_array_layers == 1,
            Some(r.format) == format_of(self.format),
            r.data@ == data@,
    {
        TextureUpload {
            width: word_from_jint(self.width),
            height: word_from_jint(self.height),
            depth_or_array_layers: 1,
            format: texture_format(self.format).unwrap(),
            data: data.as_slice(),
        }
    }
}

/// The request to replace a part of a texture.
#[derive(Clone, Copy, Debug, PartialEq, Eq, Structural)]
pub struct SubImage2D {
    pub texture_id: i32,
    pub offset_x: i32,
    pub offset_y: i32,
    pub width: i32,
    pub height: i32,
    pub format: i32,
    pub component_type: i32,
    pub pixels: i64,
}

impl SubImage2D {
    /// The bytes that the image takes.
    pub open spec fn size(self) -> int {
        image_size(self.width, self.height)
    }

    /// Whether it is known which bytes the image is made of.
    pub open spec fn readable(self) -> bool {
        &&& self.component_type == UNSIGNED_BYTE
        &&& image_fits(self.width, self.height)
    }

    /// Whether the request makes sense by itself, whatever texture it is for.
    pub open spec fn runnable(self) -> bool {
        &&& self.readable()
        &&& is_i32(4 * self.width)
        &&& format_of(self.format) is Some
    }

    /// The position of the first byte of row `y` in a texture that is `texture_width` wide.
    pub open spec fn row_begin(self, texture_width: u16, y: int) -> int {
        4 * texture_width * (y + self.offset_y) + 4 * self.offset_x
    }

    /// Whether row `y` has its place in a texture of `len` bytes, and the way there stays within
    /// 32-bit integers.
    pub open spec fn row_in_range(self, texture_width: u16, len: nat, y: int) -> bool {
        &&& is_i32(y + self.offset_y)
        &&& is_i32(4 * texture_width * (y + self.offset_y))
        &&& is_i32(4 * self.offset_x)
        &&& is_i32(4 * self.width * (y + 1))
        &&& 0 <= self.row_begin(texture_width, y)
        &&& self.row_begin(texture_width, y) + 4 * self.width <= i32::MAX
        &&& self.row_begin(texture_width, y) + 4 * self.width <= len
    }

    /// Whether the image can be laid over a texture that is `texture_width` wide and holds `len`
    /// bytes.
    pub open spec fn lies_within(self, texture_width: u16, len: nat) -> bool {
        forall|y: int|
            0 <= y < self.height ==> #[trigger] self.row_in_range(texture_width, len, y)
    }

    /// How the rows of the image lie in a texture that is `texture_width` wide.
    pub open spec fn layout(self, texture_width: u16) -> RowLayout {
        RowLayout {
            start: self.row_begin(texture_width, 0) as i32,
            stride: (4 * texture_width) as i32,
            row_len: (4 * self.width) as i32,
            rows: self.height,
        }
    }

    /// The bytes `data` of a texture that is `texture_width` wide, with the image laid over them.
    pub open spec fn laid_over(
        self,
        texture_width: u16,
        data: Seq<u8>,
        read: Option<Vec<u8>>,
    ) -> Seq<u8> {
        let layout = self.layout(texture_width);
        crate::blit::blit(layout, data, image_bytes(self.size(), read), layout.row_count())
    }

    /// Whether it is known which bytes the image is made of.
    pub fn is_readable(&self) -> (r: bool)
        ensures
            r == self.readable(),
    {
        self.component_type == UNSIGNED_BYTE && image_fits_exec(self.width, self.height)
    }

    /// Whether the request makes sense by itself, whatever texture it is for.
    pub fn is_runnable(&self) -> (r: bool)
        ensures
            r == self.runnable(),
    {
        let row_len: i64 = 4 * self.width as i64;
        self.is_readable() && i32::MIN as i64 <= row_len && row_len <= i32::MAX as i64
            && texture_format(self.format).is_some()
    }

    /// Where the bytes of the image are to be read.
    pub fn source(&self) -> (r: PixelSource)
        requires
            self.readable(),
        ensures
            r == source_of(self.pixels, self.size()),
    {
        pixel_source(self.pixels, image_size_exec(self.width, self.height))
    }
}

impl SubImage2D {
    /// Where the first and the last row have their place, so has every row between them.
    proof fn lemma_ends_decide(self, texture_width: u16, len: nat)
        requires
            self.runnable(),
            self.height > 0 ==> self.row_in_range(texture_width, len, 0) && self.row_in_range(
                texture_width,
                len,
                self.height - 1,
            ),
        ensures
            self.lies_within(texture_width, len),
    {
        assert forall|y: int| 0 <= y < self.height implies #[trigger] self.row_in_range(
            texture_width,
            len,
            y,
        ) by {
            let (w, h, oy) = (self.width as int, self.height as int, self.offset_y as int);
            let stride = 4 * texture_width as int;
            lemma_width_not_negative(w, h);
            assert(stride * (0 + oy) <= stride * (y + oy) <= stride * (h - 1 + oy))
                by (nonlinear_arith)
                requires
                    0 <= stride,
                    0 <= y <= h - 1,
            ;
            assert(0 <= 4 * w * (y + 1) <= 4 * w * (h - 1 + 1)) by (nonlinear_arith)
                requires
                    0 <= w,
                    0 <= y <= h - 1,
            ;
        }
    }

    /// Where every row has its place, the layout of the rows is the one that copying asks for.
    proof fn lemma_layout_fits(self, texture_width: u16, len: nat)
        requires
            self.runnable(),
            self.lies_within(texture_width, len),
        ensures
            self.layout(texture_width).fits(self.size() as nat, len),
    {
        if self.height > 0 {
            let (w, h, oy) = (self.width as int, self.height as int, self.offset_y as int);
            let stride = 4 * texture_width as int;
            assert(self.row_in_range(texture_width, len, 0));
            assert(self.row_in_range(texture_width, len, h - 1));
            lemma_width_not_negative(w, h);
            assert(stride * (h - 1 + oy) == stride * oy + stride * (h - 1)) by (nonlinear_arith);
            assert((4 * w) * h == 4 * (w * h)) by (nonlinear_arith);
            assert(4 * w <= 4 * w * (h - 1 + 1)) by (nonlinear_arith)
                requires
                    0 <= w,
                    1 <= h,
            ;
        }
    }

    fn row_in_range_exec(&self, texture_width: u16, len: usize, y: i32) -> (r: bool)
        requires
            self.runnable(),
            0 <= y < self.height,
        ensures
            r == self.row_in_range(texture_width, len as nat, y as int),
    {
        let row: i64 = y as i64 + self.offset_y as i64;
        let stride: i64 = 4 * texture_width as i64;
        let row_len: i64 = 4 * self.width as i64;
        proof {
            let (s, r, l, n) = (stride as int, row as int, row_len as int, y + 1);
            assert(-0x8_0000_0000_0000 <= s * r <= 0x8_0000_0000_0000) by (nonlinear_arith)
                requires
                    0 <= s <= 0x4_0000,
                    -0x1_0000_0000 <= r <= 0x1_0000_0000,
            ;
            lemma_product_bound(l, n);
        }
        let row_offset: i64 = stride * row;
        let column_offset: i64 = 4 * self.offset_x as i64;
        let source_end: i64 = row_len * (y as i64 + 1);
        let begin: i64 = row_offset + column_offset;
        let end: i64 = begin + row_len;
        let (least, most): (i64, i64) = (i32::MIN as i64, i32::MAX as i64);
        least <= row && row <= most && least <= row_offset && row_offset <= most && least
            <= column_offset && column_offset <= most && least <= source_end && source_end <= most
            && 0 <= begin && end <= most && (end < 0 || end as usize <= len)
    }

    fn lies_within_exec(&self, texture_width: u16, len: usize) -> (r: bool)
        requires
            self.runnable(),
        ensures
            r == self.lies_within(texture_width, len as nat),
    {
        if self.height <= 0 {
            return true;
        }
        let r: bool = self.row_in_range_exec(texture_width, len, 0) && self.row_in_range_exec(
            texture_width,
            len,
            self.height - 1,
        );
        proof {
            if r {
                self.lemma_ends_decide(texture_width, len as nat);
            }
        }
        r
    }

    fn layout_exec(&self, texture_width: u16, len: usize) -> (r: RowLayout)
        requires
            self.runnable(),
            self.height > 0,
            self.lies_within(texture_width, len as nat),
        ensures
            r == self.layout(texture_width),
    {
        proof {
            let (w, h) = (self.width as int, self.height as int);
            assert(self.row_in_range(texture_width, len as nat, 0));
            lemma_width_not_negative(w, h);
        }
        let stride: i32 = 4 * texture_width as i32;
        RowLayout {
            start: stride * self.offset_y + 4 * self.offset_x,
            stride,
            row_len: 4 * self.width,
            rows: self.height,
        }
    }
}

/// The resources of the graphics interface, by their identifiers.
#[derive(Debug)]
pub struct GlAlloc {
    pub resources: HashMap<i32, GlResource>,
}

impl GlAlloc {
    /// Whether `task` replaces a part of a texture that is there and has room for it.
    pub open spec fn takes(self, task: SubImage2D) -> bool {
        &&& task.runnable()
        &&& self.resources@.contains_key(task.texture_id)
        &&& self.resources@[task.texture_id] matches GlResource::Texture(texture, data)
            && task.lies_within(texture.width, data@.len())
    }

    /// Whether each texture has exactly the bytes of an image of its size: four for each pixel.
    pub open spec fn sizes_agree(self) -> bool {
        forall|id: i32| #[trigger]
            self.resources@.contains_key(id) ==> match self.resources@[id] {
                GlResource::Texture(texture, data) => data@.len() == 4 * (texture.width
                    * texture.height),
                GlResource::Buffer(_) => true,
            }
    }

    /// Whether each texture has its image on the graphics card.
    pub open spec fn all_bindable(self) -> bool {
        forall|id: i32| #[trigger]
            self.resources@.contains_key(id) ==> match self.resources@[id] {
                GlResource::Texture(texture, _) => texture.bindable_texture is Some,
                GlResource::Buffer(_) => true,
            }
    }

    /// No resources.
    pub fn new() -> (r: Self)
        ensures
            r.resources@ == Map::<i32, GlResource>::empty(),
            r.sizes_agree(),
            r.all_bindable(),
    {
        GlAlloc { resources: HashMap::new() }
    }

    /// Keeps the image of `task` under its identifier, in the place of what was there. Its image
    /// on the graphics card is `bindable_texture`. Where the sizes can be kept whole, they agree
    /// with the bytes.
    pub fn store_texture(&mut self, task: &TexImage2D, data: Vec<u8>, bindable_texture: u64)
        requires
            task.runnable(),
            data@.len() == task.size(),
        ensures
            final(self).resources@ == old(self).resources@.insert(
                task.texture_id,
                GlResource::Texture(task.texture(bindable_texture), data),
            ),
            old(self).sizes_agree() && 0 <= task.width <= u16::MAX && 0 <= task.height <= u16::MAX
                ==> final(self).sizes_agree(),
            old(self).all_bindable() ==> final(self).all_bindable(),
    {
        let texture: GlTexture = GlTexture {
            width: low_half(task.width),
            height: low_half(task.height),
            bindable_texture: Some(bindable_texture),
        };
        self.resources.insert(task.texture_id, GlResource::Texture(texture, data));
    }

    /// Whether `task` replaces a part of a texture that is there and has room for it.
    pub fn accepts(&self, task: &SubImage2D) -> (r: bool)
        ensures
            r == self.takes(*task),
    {
        if !task.is_runnable() {
            return false;
        }
        match self.resources.get(&task.texture_id) {
            Some(GlResource::Texture(texture, data)) => task.lies_within_exec(
                texture.width,
                data.len(),
            ),
            _ => false,
        }
    }

    /// Lays the image of `task` over its texture. The texture keeps its size, and every other
    /// resource stays as it is.
    pub fn write_sub_image(&mut self, task: &SubImage2D, read: Option<Vec<u8>>)
        requires
            old(self).takes(*task),
            read_matches(task.pixels, task.size(), read),
        ensures
            final(self).resources@.dom() == old(self).resources@.dom(),
            forall|id: i32|
                id != task.texture_id && old(self).resources@.contains_key(id)
                    ==> #[trigger] final(self).resources@[id] == old(self).resources@[id],
            old(self).resources@[task.texture_id] matches GlResource::Texture(texture, data) && (
            final(self).resources@[task.texture_id] matches GlResource::Texture(
                new_texture,
                new_data,
            ) && new_texture == texture && new_data@ == task.laid_over(
                texture.width,
                data@,
                read,
            ) && new_data@.len() == data@.len()),
            final(self).takes(*task),
            old(self).sizes_agree() ==> final(self).sizes_agree(),
            old(self).all_bindable() ==> final(self).all_bindable(),
    {
        let size: usize = image_size_exec(task.width, task.height);
        let pixels: Vec<u8> = pixel_bytes(size, read);
        let removed: Option<GlResource> = self.resources.remove(&task.texture_id);
        match removed {
            Some(GlResource::Texture(texture, mut data)) => {
                proof {
                    let layout = task.layout(texture.width);
                    crate::blit::blit_keeps_length(layout, data@, pixels@, layout.row_count());
                }
                if task.height > 0 {
                    proof {
                        task.lemma_layout_fits(texture.width, data@.len());
                    }
                    let layout: RowLayout = task.layout_exec(texture.width, data.len());
                    copy_rows(layout, &mut data, &pixels);
                }
                self.resources.insert(task.texture_id, GlResource::Texture(texture, data));
                assert(self.resources@.dom() =~= old(self).resources@.dom());
            },
            _ => vstd::pervasive::unreached(),
        }
    }

    /// What goes to the graphics card once `task` has been carried out: the whole texture.
    pub fn upload(&self, task: &SubImage2D) -> (r: TextureUpload<'_>)
        requires
            self.takes(*task),
        ensures
            self.resources@[task.texture_id] matches GlResource::Texture(texture, data)
                && r.width == texture.width && r.height == texture.height && r.data@ == data@,
            r.depth_or_array_layers == 1,
            Some(r.format) == format_of(task.format),
            self.sizes_agree() ==> r.data@.len() == 4 * (r.width * r.height),
    {
        let format: TextureFormat = texture_format(task.format).unwrap();
        match self.resources.get(&task.texture_id) {
            Some(GlResource::Texture(texture, data)) => TextureUpload {
                width: texture.width as u32,
                height: texture.height as u32,
                depth_or_array_layers: 1,
                format,
                data: data.as_slice(),
            },
            _ => vstd::pervasive::unreached(),
        }
    }

    /// Gives the texture of `task` the new image `bindable_texture` on the graphics card. Nothing
    /// else changes.
    pub fn bind_image(&mut self, task: &SubImage2D, bindable_texture: u64)
        requires
            old(self).takes(*task),
        ensures
            old(self).resources@[task.texture_id] matches GlResource::Texture(texture, data)
                && final(self).resources@ == old(self).resources@.insert(
                task.texture_id,
                GlResource::Texture(
                    GlTexture { bindable_texture: Some(bindable_texture), ..texture },
                    data,
                ),
            ),
            old(self).sizes_agree() ==> final(self).sizes_agree(),
            old(self).all_bindable() ==> final(self).all_bindable(),
    {
        let removed: Option<GlResource> = self.resources.remove(&task.texture_id);
        match removed {
            Some(GlResource::Texture(texture, data)) => {
                let bound: GlTexture = GlTexture {
                    bindable_texture: Some(bindable_texture),
                    ..texture
                };
                self.resources.insert(task.texture_id, GlResource::Texture(bound, data));
                assert(self.resources@ =~= old(self).resources@.insert(
                    task.texture_id,
                    GlResource::Texture(bound, data),
                ));
            },
            _ => vstd::pervasive::unreached(),
        }
    }
}

/// Where an image is no wider than the texture, each of its pixels arrives at its own column and
/// row, shifted by the offsets.
pub proof fn sub_image_shows_its_pixels(
    task: SubImage2D,
    texture_width: u16,
    data: Seq<u8>,
    read: Option<Vec<u8>>,
    row: int,
    column: int,
    channel: int,
)
    requires
        task.runnable(),
        task.lies_within(texture_width, data.len()),
        read_matches(task.pixels, task.size(), read),
        task.width <= texture_width,
        0 <= row < task.height,
        0 <= column < task.width,
        0 <= channel < 4,
    ensures
        task.laid_over(texture_width, data, read)[4 * (texture_width * (task.offset_y + row) + (
        task.offset_x + column)) + channel] == image_bytes(task.size(), read)[4 * (task.width * row
            + column) + channel],
{
    let layout = task.layout(texture_width);
    let pixels = image_bytes(task.size(), read);
    task.lemma_layout_fits(texture_width, data.len());
    lemma_start_and_stride(task, texture_width, data.len());
    crate::blit::blit_shows_every_row(layout, data, pixels, row, 4 * column + channel);
    let (tw, w, oy) = (texture_width as int, task.width as int, task.offset_y as int);
    assert((4 * tw) * oy + (4 * tw) * row == 4 * (tw * (oy + row))) by (nonlinear_arith);
    assert((4 * w) * row == 4 * (w * row)) by (nonlinear_arith);
}

/// What the layout of an image that lies within its texture is made of, without rounding.
proof fn lemma_start_and_stride(task: SubImage2D, texture_width: u16, len: nat)
    requires
        task.runnable(),
        task.lies_within(texture_width, len),
        task.height > 0,
    ensures
        task.width >= 0,
        task.layout(texture_width).start == 4 * texture_width * task.offset_y + 4 * task.offset_x,
        task.layout(texture_width).stride == 4 * texture_width,
        task.layout(texture_width).row_len == 4 * task.width,
{
    let (w, h) = (task.width as int, task.height as int);
    assert(task.row_in_range(texture_width, len, 0));
    lemma_width_not_negative(w, h);
}

/// Where an image stays between the left and the right edge of the texture, the pixels outside
/// of its rectangle stay as they were.
pub proof fn sub_image_leaves_other_pixels(
    task: SubImage2D,
    texture_width: u16,
    data: Seq<u8>,
    read: Option<Vec<u8>>,
    x: int,
    y: int,
    channel: int,
)
    requires
        task.runnable(),
        task.lies_within(texture_width, data.len()),
        read_matches(task.pixels, task.size(), read),
        0 <= task.offset_x,
        task.offset_x + task.width <= texture_width,
        0 <= x < texture_width,
        0 <= y,
        0 <= channel < 4,
        4 * (texture_width * y + x) + channel < data.len(),
        !(task.offset_x <= x < task.offset_x + task.width && task.offset_y <= y < task.offset_y
            + task.height),
    ensures
        task.laid_over(texture_width, data, read)[4 * (texture_width * y + x) + channel]
            == data[4 * (texture_width * y + x) + channel],
{
    if task.height > 0 {
        let layout = task.layout(texture_width);
        let pixels = image_bytes(task.size(), read);
        let i = 4 * (texture_width * y + x) + channel;
        let (tw, oy) = (texture_width as int, task.offset_y as int);
        task.lemma_layout_fits(texture_width, data.len());
        lemma_start_and_stride(task, texture_width, data.len());
        assert(0 <= tw * y) by (nonlinear_arith)
            requires
                0 <= tw,
                0 <= y,
        ;
        assert forall|r: int| 0 <= r < layout.row_count() implies !#[trigger] layout.covers(
            r,
            i,
        ) by {
            assert((4 * tw) * oy + (4 * tw) * r == 4 * (tw * (oy + r))) by (nonlinear_arith);
            if y < oy + r {
                assert(tw * y + tw <= tw * (oy + r)) by (nonlinear_arith)
                    requires
                        0 <= tw,
                        y < oy + r,
                ;
            } else if y > oy + r {
                assert(tw * (oy + r) + tw <= tw * y) by (nonlinear_arith)
                    requires
                        0 <= tw,
                        y > oy + r,
                ;
            }
        }
        crate::blit::blit_leaves_the_rest(layout, data, pixels, layout.row_count(), i);
    }
}

/// An image of the texture's own width and size, laid down at its corner, takes the place of the
/// whole texture.
pub proof fn whole_image_replaces_the_texture(
    task: SubImage2D,
    texture_width: u16,
    data: Seq<u8>,
    read: Option<Vec<u8>>,
)
    requires
        task.runnable(),
        task.lies_within(texture_width, data.len()),
        read_matches(task.pixels, task.size(), read),
        task.offset_x == 0,
        task.offset_y == 0,
        task.width == texture_width,
        task.height >= 0,
        data.len() == task.size(),
    ensures
        task.laid_over(texture_width, data, read) == image_bytes(task.size(), read),
{
    let layout = task.layout(texture_width);
    let pixels = image_bytes(task.size(), read);
    let result = task.laid_over(texture_width, data, read);
    crate::blit::blit_keeps_length(layout, data, pixels, layout.row_count());
    if task.height > 0 {
        task.lemma_layout_fits(texture_width, data.len());
        lemma_start_and_stride(task, texture_width, data.len());
        assert forall|i: int| 0 <= i < data.len() implies result[i] == pixels[i] by {
            let (w, h) = (task.width as int, task.height as int);
            let l = 4 * w;
            assert(l > 0) by (nonlinear_arith)
                requires
                    0 <= i < 4 * (w * h),
                    l == 4 * w,
                    w >= 0,
            ;
            let y = i / l;
            assert(l * y + i % l == i && 0 <= i % l < l) by {
                vstd::arithmetic::div_mod::lemma_fundamental_div_mod(i, l);
                vstd::arithmetic::div_mod::lemma_mod_bound(i, l);
            }
            assert(0 <= y < h) by (nonlinear_arith)
                requires
                    l * y + i % l == i,
                    0 <= i % l < l,
                    0 <= i < 4 * (w * h),
                    l == 4 * w,
                    l > 0,
            ;
            crate::blit::blit_shows_every_row(layout, data, pixels, y, i % l);
        }
    } else {
        assert(task.width * task.height == 0) by (nonlinear_arith)
            requires
                task.height == 0,
        ;
    }
    assert(result =~= pixels);
}

/// Laying the same image over a texture a second time changes nothing.
pub proof fn sub_image_is_idempotent(
    task: SubImage2D,
    texture_width: u16,
    data: Seq<u8>,
    read: Option<Vec<u8>>,
)
    requires
        task.runnable(),
        task.lies_within(texture_width, data.len()),
        read_matches(task.pixels, task.size(), read),
    ensures
        task.laid_over(texture_width, task.laid_over(texture_width, data, read), read)
            == task.laid_over(texture_width, data, read),
{
    task.lemma_layout_fits(texture_width, data.len());
    crate::blit::blit_is_idempotent(
        task.layout(texture_width),
        data,
        image_bytes(task.size(), read),
    );
}

/// A texture takes every image that lies inside of it, as long as its width is kept whole and its
/// bytes can be counted in a 32-bit integer.
pub proof fn parts_inside_are_taken(image: TexImage2D, part: SubImage2D)
    requires
        image.runnable(),
        0 <= image.width <= u16::MAX,
        0 <= image.height,
        image.size() <= i32::MAX,
        part.component_type == UNSIGNED_BYTE,
        format_of(part.format) is Some,
        0 <= part.offset_x,
        0 <= part.offset_y,
        0 <= part.width,
        0 <= part.height,
        part.offset_x + part.width <= image.width,
        part.offset_y + part.height <= image.height,
    ensures
        part.runnable(),
        part.lies_within(image.kept_width(), image.size() as nat),
{
    let (w, h) = (image.width as int, image.height as int);
    let (pw, ph) = (part.width as int, part.height as int);
    let (ox, oy) = (part.offset_x as int, part.offset_y as int);
    assert(0 <= pw * ph <= w * h) by (nonlinear_arith)
        requires
            0 <= pw <= w,
            0 <= ph <= h,
    ;
    assert forall|y: int| 0 <= y < part.height implies #[trigger] part.row_in_range(
        image.kept_width(),
        image.size() as nat,
        y,
    ) by {
        assert(0 <= w * (y + oy) && w * (y + oy) + w <= w * h) by (nonlinear_arith)
            requires
                0 <= w,
                0 <= y + oy < h,
        ;
        assert(4 * w * (y + oy) == 4 * (w * (y + oy))) by (nonlinear_arith);
        assert(0 <= pw * (y + 1) <= pw * ph) by (nonlinear_arith)
            requires
                0 <= pw,
                0 <= y < ph,
        ;
        assert(4 * pw * (y + 1) == 4 * (pw * (y + 1))) by (nonlinear_arith);
    }
}

/// Each of the two formats is known by its own number, and no other number is known.
pub proof fn formats_are_known_by_their_numbers(format: i32, r: Option<TextureFormat>)
    requires
        call_ensures(texture_format, (format,), r),
    ensures
        r == Some(TextureFormat::Rgba8Unorm) <==> format == 0x1908,
        r == Some(TextureFormat::Bgra8Unorm) <==> format == 0x80E1,
        r is None <==> format != 0x1908 && format != 0x80E1,
{
}

/// A whole image can be read where its components are unsigned bytes, its pixels can be counted in
/// a 32-bit integer and its bytes can be allocated. It can be carried out where its format is known
/// too.
pub proof fn whole_images_that_can_be_made(task: TexImage2D, readable: bool, runnable: bool)
    requires
        call_ensures(TexImage2D::is_readable, (&task,), readable),
        call_ensures(TexImage2D::is_runnable, (&task,), runnable),
    ensures
        readable <==> task.component_type == 0x1401 && 0 <= task.width * task.height <= 0x7fff_ffff
            && 4 * (task.width * task.height) <= isize::MAX,
        runnable <==> readable && (task.format == 0x1908 || task.format == 0x80E1),
        readable ==> call_requires(TexImage2D::source, (&task,)),
{
}

/// A part of a texture can be read where a whole image of its size could. It makes sense by itself
/// where the bytes of a row can be counted in a 32-bit integer and its format is known too.
pub proof fn parts_that_make_sense(task: SubImage2D, readable: bool, runnable: bool)
    requires
        call_ensures(SubImage2D::is_readable, (&task,), readable),
        call_ensures(SubImage2D::is_runnable, (&task,), runnable),
    ensures
        readable <==> task.component_type == 0x1401 && 0 <= task.width * task.height <= 0x7fff_ffff
            && 4 * (task.width * task.height) <= isize::MAX,
        runnable <==> readable && -0x8000_0000 <= 4 * task.width <= 0x7fff_ffff && (task.format
            == 0x1908 || task.format == 0x80E1),
        readable ==> call_requires(SubImage2D::source, (&task,)),
{
}

/// The null pointer stands for zeroes. Every other pointer is read, four bytes for each pixel, at
/// the address that it is, but for a multiple of the number of addresses.
pub proof fn sources_are_what_the_pointers_say(
    image: TexImage2D,
    image_source: PixelSource,
    part: SubImage2D,
    part_source: PixelSource,
)
    requires
        call_ensures(TexImage2D::is_readable, (&image,), true),
        call_ensures(TexImage2D::source, (&image,), image_source),
        call_ensures(SubImage2D::is_readable, (&part,), true),
        call_ensures(SubImage2D::source, (&part,), part_source),
    ensures
        image_source is Zeroed <==> image.pixels == 0,
        image_source matches PixelSource::Memory { address, size } ==> size == 4 * (image.width
            * image.height) && (image.pixels - address) % (usize::MAX + 1) == 0 && (0
            <= image.pixels <= usize::MAX ==> address == image.pixels),
        part_source is Zeroed <==> part.pixels == 0,
        part_source matches PixelSource::Memory { address, size } ==> size == 4 * (part.width
            * part.height) && (part.pixels - address) % (usize::MAX + 1) == 0 && (0 <= part.pixels
            <= usize::MAX ==> address == part.pixels),
{
    lemma_address(image.pixels);
    lemma_address(part.pixels);
}

proof fn lemma_address(pixels: i64)
    ensures
        0 <= crate::jvalue::address_of(pixels) <= usize::MAX,
        (pixels - crate::jvalue::address_of(pixels)) % (usize::MAX + 1) == 0,
        0 <= pixels <= usize::MAX ==> crate::jvalue::address_of(pixels) == pixels,
{
    let (n, count) = (pixels as int, usize::MAX + 1);
    vstd::arithmetic::div_mod::lemma_fundamental_div_mod(n, count);
    vstd::arithmetic::div_mod::lemma_mod_bound(n, count);
    vstd::arithmetic::div_mod::lemma_mod_multiples_basic(n / count, count);
    assert(n - n % count == (n / count) * count) by (nonlinear_arith)
        requires
            n == count * (n / count) + n % count,
    ;
    if 0 <= pixels <= usize::MAX {
        vstd::arithmetic::div_mod::lemma_small_mod(n as nat, count as nat);
    }
}

/// The bytes of an image are those that were read, in order, or as many zeroes as the image has
/// bytes.
pub proof fn images_are_what_was_read(task: TexImage2D, read: Option<Vec<u8>>, data: Vec<u8>)
    requires
        call_ensures(TexImage2D::is_readable, (&task,), true),
        read is None <==> task.pixels == 0,
        read matches Some(bytes) ==> bytes@.len() == 4 * (task.width * task.height),
        call_ensures(TexImage2D::image, (&task, read), data),
    ensures
        call_requires(TexImage2D::image, (&task, read)),
        data@.len() == 4 * (task.width * task.height),
        read matches Some(bytes) ==> data@ == bytes@,
        read is None ==> forall|i: int| 0 <= i < data@.len() ==> #[trigger] data@[i] == 0,
{
}

/// An image goes to the graphics card as one layer, with its bytes, in its format, and with the
/// sizes that were asked for.
pub proof fn whole_images_are_sent_as_they_are(
    task: TexImage2D,
    data: &Vec<u8>,
    sent: TextureUpload<'_>,
)
    requires
        call_ensures(TexImage2D::is_runnable, (&task,), true),
        data@.len() == 4 * (task.width * task.height),
        call_ensures(TexImage2D::upload, (&task, data), sent),
    ensures
        call_requires(TexImage2D::upload, (&task, data)),
        sent.width == task.width || sent.width - task.width == 0x1_0000_0000,
        sent.height == task.height || sent.height - task.height == 0x1_0000_0000,
        sent.depth_or_array_layers == 1,
        sent.format is Rgba8Unorm <==> task.format == 0x1908,
        sent.format is Bgra8Unorm <==> task.format == 0x80E1,
        sent.data@ == data@,
{
}

/// The texture that is kept has the width and the height that were asked for, each of them by its
/// low half, the bytes that were given and the image that was given. Every other resource stays.
pub proof fn textures_keep_their_width_and_height(
    alloc: &mut GlAlloc,
    task: TexImage2D,
    data: Vec<u8>,
    bindable_texture: u64,
    other: i32,
)
    requires
        call_ensures(TexImage2D::is_runnable, (&task,), true),
        data@.len() == 4 * (task.width * task.height),
        call_ensures(GlAlloc::store_texture, (alloc, &task, data, bindable_texture), ()),
        other != task.texture_id,
    ensures
        call_requires(GlAlloc::store_texture, (alloc, &task, data, bindable_texture)),
        final(alloc).resources@.contains_key(task.texture_id),
        final(alloc).resources@[task.texture_id] matches GlResource::Texture(texture, kept) && {
            &&& 0 <= task.width <= u16::MAX ==> texture.width == task.width
            &&& 0 <= task.height <= u16::MAX ==> texture.height == task.height
            &&& (task.width - texture.width) % 0x1_0000 == 0
            &&& (task.height - texture.height) % 0x1_0000 == 0
            &&& texture.bindable_texture == Some(bindable_texture)
            &&& kept@ == data@
        },
        final(alloc).resources@.contains_key(other) <==> old(alloc).resources@.contains_key(other),
        old(alloc).resources@.contains_key(other) ==> final(alloc).resources@[other]
            == old(alloc).resources@[other],
{
}

/// A part is taken exactly where it makes sense by itself, the texture is there, and the first and
/// the last of its rows lie within the bytes of the texture, all numbers on the way there being
/// 32-bit integers. Where it has no rows, any texture will do.
pub proof fn parts_are_taken_where_they_fit(
    alloc: GlAlloc,
    task: SubImage2D,
    runnable: bool,
    taken: bool,
)
    requires
        call_ensures(SubImage2D::is_runnable, (&task,), runnable),
        call_ensures(GlAlloc::accepts, (&alloc, &task), taken),
    ensures
        taken ==> runnable && alloc.resources@.contains_key(task.texture_id)
            && alloc.resources@[task.texture_id] is Texture,
        runnable && alloc.resources@.contains_key(task.texture_id) ==> (
        alloc.resources@[task.texture_id] matches GlResource::Texture(texture, data) ==> {
            let (stride, column) = (4 * texture.width, 4 * task.offset_x);
            let first = stride * task.offset_y;
            let last = stride * (task.offset_y + task.height - 1);
            taken <==> task.height <= 0 || {
                &&& task.offset_y + task.height - 1 <= 0x7fff_ffff
                &&& -0x8000_0000 <= first && last <= 0x7fff_ffff
                &&& -0x8000_0000 <= column <= 0x7fff_ffff
                &&& 4 * task.width * task.height <= 0x7fff_ffff
                &&& 0 <= first + column
                &&& last + column + 4 * task.width <= 0x7fff_ffff
                &&& last + column + 4 * task.width <= data@.len()
            }
        }),
{
    if runnable && alloc.resources@.contains_key(task.texture_id) {
        match alloc.resources@[task.texture_id] {
            GlResource::Texture(texture, data) => {
                if task.height > 0 {
                    let (w, h, oy) = (task.width as int, task.height as int, task.offset_y as int);
                    let stride = 4 * texture.width as int;
                    lemma_width_not_negative(w, h);
                    assert(stride * oy <= stride * (oy + h - 1)) by (nonlinear_arith)
                        requires
                            0 <= stride,
                            1 <= h,
                    ;
                    assert(0 <= 4 * w <= 4 * w * h) by (nonlinear_arith)
                        requires
                            0 <= w,
                            1 <= h,
                    ;
                    assert(stride * (0 + oy) == stride * oy);
                    assert(stride * (h - 1 + oy) == stride * (oy + h - 1));
                    assert(4 * w * (0 + 1) == 4 * w) by (nonlinear_arith);
                    assert(4 * w * (h - 1 + 1) == 4 * w * h);
                    if taken {
                        assert(task.row_in_range(texture.width, data@.len(), 0));
                        assert(task.row_in_range(texture.width, data@.len(), h - 1));
                    } else if task.row_in_range(texture.width, data@.len(), 0)
                        && task.row_in_range(texture.width, data@.len(), h - 1) {
                        task.lemma_ends_decide(texture.width, data@.len());
                    }
                }
            },
            _ => {},
        }
    }
}

/// What a part leaves of its texture and of the others: the texture has the sizes, the number of
/// bytes and the image that it had, and every other resource stays. Every part that is taken can be
/// laid down.
pub proof fn parts_change_only_bytes(
    alloc: &mut GlAlloc,
    task: SubImage2D,
    read: Option<Vec<u8>>,
    other: i32,
)
    requires
        call_ensures(GlAlloc::accepts, (old(alloc), &task), true),
        read is None <==> task.pixels == 0,
        read matches Some(bytes) ==> bytes@.len() == 4 * (task.width * task.height),
        call_ensures(GlAlloc::write_sub_image, (alloc, &task, read), ()),
        other != task.texture_id,
    ensures
        call_requires(GlAlloc::write_sub_image, (alloc, &task, read)),
        final(alloc).resources@.contains_key(task.texture_id),
        old(alloc).resources@[task.texture_id] matches GlResource::Texture(texture, data) && (
        final(alloc).resources@[task.texture_id] matches GlResource::Texture(new_texture, new_data)
            && new_texture.width == texture.width && new_texture.height == texture.height
            && new_texture.bindable_texture == texture.bindable_texture && new_data@.len()
            == data@.len()),
        final(alloc).resources@.contains_key(other) <==> old(alloc).resources@.contains_key(other),
        old(alloc).resources@.contains_key(other) ==> final(alloc).resources@[other]
            == old(alloc).resources@[other],
{
    let after = final(alloc).resources@.dom();
    assert(after.contains(other) <==> old(alloc).resources@.dom().contains(other));
}

/// Byte `k` of row `y` of a part is seen in the texture as many rows and columns further as the
/// offsets say, unless the next row of the part, which is laid down later, begins at or before it.
/// Where nothing was read, it is zero.
pub proof fn parts_are_seen_at_their_offsets(
    alloc: &mut GlAlloc,
    task: SubImage2D,
    read: Option<Vec<u8>>,
    y: int,
    k: int,
)
    requires
        call_ensures(GlAlloc::accepts, (old(alloc), &task), true),
        read is None <==> task.pixels == 0,
        read matches Some(bytes) ==> bytes@.len() == 4 * (task.width * task.height),
        call_ensures(GlAlloc::write_sub_image, (alloc, &task, read), ()),
        0 <= y < task.height,
        0 <= k < 4 * task.width,
    ensures
        old(alloc).resources@[task.texture_id] matches GlResource::Texture(texture, data) && (
        final(alloc).resources@[task.texture_id] matches GlResource::Texture(new_texture, new_data)
            && (y == task.height - 1 || k < 4 * texture.width ==> new_data@[4 * (texture.width * (
        task.offset_y + y) + task.offset_x) + k] == match read {
            Some(bytes) => bytes@[4 * (task.width * y) + k],
            None => 0u8,
        })),
{
    match old(alloc).resources@[task.texture_id] {
        GlResource::Texture(texture, data) => {
            if y == task.height - 1 || k < 4 * texture.width {
                lemma_part_byte(task, texture.width, data@, read, y, k);
            }
        },
        _ => {},
    }
}

proof fn lemma_part_byte(
    task: SubImage2D,
    texture_width: u16,
    data: Seq<u8>,
    read: Option<Vec<u8>>,
    y: int,
    k: int,
)
    requires
        task.runnable(),
        task.lies_within(texture_width, data.len()),
        read_matches(task.pixels, task.size(), read),
        0 <= y < task.height,
        0 <= k < 4 * task.width,
        y == task.height - 1 || k < 4 * texture_width,
    ensures
        task.laid_over(texture_width, data, read)[4 * (texture_width * (task.offset_y + y)
            + task.offset_x) + k] == match read {
            Some(bytes) => bytes@[4 * (task.width * y) + k],
            None => 0u8,
        },
{
    let layout = task.layout(texture_width);
    let pixels = image_bytes(task.size(), read);
    let (tw, w, h, oy) = (
        texture_width as int,
        task.width as int,
        task.height as int,
        task.offset_y as int,
    );
    task.lemma_layout_fits(texture_width, data.len());
    lemma_start_and_stride(task, texture_width, data.len());
    crate::blit::lemma_copied_row_is_seen(layout, data, pixels, y, k);
    assert((4 * tw) * oy + (4 * tw) * y == 4 * (tw * (oy + y))) by (nonlinear_arith);
    assert((4 * w) * y == 4 * (w * y)) by (nonlinear_arith);
    assert(0 <= w * y && w * y + w <= w * h) by (nonlinear_arith)
        requires
            0 <= w,
            0 <= y < h,
    ;
}

/// Bytes of the texture that lie before the first row of a part, behind its last row, or between
/// two of its rows stay as they were. Where the part has no rows, all bytes do.
pub proof fn parts_leave_the_rest(
    alloc: &mut GlAlloc,
    task: SubImage2D,
    read: Option<Vec<u8>>,
    y: int,
    i: int,
)
    requires
        call_ensures(GlAlloc::accepts, (old(alloc), &task), true),
        read is None <==> task.pixels == 0,
        read matches Some(bytes) ==> bytes@.len() == 4 * (task.width * task.height),
        call_ensures(GlAlloc::write_sub_image, (alloc, &task, read), ()),
    ensures
        old(alloc).resources@[task.texture_id] matches GlResource::Texture(texture, data) && (
        final(alloc).resources@[task.texture_id] matches GlResource::Texture(new_texture, new_data)
            && {
            let row = |n: int| 4 * (texture.width * (task.offset_y + n) + task.offset_x);
            let outside = {
                ||| task.height <= 0
                ||| i < row(0)
                ||| row(task.height - 1) + 4 * task.width <= i
                ||| 0 <= y < task.height - 1 && row(y) + 4 * task.width <= i < row(y + 1)
            };
            0 <= i < data@.len() && outside ==> new_data@[i] == data@[i]
        }),
{
    match old(alloc).resources@[task.texture_id] {
        GlResource::Texture(texture, data) => {
            if task.height > 0 && 0 <= i < data@.len() {
                let layout = task.layout(texture.width);
                let pixels = image_bytes(task.size(), read);
                let (tw, h, oy) = (
                    texture.width as int,
                    task.height as int,
                    task.offset_y as int,
                );
                task.lemma_layout_fits(texture.width, data@.len());
                lemma_start_and_stride(task, texture.width, data@.len());
                assert((4 * tw) * oy + (4 * tw) * (h - 1) == 4 * (tw * (oy + (h - 1))))
                    by (nonlinear_arith);
                assert((4 * tw) * oy + (4 * tw) * y == 4 * (tw * (oy + y))) by (nonlinear_arith);
                assert((4 * tw) * oy + (4 * tw) * (y + 1) == 4 * (tw * (oy + (y + 1))))
                    by (nonlinear_arith);
                assert(4 * (tw * (oy + 0)) == 4 * tw * oy) by (nonlinear_arith);
                let outside = {
                    ||| i < layout.start
                    ||| layout.start + layout.stride * (layout.rows - 1) + layout.row_len <= i
                    ||| 0 <= y < layout.rows - 1 && layout.start + layout.stride * y
                        + layout.row_len <= i < layout.start + layout.stride * (y + 1)
                };
                if outside {
                    crate::blit::lemma_gap_is_left(layout, data@, pixels, y, i);
                }
            }
        },
        _ => {},
    }
}

/// After a part was laid down, the whole texture goes to the graphics card as one layer, with the
/// sizes and the bytes that are kept of it, in the format of the part. Afterwards its image is the
/// new one, and nothing else has changed.
pub proof fn changed_textures_are_sent_and_bound(
    alloc: &mut GlAlloc,
    task: SubImage2D,
    sent: TextureUpload<'_>,
    bindable_texture: u64,
    other: i32,
)
    requires
        call_ensures(GlAlloc::accepts, (old(alloc), &task), true),
        call_ensures(GlAlloc::upload, (old(alloc), &task), sent),
        call_ensures(GlAlloc::bind_image, (alloc, &task, bindable_texture), ()),
        other != task.texture_id,
    ensures
        call_requires(GlAlloc::upload, (old(alloc), &task)),
        call_requires(GlAlloc::bind_image, (alloc, &task, bindable_texture)),
        sent.depth_or_array_layers == 1,
        sent.format is Rgba8Unorm <==> task.format == 0x1908,
        sent.format is Bgra8Unorm <==> task.format == 0x80E1,
        final(alloc).resources@.contains_key(task.texture_id),
        old(alloc).resources@[task.texture_id] matches GlResource::Texture(texture, data) && (
        final(alloc).resources@[task.texture_id] matches GlResource::Texture(bound, kept) && {
            &&& sent.width == texture.width && sent.height == texture.height
            &&& sent.data@ == data@ && kept@ == data@
            &&& bound.width == texture.width && bound.height == texture.height
            &&& bound.bindable_texture == Some(bindable_texture)
        }),
        final(alloc).resources@.contains_key(other) <==> old(alloc).resources@.contains_key(other),
        old(alloc).resources@.contains_key(other) ==> final(alloc).resources@[other]
            == old(alloc).resources@[other],
{
}

/// At the start there are no resources.
pub proof fn no_resources_at_first(alloc: GlAlloc, id: i32)
    requires
        call_ensures(GlAlloc::new, (), alloc),
    ensures
        !alloc.resources@.contains_key(id),
{
}

/// Where the sizes agree and everything is bindable, each texture has four bytes for each of its
/// pixels and an image.
pub proof fn sizes_count_the_bytes(alloc: GlAlloc, id: i32)
    requires
        alloc.sizes_agree(),
        alloc.all_bindable(),
        alloc.resources@.contains_key(id),
    ensures
        alloc.resources@[id] matches GlResource::Texture(texture, data) ==> data@.len() == 4 * (
        texture.width * texture.height) && texture.bindable_texture is Some,
{
}

} // verus!
