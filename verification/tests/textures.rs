use wgpu_mc_jni::texture::{
    texture_format, GlAlloc, GlResource, GlTexture, PixelSource, SubImage2D, TexImage2D,
    TextureFormat, BGRA, RGBA, UNSIGNED_BYTE,
};

fn image(width: i32, height: i32, pixels: i64) -> TexImage2D {
    TexImage2D {
        texture_id: 5,
        width,
        height,
        format: RGBA,
        component_type: UNSIGNED_BYTE,
        pixels,
    }
}

fn part(offset_x: i32, offset_y: i32, width: i32, height: i32) -> SubImage2D {
    SubImage2D {
        texture_id: 5,
        offset_x,
        offset_y,
        width,
        height,
        format: BGRA,
        component_type: UNSIGNED_BYTE,
        pixels: 1,
    }
}

fn alloc_with(width: i32, height: i32) -> GlAlloc {
    let mut alloc = GlAlloc::new();
    let task = image(width, height, 0);
    assert!(task.is_runnable());
    alloc.store_texture(&task, task.image(None), 70);
    alloc
}

fn numbered(len: usize) -> Vec<u8> {
    (0..len).map(|i| (i + 1) as u8).collect()
}

fn data(alloc: &GlAlloc) -> Vec<u8> {
    match alloc.resources.get(&5) {
        Some(GlResource::Texture(_, data)) => data.clone(),
        other => panic!("{:?}", other),
    }
}

#[test]
fn two_formats_are_known() {
    assert_eq!(texture_format(0x1908), Some(TextureFormat::Rgba8Unorm));
    assert_eq!(texture_format(0x80E1), Some(TextureFormat::Bgra8Unorm));
    assert_eq!(texture_format(0x1907), None);
}

#[test]
fn pixels_come_from_memory_or_are_zero() {
    assert_eq!(image(2, 3, 0).source(), PixelSource::Zeroed);
    assert_eq!(image(2, 3, 0x1000).source(), PixelSource::Memory { address: 0x1000, size: 24 });
    assert_eq!(part(0, 0, 1, 1).source(), PixelSource::Memory { address: 1, size: 4 });
    assert_eq!(image(2, 3, 0).image(None), vec![0; 24]);
    assert_eq!(image(1, 1, 9).image(Some(vec![1, 2, 3, 4])), vec![1, 2, 3, 4]);
}

#[test]
fn images_that_cannot_be_made_are_told_apart() {
    assert!(image(2, 3, 0).is_runnable());
    assert!(image(0, -7, 0).is_runnable());
    assert!(image(-2, -3, 0).is_runnable());
    assert!(!image(-2, 3, 0).is_runnable());
    assert!(!image(0x1_0000, 0x1_0000, 0).is_runnable());
    assert!(!TexImage2D { component_type: 0x1406, ..image(1, 1, 0) }.is_runnable());
    let unknown = TexImage2D { format: 0x1907, ..image(1, 1, 0) };
    assert!(unknown.is_readable() && !unknown.is_runnable());
    assert_eq!(unknown.image(None), vec![0; 4]);
    assert!(!TexImage2D { component_type: 0x1406, ..image(1, 1, 0) }.is_readable());
    let too_wide = part(0, 0, i32::MAX, 0);
    assert!(too_wide.is_readable() && !too_wide.is_runnable());
    assert_eq!(too_wide.source(), PixelSource::Memory { address: 1, size: 0 });
}

#[test]
fn a_new_texture_is_kept_and_sent() {
    let mut alloc = GlAlloc::new();
    let task = image(2, 1, 7);
    let bytes = task.image(Some(numbered(8)));
    let upload = task.upload(&bytes);
    assert_eq!((upload.width, upload.height, upload.depth_or_array_layers), (2, 1, 1));
    assert_eq!(upload.format, TextureFormat::Rgba8Unorm);
    assert_eq!(upload.data, &[1, 2, 3, 4, 5, 6, 7, 8]);
    alloc.store_texture(&task, bytes, 71);
    match alloc.resources.get(&5) {
        Some(GlResource::Texture(texture, data)) => {
            assert_eq!(*texture, GlTexture { width: 2, height: 1, bindable_texture: Some(71) });
            assert_eq!(data, &numbered(8));
        }
        other => panic!("{:?}", other),
    }
}

#[test]
fn sizes_are_kept_by_their_low_half() {
    let alloc = alloc_with(0x1_0002, 1);
    match alloc.resources.get(&5) {
        Some(GlResource::Texture(texture, _)) => assert_eq!(texture.width, 2),
        other => panic!("{:?}", other),
    }
}

#[test]
fn a_part_lands_at_its_offset() {
    let mut alloc = alloc_with(3, 3);
    let task = part(1, 1, 2, 2);
    assert!(alloc.accepts(&task));
    alloc.write_sub_image(&task, Some(numbered(16)));
    let mut expected = vec![0; 36];
    expected[16..24].copy_from_slice(&[1, 2, 3, 4, 5, 6, 7, 8]);
    expected[28..36].copy_from_slice(&[9, 10, 11, 12, 13, 14, 15, 16]);
    assert_eq!(data(&alloc), expected);
    let upload = alloc.upload(&task);
    assert_eq!((upload.width, upload.height, upload.depth_or_array_layers), (3, 3, 1));
    assert_eq!(upload.format, TextureFormat::Bgra8Unorm);
    assert_eq!(upload.data, &expected[..]);
}

#[test]
fn the_same_part_twice_is_the_same() {
    let mut alloc = alloc_with(3, 3);
    let task = part(0, 1, 3, 2);
    alloc.write_sub_image(&task, Some(numbered(24)));
    let once = data(&alloc);
    alloc.write_sub_image(&task, Some(numbered(24)));
    assert_eq!(data(&alloc), once);
}

#[test]
fn a_whole_image_replaces_the_texture() {
    let mut alloc = alloc_with(2, 2);
    alloc.write_sub_image(&part(0, 0, 2, 2), Some(numbered(16)));
    assert_eq!(data(&alloc), numbered(16));
    alloc.write_sub_image(&SubImage2D { pixels: 0, ..part(0, 0, 2, 2) }, None);
    assert_eq!(data(&alloc), vec![0; 16]);
}

#[test]
fn rows_that_overlap_show_the_later_one() {
    let mut alloc = alloc_with(1, 4);
    let task = part(0, 0, 2, 2);
    assert!(alloc.accepts(&task));
    alloc.write_sub_image(&task, Some(numbered(16)));
    assert_eq!(data(&alloc), vec![1, 2, 3, 4, 9, 10, 11, 12, 13, 14, 15, 16, 0, 0, 0, 0]);
}

#[test]
fn a_part_may_run_over_the_right_edge() {
    let mut alloc = alloc_with(2, 2);
    let task = part(1, 0, 2, 1);
    assert!(alloc.accepts(&task));
    alloc.write_sub_image(&task, Some(numbered(8)));
    assert_eq!(data(&alloc), vec![0, 0, 0, 0, 1, 2, 3, 4, 5, 6, 7, 8, 0, 0, 0, 0]);
}

#[test]
fn parts_that_do_not_fit_are_not_taken() {
    let mut alloc = alloc_with(3, 3);
    assert!(alloc.accepts(&part(0, 0, 3, 3)));
    assert!(!alloc.accepts(&part(0, 1, 3, 3)));
    assert!(!alloc.accepts(&part(-1, 0, 1, 1)));
    assert!(alloc.accepts(&part(-1, 1, 1, 1)));
    assert!(!alloc.accepts(&part(0, 0, 1, i32::MAX)));
    assert!(!alloc.accepts(&part(i32::MAX, 0, 1, 1)));
    assert!(!alloc.accepts(&part(0, i32::MAX, 1, 2)));
    assert!(!alloc.accepts(&SubImage2D { texture_id: 6, ..part(0, 0, 1, 1) }));
    assert!(!alloc.accepts(&SubImage2D { format: 1, ..part(0, 0, 1, 1) }));
    assert!(!alloc.accepts(&SubImage2D { component_type: 1, ..part(0, 0, 1, 1) }));
    alloc.resources.insert(6, GlResource::Buffer(vec![0; 64]));
    assert!(!alloc.accepts(&SubImage2D { texture_id: 6, ..part(0, 0, 1, 1) }));
}

#[test]
fn a_part_without_rows_changes_nothing() {
    let mut alloc = alloc_with(2, 2);
    alloc.write_sub_image(&part(0, 0, 2, 2), Some(numbered(16)));
    let task = part(0, 0, -1, -1);
    assert!(alloc.accepts(&task));
    alloc.write_sub_image(&task, Some(vec![9; 4]));
    assert_eq!(data(&alloc), numbered(16));
}

#[test]
fn other_textures_stay() {
    let mut alloc = alloc_with(1, 1);
    let other = TexImage2D { texture_id: 6, ..image(1, 1, 0) };
    alloc.store_texture(&other, other.image(None), 72);
    alloc.write_sub_image(&part(0, 0, 1, 1), Some(numbered(4)));
    match alloc.resources.get(&6) {
        Some(GlResource::Texture(_, data)) => assert_eq!(data, &vec![0; 4]),
        other => panic!("{:?}", other),
    }
}

fn texture(alloc: &GlAlloc) -> GlTexture {
    match alloc.resources.get(&5) {
        Some(GlResource::Texture(texture, _)) => *texture,
        other => panic!("{:?}", other),
    }
}

#[test]
fn textures_have_four_bytes_for_each_pixel() {
    for (width, height) in [(0, 0), (0, 65535), (3, 2), (65535, 1)] {
        let mut alloc = alloc_with(width, height);
        let kept = texture(&alloc);
        assert_eq!((kept.width as i32, kept.height as i32), (width, height));
        assert_eq!(data(&alloc).len() as i32, 4 * width * height);
        let task = part(0, 0, width, height.min(1));
        assert!(alloc.accepts(&task));
        let bytes = vec![1; (4 * width * height.min(1)) as usize];
        alloc.write_sub_image(&task, Some(bytes));
        assert_eq!(data(&alloc).len() as i32, 4 * width * height);
        assert_eq!(alloc.upload(&task).data.len() as i32, 4 * width * height);
    }
    let wide = alloc_with(65536, 1);
    assert_eq!((texture(&wide).width, data(&wide).len()), (0, 4 * 65536));
}

#[test]
fn a_changed_texture_gets_a_new_image() {
    let mut alloc = alloc_with(2, 1);
    assert_eq!(texture(&alloc).bindable_texture, Some(70));
    let task = part(0, 0, 1, 1);
    alloc.write_sub_image(&task, Some(vec![1, 2, 3, 4]));
    assert_eq!(texture(&alloc).bindable_texture, Some(70));
    alloc.bind_image(&task, 80);
    let expected = GlTexture { width: 2, height: 1, bindable_texture: Some(80) };
    assert_eq!(texture(&alloc), expected);
    assert_eq!(data(&alloc), vec![1, 2, 3, 4, 0, 0, 0, 0]);
}
