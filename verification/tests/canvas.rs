use mkframe::gpu::{padded_row_bytes, unpad_rows_bgra};
use mkframe::render::{frame_size, pixmap_len, plan_frame, scale_channel};
use mkframe::text::aligned_origin;
use mkframe::widget::{stack_child_bounds, stack_child_constraints, stack_size};
use mkframe::{
    BufferPool, Canvas, Color, Constraints, HAlign, LeafId, Rect, Renderer, RendererBackend,
    Rgba, Size, SplitDirection, VAlign, WidgetId,
};

#[test]
fn finalize_swaps_red_and_blue_of_whole_pixels() {
    let mut data = vec![1u8, 2, 3, 4, 5, 6, 7, 8, 9, 10];
    {
        let mut canvas = Canvas::new(&mut data, 2, 1);
        assert_eq!(canvas.width(), 2);
        assert_eq!(canvas.height(), 1);
        assert_eq!(canvas.data(), &[1u8, 2, 3, 4, 5, 6, 7, 8, 9, 10][..]);
        canvas.finalize_for_wayland();
        assert_eq!(canvas.data(), &[3u8, 2, 1, 4, 7, 6, 5, 8, 9, 10][..]);
    }
    assert_eq!(data, vec![3u8, 2, 1, 4, 7, 6, 5, 8, 9, 10]);
    let mut short = vec![1u8, 2, 3];
    Canvas::new(&mut short, 1, 1).finalize_for_wayland();
    assert_eq!(short, vec![1u8, 2, 3]);
    let mut empty: Vec<u8> = Vec::new();
    Canvas::new(&mut empty, 0, 0).finalize_for_wayland();
    assert!(empty.is_empty());
}

#[test]
fn data_mut_writes_through() {
    let mut data = vec![0u8; 8];
    {
        let mut canvas = Canvas::new(&mut data, 2, 1);
        canvas.data_mut()[5] = 9;
        assert_eq!(canvas.data()[5], 9);
        let buffer = canvas.finish();
        assert_eq!(buffer[5], 9);
        buffer[6] = 7;
    }
    assert_eq!(data, vec![0u8, 0, 0, 0, 0, 9, 7, 0]);
}

#[test]
fn premultiply_is_what_single_precision_arithmetic_gives() {
    for a in 0..=255u8 {
        let alpha = a as f32 / 255.0;
        for c in 0..=255u8 {
            assert_eq!(scale_channel(c, a), (c as f32 * alpha) as u8, "c={} a={}", c, a);
        }
    }
    assert_eq!(scale_channel(255, 255), 255);
    assert_eq!(scale_channel(200, 128), 100);
    assert_eq!(scale_channel(1, 254), 0);
}

#[test]
fn premultiplied_pixels_come_out_as_blue_green_red_alpha() {
    let rgba = [255u8, 128, 64, 255, 100, 50, 200, 128, 9, 9, 9, 0];
    assert_eq!(
        Canvas::rgba_to_premultiplied_argb(&rgba),
        vec![64u8, 128, 255, 255, 100, 25, 50, 128, 0, 0, 0, 0]
    );
    assert!(Canvas::rgba_to_premultiplied_argb(&[]).is_empty());
}

#[test]
fn clear_fills_every_pixel() {
    let mut data = vec![7u8; 16];
    {
        let mut canvas = Canvas::new(&mut data, 2, 2);
        assert!(canvas.is_paintable());
        canvas.clear(Color::from_rgba8(255, 0, 0, 255));
    }
    assert_eq!(data, [255u8, 0, 0, 255].repeat(4));
    {
        let mut canvas = Canvas::new(&mut data, 2, 2);
        canvas.clear(Rgba::rgb(0, 0, 255).to_color());
    }
    assert_eq!(data, [0u8, 0, 255, 255].repeat(4));
    {
        let mut canvas = Canvas::new(&mut data, 2, 2);
        canvas.clear(Rgba::new(0, 0, 0, 0).to_color());
    }
    assert_eq!(data, vec![0u8; 16]);
}

#[test]
fn clear_leaves_a_buffer_that_is_no_pixmap() {
    // Too short for the size.
    let mut data = vec![7u8; 12];
    Canvas::new(&mut data, 2, 2).clear(Color::WHITE);
    assert_eq!(data, vec![7u8; 12]);
    // A side of zero.
    let mut data = vec![7u8; 16];
    Canvas::new(&mut data, 0, 2).clear(Color::WHITE);
    assert_eq!(data, vec![7u8; 16]);
    // Not made of whole pixels.
    let mut data = vec![7u8; 18];
    assert!(!Canvas::new(&mut data, 2, 2).is_paintable());
    Canvas::new(&mut data, 2, 2).clear(Color::WHITE);
    assert_eq!(data, vec![7u8; 18]);
}

#[test]
fn draw_rgba_blends_inside_its_rectangle_only() {
    let mut data = vec![0u8; 4 * 4 * 4];
    let image = [10u8, 20, 30, 255, 40, 50, 60, 255];
    Canvas::new(&mut data, 4, 4).draw_rgba(1, 2, 2, 1, &image);
    for row in 0..4usize {
        for column in 0..4usize {
            let at = (row * 4 + column) * 4;
            let pixel = &data[at..at + 4];
            if row == 2 && column == 1 {
                assert_eq!(pixel, &[30u8, 20, 10, 255]);
            } else if row == 2 && column == 2 {
                assert_eq!(pixel, &[60u8, 50, 40, 255]);
            } else {
                assert_eq!(pixel, &[0u8, 0, 0, 0]);
            }
        }
    }
    // Partly outside the canvas: what is inside is drawn.
    let mut data = vec![0u8; 2 * 2 * 4];
    Canvas::new(&mut data, 2, 2).draw_rgba(1, 1, 2, 1, &image);
    assert_eq!(&data[..12], &[0u8; 12]);
    assert_eq!(&data[12..], &[30u8, 20, 10, 255]);
    // A transparent image changes nothing.
    let mut data = vec![9u8; 16];
    Canvas::new(&mut data, 2, 2).draw_rgba(0, 0, 1, 1, &[1, 2, 3, 0]);
    assert_eq!(data, vec![9u8; 16]);
}

#[test]
fn draw_rgba_draws_nothing_on_bad_input() {
    let image = [255u8; 8];
    let mut data = vec![0u8; 16];
    // The data is not the image's pixels.
    Canvas::new(&mut data, 2, 2).draw_rgba(0, 0, 1, 1, &image);
    Canvas::new(&mut data, 2, 2).draw_rgba(0, 0, 3, 1, &image);
    // An empty image.
    Canvas::new(&mut data, 2, 2).draw_rgba(0, 0, 0, 2, &[]);
    Canvas::new(&mut data, 2, 2).draw_rgba(0, 0, 2, 0, &[]);
    // The far edge lies beyond the largest coordinate.
    Canvas::new(&mut data, 2, 2).draw_rgba(i32::MAX, 0, 2, 1, &image);
    Canvas::new(&mut data, 2, 2).draw_rgba(0, i32::MAX - 1, 1, 2, &image);
    // Far outside, but within range.
    Canvas::new(&mut data, 2, 2).draw_rgba(i32::MAX - 2, 0, 2, 1, &image);
    Canvas::new(&mut data, 2, 2).draw_rgba(-5, -5, 2, 1, &image);
    assert_eq!(data, vec![0u8; 16]);
    // The canvas is no pixmap.
    let mut data = vec![0u8; 15];
    Canvas::new(&mut data, 2, 2).draw_rgba(0, 0, 2, 1, &image);
    assert_eq!(data, vec![0u8; 15]);
}

#[test]
fn pixmap_sizes() {
    assert_eq!(pixmap_len(1, 1), Some(4));
    assert_eq!(pixmap_len(800, 600), Some(1_920_000));
    assert_eq!(pixmap_len(0, 5), None);
    assert_eq!(pixmap_len(5, 0), None);
    assert_eq!(pixmap_len(0x1fff_ffff, 1), Some(0x7fff_fffc));
    assert_eq!(pixmap_len(0x2000_0000, 1), None);
}

#[test]
fn frame_sizes_and_plans() {
    assert_eq!(frame_size(800, 600), Some(1_920_000));
    assert_eq!(frame_size(0, 600), None);
    assert_eq!(frame_size(600, 0), None);
    assert_eq!(frame_size(0x1fff_ffff, 1), Some(0x7fff_fffc));
    assert_eq!(frame_size(1, 0x2000_0000), None);
    assert_eq!(frame_size(u32::MAX, u32::MAX), None);

    let mut pool = BufferPool::new(100);
    assert_eq!(pool.len(), 100);
    assert!(!pool.reserve(100));
    assert!(pool.reserve(101));
    assert_eq!(pool.len(), 101);
    assert!(!pool.reserve(5));
    assert_eq!(pool.len(), 101);
    let plan = plan_frame(3, 10, 10, &mut pool).unwrap();
    assert_eq!((plan.surface, plan.width, plan.height, plan.stride), (3, 10, 10, 40));
    assert_eq!((plan.buffer_size, plan.grow_pool_to), (400, Some(400)));
    assert_eq!(pool.len(), 400);
    assert_eq!(plan_frame(3, 0, 10, &mut pool), None);
    assert_eq!(pool.len(), 400);
}

#[test]
fn colors() {
    assert_eq!(Rgba::new(1, 2, 3, 4), Rgba { r: 1, g: 2, b: 3, a: 4 });
    assert_eq!(Rgba::rgb(1, 2, 3), Rgba { r: 1, g: 2, b: 3, a: 255 });
    let color = Rgba::new(255, 0, 51, 255).to_color();
    assert_eq!(color, Color::from_rgba8(255, 0, 51, 255));
    assert_eq!(color.red(), 1.0);
    assert_eq!(color.green(), 0.0);
    assert_eq!(color.blue(), 0.2);
    assert_eq!(color.alpha(), 1.0);
    assert!(Rgba::new(1, 2, 3, 4).to_color() != Rgba::new(4, 3, 2, 1).to_color());
    assert_eq!(Rgba::black(), Rgba::rgb(0, 0, 0));
    assert_eq!(Rgba::white(), Rgba::rgb(255, 255, 255));
    assert_eq!(Rgba::red(), Rgba::rgb(255, 0, 0));
    assert_eq!(Rgba::green(), Rgba::rgb(0, 255, 0));
    assert_eq!(Rgba::blue(), Rgba::rgb(0, 0, 255));
    assert_eq!(Rgba::transparent(), Rgba::new(0, 0, 0, 0));
}

#[test]
fn rectangles_and_constraints() {
    let rect = Rect::new(10, 20, 30, 40);
    assert_eq!(rect, Rect { x: 10, y: 20, width: 30, height: 40 });
    assert!(rect.contains(10, 20));
    assert!(rect.contains(39, 59));
    assert!(!rect.contains(40, 59));
    assert!(!rect.contains(39, 60));
    assert!(!rect.contains(9, 20));
    assert!(!rect.contains(10, 19));
    assert!(!Rect::default().contains(0, 0));
    assert_eq!(Rect::default(), Rect::new(0, 0, 0, 0));
    // No overflow at the far corner of the plane.
    let far = Rect::new(i32::MAX - 1, i32::MIN, u32::MAX, u32::MAX);
    assert!(far.contains(i32::MAX, i32::MAX - 1));
    assert!(!far.contains(i32::MAX - 2, 0));
    let negative = Rect::new(-10, -10, 5, 5);
    assert!(negative.contains(-6, -6));
    assert!(!negative.contains(-5, -5));

    let tight = Constraints::tight(3, 4);
    assert_eq!(
        (tight.min_width, tight.max_width, tight.min_height, tight.max_height),
        (3, 3, 4, 4)
    );
    let loose = Constraints::loose(3, 4);
    assert_eq!(
        (loose.min_width, loose.max_width, loose.min_height, loose.max_height),
        (0, 3, 0, 4)
    );
    let zero = Constraints::default();
    assert_eq!((zero.min_width, zero.max_width, zero.min_height, zero.max_height), (0, 0, 0, 0));
    let size = Size::new(7, 8);
    assert_eq!((size.width, size.height), (7, 8));
    assert_eq!((Size::default().width, Size::default().height), (0, 0));
    assert_eq!(WidgetId(3), WidgetId(3));
    assert_ne!(WidgetId(3), WidgetId(4));
}

#[test]
fn small_enums() {
    assert_eq!(HAlign::default(), HAlign::Left);
    assert_eq!(VAlign::default(), VAlign::Center);
    assert_ne!(HAlign::Center, HAlign::Right);
    assert_ne!(VAlign::Top, VAlign::Bottom);
    assert_eq!(LeafId(2), LeafId(2));
    assert_ne!(SplitDirection::Horizontal, SplitDirection::Vertical);
    let renderer = Renderer::new();
    assert_eq!(renderer.backend(), RendererBackend::Software);
    assert!(!renderer.is_gpu());
    assert_eq!(Renderer::new_software().backend(), RendererBackend::Software);
    assert!(!Renderer::default().is_gpu());
    assert!(Renderer::select(true).is_gpu());
    assert_eq!(Renderer::select(true).backend(), RendererBackend::Gpu);
    assert_eq!(Renderer::select(false).backend(), RendererBackend::Software);
    assert_ne!(RendererBackend::Gpu, RendererBackend::Software);
}

#[test]
fn stack_is_as_wide_as_its_widest_child_and_as_high_as_all() {
    let sizes = [Size::new(30, 10), Size::new(50, 20), Size::new(40, 5)];
    let loose = Constraints::loose(1000, 1000);
    assert_eq!(stack_size(&sizes, 0, loose), Size::new(50, 35));
    assert_eq!(stack_size(&sizes, 4, loose), Size::new(50, 43));
    assert_eq!(stack_size(&sizes[..1], 4, loose), Size::new(30, 10));
    assert_eq!(stack_size(&[], 4, loose), Size::new(0, 0));
    // Held to the constraints.
    assert_eq!(stack_size(&sizes, 4, Constraints::tight(45, 40)), Size::new(45, 40));
    let narrow = Constraints { min_width: 60, max_width: 70, min_height: 50, max_height: 90 };
    assert_eq!(stack_size(&sizes, 4, narrow), Size::new(60, 50));
    assert_eq!(stack_size(&[], 4, narrow), Size::new(60, 50));
    // No overflow with heights that do not fit.
    let tall = [Size::new(1, u32::MAX), Size::new(2, u32::MAX)];
    let any = Constraints::loose(u32::MAX, u32::MAX);
    assert_eq!(stack_size(&tall, u32::MAX, any), Size::new(2, u32::MAX));
    assert_eq!(stack_size(&tall, 1, Constraints::loose(1, 7)), Size::new(1, 7));
    let child = stack_child_constraints(narrow);
    assert_eq!(
        (child.min_width, child.max_width, child.min_height, child.max_height),
        (60, 70, 0, 90)
    );
}

#[test]
fn stack_children_come_one_below_the_other() {
    let sizes = [Size::new(30, 10), Size::new(50, 20), Size::new(40, 5)];
    let areas = stack_child_bounds(Rect::new(7, -3, 100, 100), &sizes, 4);
    assert_eq!(
        areas,
        vec![Rect::new(7, -3, 30, 10), Rect::new(7, 11, 50, 20), Rect::new(7, 35, 40, 5)]
    );
    assert!(stack_child_bounds(Rect::new(7, -3, 100, 100), &[], 4).is_empty());
    // Edges beyond the coordinate range are held to its end.
    let tall = [Size::new(1, 0x7fff_fff0), Size::new(1, 1), Size::new(1, 1)];
    let areas = stack_child_bounds(Rect::new(0, 0, 1, 1), &tall, 100);
    assert_eq!(areas[1].y, i32::MAX);
    assert_eq!(areas[2].y, i32::MAX);
}

#[test]
fn text_is_aligned_within_its_rectangle() {
    let rect = Rect::new(10, 20, 100, 50);
    assert_eq!(aligned_origin(rect, 40, 10, HAlign::Left, VAlign::Top), (10, 20));
    assert_eq!(aligned_origin(rect, 40, 10, HAlign::Center, VAlign::Center), (40, 40));
    assert_eq!(aligned_origin(rect, 40, 10, HAlign::Right, VAlign::Bottom), (70, 60));
    // Text that is larger than the rectangle sticks out on both sides; halves round
    // toward zero.
    assert_eq!(aligned_origin(rect, 103, 53, HAlign::Center, VAlign::Center), (9, 19));
    assert_eq!(aligned_origin(rect, 103, 53, HAlign::Right, VAlign::Bottom), (7, 17));
    assert_eq!(aligned_origin(rect, 97, 47, HAlign::Center, VAlign::Center), (11, 21));
    // Held to the coordinate range.
    let far = Rect::new(i32::MAX, i32::MIN, 10, 10);
    assert_eq!(aligned_origin(far, 0, 100, HAlign::Right, VAlign::Bottom), (i32::MAX, i32::MIN));
    assert_eq!(aligned_origin(far, i32::MIN, i32::MAX, HAlign::Left, VAlign::Top), (i32::MAX, i32::MIN));
}

#[test]
fn readback_rows_are_unpadded_and_turned_to_bgra() {
    assert_eq!(padded_row_bytes(0), 0);
    assert_eq!(padded_row_bytes(1), 256);
    assert_eq!(padded_row_bytes(64), 256);
    assert_eq!(padded_row_bytes(65), 512);
    assert_eq!(padded_row_bytes(u32::MAX), 17_179_869_184);

    // Two rows of two pixels, each row padded to ten bytes.
    let source = [
        1u8, 2, 3, 4, 5, 6, 7, 8, 0xee, 0xee, //
        11, 12, 13, 14, 15, 16, 17, 18, 0xee, 0xee,
    ];
    let mut output = [0xaau8; 18];
    unpad_rows_bgra(&source, 10, 2, 2, &mut output);
    assert_eq!(
        output,
        [3u8, 2, 1, 4, 7, 6, 5, 8, 13, 12, 11, 14, 17, 16, 15, 18, 0xaa, 0xaa]
    );
    let mut untouched = [9u8; 4];
    unpad_rows_bgra(&source, 10, 0, 2, &mut untouched);
    unpad_rows_bgra(&source, 10, 2, 0, &mut untouched);
    assert_eq!(untouched, [9u8; 4]);
}

#[test]
fn drawing_the_same_image_twice_gives_the_same_bytes() {
    let image = [200u8, 100, 50, 128, 10, 20, 30, 77, 255, 255, 255, 1, 0, 0, 0, 254];
    let background: Vec<u8> = (0..64u32).map(|i| (i * 37 % 251) as u8).collect();
    let mut first = background.clone();
    let mut second = background.clone();
    Canvas::new(&mut first, 4, 4).draw_rgba(1, 1, 2, 2, &image);
    Canvas::new(&mut second, 4, 4).draw_rgba(1, 1, 2, 2, &image);
    assert_eq!(first, second);
    assert_ne!(first, background);
    // Another place gives other bytes.
    let mut third = background.clone();
    Canvas::new(&mut third, 4, 4).draw_rgba(2, 1, 2, 2, &image);
    assert_ne!(first, third);
    assert_eq!(Rgba::new(9, 8, 7, 6).to_color(), Rgba::new(9, 8, 7, 6).to_color());
}

#[test]
fn image_over_the_left_edge_is_not_claimed_to_stay_in_its_rectangle() {
    // The drawing library rounds a negative edge toward zero: the image is painted one
    // pixel to the right of where it was asked for, and its last column is repeated.
    let image = [1u8, 2, 3, 255, 4, 5, 6, 255];
    let mut data = vec![0u8; 16];
    Canvas::new(&mut data, 4, 1).draw_rgba(-1, 0, 2, 1, &image);
    assert_eq!(&data[..8], &[6u8, 5, 4, 255, 6, 5, 4, 255]);
    assert_eq!(&data[8..], &[0u8; 8]);
    // At a corner that is not negative the image stays in its rectangle.
    let mut data = vec![0u8; 16];
    Canvas::new(&mut data, 4, 1).draw_rgba(0, 0, 2, 1, &image);
    assert_eq!(&data[..8], &[3u8, 2, 1, 255, 6, 5, 4, 255]);
    assert_eq!(&data[8..], &[0u8; 8]);
}
