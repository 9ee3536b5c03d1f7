use raytracer::display::Draw;
use raytracer::render::{render, ProgressiveRender, RenderError, IMAGE_HEIGHT, IMAGE_WIDTH};

fn gradient(x: u32, t: u32) -> [u8; 3] {
    [x as u8 * 10, t as u8 * 20, 7]
}

#[test]
fn render_flips_rows_so_the_top_row_is_the_highest_screen_row() {
    let f = render(3, 2, gradient).unwrap();
    assert_eq!(f.width(), 3);
    assert_eq!(f.height(), 2);
    assert_eq!(
        f.as_bytes().clone(),
        vec![
            0, 20, 7, 10, 20, 7, 20, 20, 7, // image row 0 shows screen row 1
            0, 0, 7, 10, 0, 7, 20, 0, 7, // image row 1 shows screen row 0
        ]
    );
}

#[test]
fn render_refuses_a_size_below_two_by_two() {
    for (w, h) in [(0, 0), (5, 0), (0, 5), (1, 5), (5, 1), (1, 1)] {
        assert_eq!(render(w, h, gradient).err(), Some(RenderError::DegenerateSize));
        assert_eq!(
            ProgressiveRender::new(w, h, gradient).err(),
            Some(RenderError::DegenerateSize)
        );
    }
    assert!(render(2, 2, gradient).is_ok());
}

#[test]
fn render_refuses_a_frame_too_large_for_memory() {
    if usize::BITS == 64 {
        assert_eq!(
            render(u32::MAX, u32::MAX, gradient).err(),
            Some(RenderError::TooLarge)
        );
        assert_eq!(
            ProgressiveRender::new(u32::MAX, u32::MAX, gradient).err(),
            Some(RenderError::TooLarge)
        );
    }
}

#[test]
fn progressive_snapshots_fill_rows_from_the_top() {
    let mut p = ProgressiveRender::new(2, 3, gradient).unwrap();
    assert_eq!(p.rows_done(), 0);
    assert!(!p.is_finished());
    assert_eq!(p.snapshot().as_bytes().clone(), vec![0u8; 18]);

    assert!(p.render_next_row());
    assert_eq!(p.rows_done(), 1);
    assert_eq!(
        p.snapshot().as_bytes().clone(),
        vec![0, 40, 7, 10, 40, 7, 0, 0, 0, 0, 0, 0, 0, 0, 0, 0, 0, 0]
    );

    assert!(p.render_next_row());
    assert_eq!(
        p.snapshot().as_bytes().clone(),
        vec![0, 40, 7, 10, 40, 7, 0, 20, 7, 10, 20, 7, 0, 0, 0, 0, 0, 0]
    );

    assert!(p.render_next_row());
    assert!(p.is_finished());
    assert!(!p.render_next_row());
    assert_eq!(p.rows_done(), 3);
}

#[test]
fn progressive_final_snapshot_equals_synchronous_render() {
    let shade = |x: u32, t: u32| -> [u8; 3] {
        [(x * 7 % 256) as u8, (t * 13 % 256) as u8, ((x + t) % 256) as u8]
    };
    let (w, h) = (17, 9);
    let mut p = ProgressiveRender::new(w, h, shade).unwrap();
    let mut last = p.snapshot();
    while p.render_next_row() {
        last = p.snapshot();
    }
    assert_eq!(p.width(), w);
    assert_eq!(p.height(), h);
    let synchronous = render(w, h, shade).unwrap().as_bytes().clone();
    assert_eq!(last.as_bytes().clone(), synchronous);
    assert_eq!(p.into_frame().as_bytes().clone(), synchronous);
}

#[test]
fn uniform_shading_shows_the_background_everywhere() {
    // a sky whose colour depends on the screen row alone
    let sky = |_x: u32, t: u32| -> [u8; 3] { [255 - t as u8, 255 - t as u8, 255] };
    let (w, h) = (4, 3);
    let bytes = render(w, h, sky).unwrap().as_bytes().clone();
    for y in 0..h {
        for x in 0..w {
            let at = (3 * (y * w + x)) as usize;
            assert_eq!(&bytes[at..at + 3], &sky(x, h - 1 - y)[..]);
        }
    }
}

#[test]
fn default_image_size() {
    assert_eq!(IMAGE_WIDTH, 1920);
    assert_eq!(IMAGE_HEIGHT, 1080);
}

#[test]
fn rgb_to_vec_of_a_rendered_frame_follows_row_order() {
    let f = render(2, 2, gradient).unwrap();
    let packed = Draw::new().rgb_to_vec(f);
    assert_eq!(packed, vec![0x0000_1407, 0x000a_1407, 0x0000_0007, 0x000a_0007]);
}

#[test]
fn rgb_to_vec_packs_each_pixel_as_0rgb() {
    let f = render(2, 2, |x: u32, _t: u32| -> [u8; 3] {
        if x == 0 {
            [0x12, 0x34, 0x56]
        } else {
            [255, 255, 255]
        }
    })
    .unwrap();
    let packed = Draw::new().rgb_to_vec(f);
    assert_eq!(packed, vec![0x0012_3456, 0x00ff_ffff, 0x0012_3456, 0x00ff_ffff]);
    assert_eq!(packed[0], u32::from_be_bytes([0, 0x12, 0x34, 0x56]));
}
