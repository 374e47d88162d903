use moros_core::gpu::{
    cursor_data, draw_image, draw_square, flush_display, get_resolution, init_and_setup_gpu,
    move_pointer, move_square, set_pointer, with_framebuffer_do, Gpu, GpuPhase, MemoryGpuBackend,
    MorosPciConfigAccess, CURSOR_HEIGHT, CURSOR_WIDTH, GPU_DEVICE_ID, GPU_VENDOR_ID,
};
use moros_core::pci::DeviceConfig;

fn ready_gpu(w: u32, h: u32) -> Gpu<MemoryGpuBackend> {
    Gpu {
        phase: GpuPhase::Ready,
        backend: Some(MemoryGpuBackend::new(w, h)),
        width: w,
        height: h,
        framebuffer: vec![0u8; (w * h * 4) as usize],
    }
}

fn gpu_device() -> DeviceConfig {
    let reg_id = ((GPU_DEVICE_ID as u32) << 16) | GPU_VENDOR_ID as u32;
    DeviceConfig::new(0, 3, 0, reg_id, 0, 0, 0, [0; 6])
}

fn pixel(fb: &[u8], fb_w: u32, px: u32, py: u32) -> [u8; 4] {
    let off = ((py * fb_w + px) * 4) as usize;
    [fb[off], fb[off + 1], fb[off + 2], fb[off + 3]]
}

#[test]
fn bring_up_reaches_ready_with_a_working_backend() {
    let mut gpu: Gpu<MemoryGpuBackend> = Gpu::new();
    assert!(init_and_setup_gpu(
        &mut gpu,
        Some(gpu_device()),
        Some(MemoryGpuBackend::new(640, 480))
    ));
    assert_eq!(get_resolution(&gpu), Some((640, 480)));
    assert_eq!(gpu.framebuffer.len(), 640 * 480 * 4);
    assert!(flush_display(&mut gpu));
}

#[test]
fn bring_up_fails_without_a_device_or_driver() {
    let mut gpu: Gpu<MemoryGpuBackend> = Gpu::new();
    assert!(!init_and_setup_gpu(&mut gpu, None, Some(MemoryGpuBackend::new(640, 480))));
    assert_eq!(gpu.phase, GpuPhase::Failed);
    assert_eq!(get_resolution(&gpu), None);

    let mut gpu: Gpu<MemoryGpuBackend> = Gpu::new();
    assert!(!init_and_setup_gpu(&mut gpu, Some(gpu_device()), None));
    assert_eq!(gpu.phase, GpuPhase::Failed);
    // Drawing against a failed session writes nothing and fails.
    assert!(!flush_display(&mut gpu));
    assert!(!draw_square(&mut gpu, 0, 0, 0xFF00_0000));
}

#[test]
fn set_pointer_rejects_wrong_length_and_out_of_range_hotspot() {
    let mut gpu = ready_gpu(640, 480);
    // A 64x64 cursor needs 16384 bytes; 100 are rejected.
    let short = vec![0u8; 100];
    assert!(!set_pointer(&mut gpu, &short, CURSOR_WIDTH, CURSOR_HEIGHT, 0, 0));
    // A hotspot at the width itself lies outside the cursor.
    let image = vec![0u8; (CURSOR_WIDTH * CURSOR_HEIGHT * 4) as usize];
    assert!(!set_pointer(&mut gpu, &image, CURSOR_WIDTH, CURSOR_HEIGHT, 64, 0));
    assert!(!set_pointer(&mut gpu, &image, CURSOR_WIDTH, CURSOR_HEIGHT, 0, 64));
    // A correctly sized image with an interior hotspot goes through.
    assert!(set_pointer(&mut gpu, &image, CURSOR_WIDTH, CURSOR_HEIGHT, 32, 32));
}

#[test]
fn move_pointer_allows_the_boundary_and_rejects_beyond() {
    let mut gpu = ready_gpu(640, 480);
    assert!(move_pointer(&mut gpu, 0, 0));
    // The boundary itself is allowed, a documented quirk.
    assert!(move_pointer(&mut gpu, 640, 480));
    assert!(!move_pointer(&mut gpu, 641, 480));
    assert!(!move_pointer(&mut gpu, 640, 481));
}

#[test]
fn draw_square_off_screen_writes_nothing_and_fails() {
    let mut gpu = ready_gpu(32, 24);
    let before = gpu.framebuffer.clone();
    assert!(!draw_square(&mut gpu, 32, 0, 0xFFFF_FFFF));
    assert_eq!(gpu.framebuffer, before);
    assert!(!draw_square(&mut gpu, 0, 24, 0xFFFF_FFFF));
    assert_eq!(gpu.framebuffer, before);
}

#[test]
fn draw_square_converts_the_color_and_clips_at_the_edges() {
    let mut gpu = ready_gpu(4, 4);
    // Corner inside, square clipped to the visible 2x2 part.
    assert!(draw_square(&mut gpu, 2, 2, 0x1122_3344));
    let fb = &gpu.framebuffer;
    // 0xAARRGGBB written as blue, green, red, alpha.
    assert_eq!(pixel(fb, 4, 2, 2), [0x44, 0x33, 0x22, 0x11]);
    assert_eq!(pixel(fb, 4, 3, 2), [0x44, 0x33, 0x22, 0x11]);
    assert_eq!(pixel(fb, 4, 2, 3), [0x44, 0x33, 0x22, 0x11]);
    assert_eq!(pixel(fb, 4, 3, 3), [0x44, 0x33, 0x22, 0x11]);
    // Everything left of and above the square is untouched.
    assert_eq!(pixel(fb, 4, 1, 1), [0, 0, 0, 0]);
    assert_eq!(pixel(fb, 4, 0, 3), [0, 0, 0, 0]);
    assert_eq!(pixel(fb, 4, 3, 1), [0, 0, 0, 0]);
}

#[test]
fn draw_image_clips_to_the_visible_region() {
    // A 100x100 source placed 10 pixels from the bottom-right corner:
    // only its top-left 10x10 part is visible.
    let (w, h) = (16u32, 16u32);
    let mut gpu = ready_gpu(w, h);
    let image: Vec<Vec<u32>> = vec![vec![0xFF11_2233u32; 100]; 100];
    let before_len = gpu.framebuffer.len();
    assert!(draw_image(&mut gpu, &image, w - 10, h - 10));
    assert_eq!(gpu.framebuffer.len(), before_len);
    for py in 0..h {
        for px in 0..w {
            let expected = if px >= w - 10 && py >= h - 10 {
                [0x33, 0x22, 0x11, 0xFF]
            } else {
                [0, 0, 0, 0]
            };
            assert_eq!(pixel(&gpu.framebuffer, w, px, py), expected, "pixel ({px},{py})");
        }
    }
}

#[test]
fn draw_image_rejects_empty_images_and_off_screen_corners() {
    let mut gpu = ready_gpu(16, 16);
    let before = gpu.framebuffer.clone();
    let empty: Vec<Vec<u32>> = Vec::new();
    assert!(!draw_image(&mut gpu, &empty, 0, 0));
    let empty_rows: Vec<Vec<u32>> = vec![Vec::new(); 3];
    assert!(!draw_image(&mut gpu, &empty_rows, 0, 0));
    let image: Vec<Vec<u32>> = vec![vec![0xFFFF_FFFFu32; 4]; 4];
    assert!(!draw_image(&mut gpu, &image, 16, 0));
    assert!(!draw_image(&mut gpu, &image, 0, 16));
    assert_eq!(gpu.framebuffer, before);
}

#[test]
fn with_framebuffer_do_passes_the_buffer_and_resolution() {
    let mut gpu = ready_gpu(8, 8);
    let ok = with_framebuffer_do(&mut gpu, |fb: Vec<u8>, w: u32, h: u32| {
        assert_eq!(w, 8);
        assert_eq!(h, 8);
        let mut fb = fb;
        fb[0] = 0x7F;
        fb
    });
    assert!(ok);
    assert_eq!(gpu.framebuffer[0], 0x7F);

    // A session that is not ready refuses access and changes nothing.
    let mut gpu: Gpu<MemoryGpuBackend> = Gpu::new();
    let ok = with_framebuffer_do(&mut gpu, |fb: Vec<u8>, _w: u32, _h: u32| fb);
    assert!(!ok);
}

#[test]
fn cursor_image_is_transparent_with_a_centred_white_square() {
    let data = cursor_data();
    assert_eq!(data.len(), (CURSOR_WIDTH * CURSOR_HEIGHT * 4) as usize);
    // The small white square occupies pixels 28..36 in both axes.
    assert_eq!(pixel(&data, CURSOR_WIDTH, 28, 28), [0xFF, 0xFF, 0xFF, 0xFF]);
    assert_eq!(pixel(&data, CURSOR_WIDTH, 35, 35), [0xFF, 0xFF, 0xFF, 0xFF]);
    assert_eq!(pixel(&data, CURSOR_WIDTH, 27, 28), [0, 0, 0, 0]);
    assert_eq!(pixel(&data, CURSOR_WIDTH, 36, 36), [0, 0, 0, 0]);
    assert_eq!(pixel(&data, CURSOR_WIDTH, 0, 0), [0, 0, 0, 0]);
    assert_eq!(pixel(&data, CURSOR_WIDTH, 63, 63), [0, 0, 0, 0]);
}

#[test]
fn square_movement_clamps_to_the_screen() {
    // Up and left clamp at zero.
    assert_eq!(move_square('w', 10, 4, 640, 480), (10, 0));
    assert_eq!(move_square('a', 4, 10, 640, 480), (0, 10));
    // Down and right clamp so the square stays fully visible.
    assert_eq!(move_square('s', 10, 470, 640, 480), (10, 472));
    assert_eq!(move_square('s', 10, 472, 640, 480), (10, 472));
    assert_eq!(move_square('d', 630, 10, 640, 480), (632, 10));
    // Space recentres.
    assert_eq!(move_square(' ', 5, 5, 640, 480), (316, 236));
    // Uppercase works the same; other keys leave the square in place.
    assert_eq!(move_square('W', 10, 20, 640, 480), (10, 12));
    assert_eq!(move_square('q', 10, 20, 640, 480), (10, 20));
}

#[test]
fn pci_access_handle_keeps_its_address() {
    let access = MorosPciConfigAccess::new(0, 3, 0);
    assert_eq!(access.bus, 0);
    assert_eq!(access.device, 3);
    assert_eq!(access.function, 0);
}
