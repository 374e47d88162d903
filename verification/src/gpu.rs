//! GPU orchestration: device discovery, transport and driver bring-up as a
//! forward-only phase machine, and the pixel-level drawing and hardware
//! cursor operations on the framebuffer.
//!
//! The display backend (the transport/driver pair) is a collaborator behind
//! the [`GpuBackend`] trait: the orchestration decisions and every byte
//! written into the framebuffer are verified here, while what the device
//! itself answers stays the backend's business. Colors come in as packed
//! `0xAARRGGBB` words and are written out in the device's
//! blue-green-red-alpha byte order.

use vstd::prelude::*;

verus! {

use crate::pci::DeviceConfig;

/// Fixed width of the hardware cursor image, in pixels.
pub const CURSOR_WIDTH: u32 = 64;

/// Fixed height of the hardware cursor image, in pixels.
pub const CURSOR_HEIGHT: u32 = 64;

/// The display device's PCI vendor id.
pub const GPU_VENDOR_ID: u16 = 0x1AF4;

/// The display device's PCI device id.
pub const GPU_DEVICE_ID: u16 = 0x1050;

/// Handle describing which PCI function the display transport talks to;
/// the configuration-space reads and writes themselves happen at the port
/// layer outside this crate.
#[derive(Clone, Copy, PartialEq, Eq, Structural, Debug)]
pub struct MorosPciConfigAccess {
    pub bus: u8,
    pub device: u8,
    pub function: u8,
}

impl MorosPciConfigAccess {
    /// A handle for the given bus/device/function address.
    pub fn new(bus: u8, device: u8, function: u8) -> (r: Self)
        ensures
            r.bus == bus,
            r.device == device,
            r.function == function,
    {
        MorosPciConfigAccess { bus, device, function }
    }
}

/// The display session's phase. It only ever advances forward, or drops
/// into the terminal `Failed`; drawing is permitted only in `Ready`.
#[derive(Clone, Copy, PartialEq, Eq, Structural, Debug)]
pub enum GpuPhase {
    Uninitialized,
    DeviceFound,
    TransportReady,
    DriverReady,
    ResolutionKnown,
    Ready,
    Failed,
}

/// The capabilities the orchestrator needs from a display backend: query
/// the resolution, set up the framebuffer, present it, and drive the
/// hardware cursor. What each call answers is the device's business; the
/// orchestrator is verified for every possible answer.
pub trait GpuBackend: Sized {
    /// The current display resolution, if the device reports one.
    fn resolution(&mut self) -> (r: Option<(u32, u32)>);

    /// Allocates and attaches the framebuffer, returning its bytes.
    fn setup_framebuffer(&mut self) -> (r: Option<Vec<u8>>);

    /// Presents the current framebuffer contents.
    fn flush(&mut self) -> (r: bool);

    /// Uploads a cursor image (RGBA, 4 bytes per pixel) with its hotspot.
    fn setup_cursor(
        &mut self,
        cursor_image: &Vec<u8>,
        cursor_width: u32,
        cursor_height: u32,
        hot_x: u32,
        hot_y: u32,
    ) -> (r: bool);

    /// Moves the cursor to the given position.
    fn move_cursor(&mut self, pos_x: u32, pos_y: u32) -> (r: bool);
}

/// One display device session: the phase, the backend once installed, the
/// resolution once known, and the framebuffer bytes once set up.
pub struct Gpu<B: GpuBackend> {
    pub phase: GpuPhase,
    pub backend: Option<B>,
    pub width: u32,
    pub height: u32,
    pub framebuffer: Vec<u8>,
}

impl<B: GpuBackend> Gpu<B> {
    /// Drawing and cursor operations are permitted only here.
    pub open spec fn is_ready(self) -> bool {
        self.phase == GpuPhase::Ready
    }

    /// A session that has not begun bring-up.
    pub fn new() -> (r: Self)
        ensures
            r.phase == GpuPhase::Uninitialized,
            r.backend is None,
            r.width == 0,
            r.height == 0,
            r.framebuffer@.len() == 0,
    {
        Gpu {
            phase: GpuPhase::Uninitialized,
            backend: None,
            width: 0,
            height: 0,
            framebuffer: Vec::new(),
        }
    }
}

/// Records the outcome of the PCI lookup for the display device: found
/// advances to `DeviceFound`, absent is terminal failure (the kernel goes
/// on without graphics).
pub fn note_device_lookup<B: GpuBackend>(gpu: &mut Gpu<B>, found: Option<DeviceConfig>)
    requires
        old(gpu).phase == GpuPhase::Uninitialized,
    ensures
        final(gpu).phase == (if found is Some {
            GpuPhase::DeviceFound
        } else {
            GpuPhase::Failed
        }),
        final(gpu).backend == old(gpu).backend,
        final(gpu).width == old(gpu).width,
        final(gpu).height == old(gpu).height,
        final(gpu).framebuffer == old(gpu).framebuffer,
{
    if found.is_some() {
        gpu.phase = GpuPhase::DeviceFound;
    } else {
        gpu.phase = GpuPhase::Failed;
    }
}

/// Records whether the PCI transport to the found device could be
/// established and recognises a display device.
pub fn note_transport<B: GpuBackend>(gpu: &mut Gpu<B>, transport_ok: bool)
    requires
        old(gpu).phase == GpuPhase::DeviceFound,
    ensures
        final(gpu).phase == (if transport_ok {
            GpuPhase::TransportReady
        } else {
            GpuPhase::Failed
        }),
        final(gpu).backend == old(gpu).backend,
        final(gpu).width == old(gpu).width,
        final(gpu).height == old(gpu).height,
        final(gpu).framebuffer == old(gpu).framebuffer,
{
    if transport_ok {
        gpu.phase = GpuPhase::TransportReady;
    } else {
        gpu.phase = GpuPhase::Failed;
    }
}

/// Installs the constructed driver backend, or records its construction
/// failure.
pub fn install_driver<B: GpuBackend>(gpu: &mut Gpu<B>, backend: Option<B>)
    requires
        old(gpu).phase == GpuPhase::TransportReady,
    ensures
        final(gpu).phase == (if backend is Some {
            GpuPhase::DriverReady
        } else {
            GpuPhase::Failed
        }),
        backend is Some ==> final(gpu).backend == backend,
        backend is None ==> final(gpu).backend == old(gpu).backend,
        final(gpu).width == old(gpu).width,
        final(gpu).height == old(gpu).height,
        final(gpu).framebuffer == old(gpu).framebuffer,
{
    if backend.is_some() {
        gpu.backend = backend;
        gpu.phase = GpuPhase::DriverReady;
    } else {
        gpu.phase = GpuPhase::Failed;
    }
}

/// Queries the driver for the display resolution and stores it. A driver
/// that cannot answer is cleared and the session fails; the kernel goes on
/// without graphics.
pub fn query_resolution<B: GpuBackend>(gpu: &mut Gpu<B>) -> (r: Option<(u32, u32)>)
    requires
        old(gpu).phase == GpuPhase::DriverReady,
        old(gpu).backend is Some,
    ensures
        final(gpu).framebuffer == old(gpu).framebuffer,
        match r {
            Some((w, h)) => {
                &&& final(gpu).phase == GpuPhase::ResolutionKnown
                &&& final(gpu).width == w
                &&& final(gpu).height == h
                &&& final(gpu).backend is Some
            },
            None => {
                &&& final(gpu).phase == GpuPhase::Failed
                &&& final(gpu).backend is None
                &&& final(gpu).width == old(gpu).width
                &&& final(gpu).height == old(gpu).height
            },
        },
{
    let res = match &mut gpu.backend {
        Some(b) => b.resolution(),
        None => None,
    };
    match res {
        Some((w, h)) => {
            gpu.width = w;
            gpu.height = h;
            gpu.phase = GpuPhase::ResolutionKnown;
            Some((w, h))
        },
        None => {
            // Clear the driver if the resolution query fails.
            gpu.backend = None;
            gpu.phase = GpuPhase::Failed;
            None
        },
    }
}

/// Asks the driver to set up its framebuffer and stores the returned
/// bytes; success makes the session `Ready`. A driver that cannot is
/// cleared and the session fails.
pub fn setup_framebuffer_step<B: GpuBackend>(gpu: &mut Gpu<B>) -> (r: bool)
    requires
        old(gpu).phase == GpuPhase::ResolutionKnown,
        old(gpu).backend is Some,
    ensures
        final(gpu).width == old(gpu).width,
        final(gpu).height == old(gpu).height,
        r == (final(gpu).phase == GpuPhase::Ready),
        if r {
            final(gpu).backend is Some
        } else {
            final(gpu).phase == GpuPhase::Failed && final(gpu).backend is None
                && final(gpu).framebuffer == old(gpu).framebuffer
        },
{
    let fb = match &mut gpu.backend {
        Some(b) => b.setup_framebuffer(),
        None => None,
    };
    match fb {
        Some(buffer) => {
            gpu.framebuffer = buffer;
            gpu.phase = GpuPhase::Ready;
            true
        },
        None => {
            // Clear the driver if the framebuffer setup fails.
            gpu.backend = None;
            gpu.phase = GpuPhase::Failed;
            false
        },
    }
}

/// The whole bring-up in order: device discovery outcome, transport
/// outcome, driver installation, resolution query, framebuffer setup.
/// Stops at the first failing step, leaving the session in the terminal
/// `Failed` phase; only a session that went all the way is `Ready` and
/// permits drawing.
pub fn init_and_setup_gpu<B: GpuBackend>(
    gpu: &mut Gpu<B>,
    found: Option<DeviceConfig>,
    backend: Option<B>,
) -> (r: bool)
    requires
        old(gpu).phase == GpuPhase::Uninitialized,
    ensures
        r == (final(gpu).phase == GpuPhase::Ready),
        final(gpu).phase == GpuPhase::Ready || final(gpu).phase == GpuPhase::Failed,
        found is None ==> final(gpu).phase == GpuPhase::Failed,
        (found is Some && backend is None) ==> final(gpu).phase == GpuPhase::Failed,
        final(gpu).phase == GpuPhase::Ready ==> final(gpu).backend is Some,
{
    note_device_lookup(gpu, found);
    if !matches!(gpu.phase, GpuPhase::DeviceFound) {
        return false;
    }
    note_transport(gpu, backend.is_some());
    if !matches!(gpu.phase, GpuPhase::TransportReady) {
        return false;
    }
    install_driver(gpu, backend);
    if !matches!(gpu.phase, GpuPhase::DriverReady) {
        return false;
    }
    if query_resolution(gpu).is_none() {
        return false;
    }
    setup_framebuffer_step(gpu)
}

/// The current resolution, available once the session is ready and the
/// stored resolution is non-degenerate.
pub fn get_resolution<B: GpuBackend>(gpu: &Gpu<B>) -> (r: Option<(u32, u32)>)
    ensures
        r == (if gpu.is_ready() && gpu.width > 0 && gpu.height > 0 {
            Some((gpu.width, gpu.height))
        } else {
            None::<(u32, u32)>
        }),
{
    if !matches!(gpu.phase, GpuPhase::Ready) {
        return None;
    }
    let width = gpu.width;
    let height = gpu.height;
    if width > 0 && height > 0 {
        Some((width, height))
    } else {
        None
    }
}

/// Scoped framebuffer access: when the session is ready, hands the
/// framebuffer bytes and the current resolution to `op` and stores the
/// buffer `op` returns; otherwise reports failure and changes nothing.
pub fn with_framebuffer_do<B: GpuBackend, F: FnOnce(Vec<u8>, u32, u32) -> Vec<u8>>(
    gpu: &mut Gpu<B>,
    op: F,
) -> (r: bool)
    requires
        forall|v: Vec<u8>| call_requires(op, (v, old(gpu).width, old(gpu).height)),
    ensures
        r == old(gpu).is_ready(),
        final(gpu).phase == old(gpu).phase,
        final(gpu).width == old(gpu).width,
        final(gpu).height == old(gpu).height,
        final(gpu).backend == old(gpu).backend,
        !r ==> final(gpu).framebuffer == old(gpu).framebuffer,
        r ==> call_ensures(
            op,
            (old(gpu).framebuffer, old(gpu).width, old(gpu).height),
            final(gpu).framebuffer,
        ),
{
    if !matches!(gpu.phase, GpuPhase::Ready) {
        return false;
    }
    let mut buffer: Vec<u8> = Vec::new();
    core::mem::swap(&mut buffer, &mut gpu.framebuffer);
    let out = op(buffer, gpu.width, gpu.height);
    gpu.framebuffer = out;
    true
}

/// Asks the driver to present the framebuffer. Fails without touching
/// anything when the session is not ready or the driver is unexpectedly
/// gone; otherwise reports what the driver answered.
pub fn flush_display<B: GpuBackend>(gpu: &mut Gpu<B>) -> (r: bool)
    ensures
        final(gpu).phase == old(gpu).phase,
        final(gpu).width == old(gpu).width,
        final(gpu).height == old(gpu).height,
        final(gpu).framebuffer == old(gpu).framebuffer,
        !(old(gpu).is_ready() && old(gpu).backend is Some) ==> r == false,
        r ==> old(gpu).is_ready(),
{
    if !matches!(gpu.phase, GpuPhase::Ready) {
        return false;
    }
    match &mut gpu.backend {
        Some(b) => b.flush(),
        None => false,
    }
}

/// Whether a cursor image of the claimed dimensions has exactly 4 bytes
/// per pixel.
pub open spec fn cursor_image_len_ok(len: int, w: u32, h: u32) -> bool {
    len == w * h * 4
}

/// Uploads a cursor shape with its hotspot. The image must be exactly
/// `width * height * 4` bytes and the hotspot must lie inside the image;
/// either violation, or a session that is not ready, is reported as
/// failure without forwarding anything to the device.
pub fn set_pointer<B: GpuBackend>(
    gpu: &mut Gpu<B>,
    cursor_image: &Vec<u8>,
    cursor_width: u32,
    cursor_height: u32,
    hot_x: u32,
    hot_y: u32,
) -> (r: bool)
    ensures
        final(gpu).phase == old(gpu).phase,
        final(gpu).width == old(gpu).width,
        final(gpu).height == old(gpu).height,
        final(gpu).framebuffer == old(gpu).framebuffer,
        !old(gpu).is_ready() ==> r == false,
        !cursor_image_len_ok(cursor_image@.len() as int, cursor_width, cursor_height) ==> r
            == false,
        (hot_x >= cursor_width || hot_y >= cursor_height) ==> r == false,
        r ==> (old(gpu).is_ready() && cursor_image_len_ok(
            cursor_image@.len() as int,
            cursor_width,
            cursor_height,
        ) && hot_x < cursor_width && hot_y < cursor_height),
{
    if !matches!(gpu.phase, GpuPhase::Ready) {
        return false;
    }
    // Validate the image length against the claimed dimensions.
    proof {
        assert((cursor_width as u128) * (cursor_height as u128) <= 0xFFFF_FFFFu128
            * 0xFFFF_FFFFu128) by (nonlinear_arith)
            requires
                (cursor_width as u128) <= 0xFFFF_FFFFu128,
                (cursor_height as u128) <= 0xFFFF_FFFFu128,
        ;
    }
    let expected: u128 = (cursor_width as u128) * (cursor_height as u128) * 4;
    if cursor_image.len() as u128 != expected {
        return false;
    }
    // Validate the hotspot.
    if hot_x >= cursor_width || hot_y >= cursor_height {
        return false;
    }
    match &mut gpu.backend {
        Some(b) => b.setup_cursor(cursor_image, cursor_width, cursor_height, hot_x, hot_y),
        None => false,
    }
}

/// Moves the cursor. A position beyond the resolution is rejected; the
/// boundary itself (`x == width`, `y == height`) is allowed, a documented
/// quirk of the original bounds check.
pub fn move_pointer<B: GpuBackend>(gpu: &mut Gpu<B>, pos_x: u32, pos_y: u32) -> (r: bool)
    ensures
        final(gpu).phase == old(gpu).phase,
        final(gpu).width == old(gpu).width,
        final(gpu).height == old(gpu).height,
        final(gpu).framebuffer == old(gpu).framebuffer,
        !old(gpu).is_ready() ==> r == false,
        (pos_x > old(gpu).width || pos_y > old(gpu).height) ==> r == false,
        r ==> (old(gpu).is_ready() && pos_x <= old(gpu).width && pos_y <= old(gpu).height),
{
    if !matches!(gpu.phase, GpuPhase::Ready) {
        return false;
    }
    if pos_x > gpu.width || pos_y > gpu.height {
        return false;
    }
    match &mut gpu.backend {
        Some(b) => b.move_cursor(pos_x, pos_y),
        None => false,
    }
}

/// Byte offset of pixel `(px, py)` in a framebuffer of width `fb_w`, at 4
/// bytes per pixel.
pub open spec fn pixel_offset(fb_w: u32, px: u32, py: u32) -> int {
    (py * fb_w + px) * 4
}

/// The blue byte of a packed `0xAARRGGBB` color.
pub open spec fn color_blue(c: u32) -> u8 {
    (c & 0xFF) as u8
}

/// The green byte of a packed `0xAARRGGBB` color.
pub open spec fn color_green(c: u32) -> u8 {
    ((c >> 8) & 0xFF) as u8
}

/// The red byte of a packed `0xAARRGGBB` color.
pub open spec fn color_red(c: u32) -> u8 {
    ((c >> 16) & 0xFF) as u8
}

/// The alpha byte of a packed `0xAARRGGBB` color.
pub open spec fn color_alpha(c: u32) -> u8 {
    ((c >> 24) & 0xFF) as u8
}

/// One bounds-checked pixel write: the four bytes at the pixel\'s offset
/// become blue, green, red, alpha of the color; a pixel whose bytes do not
/// fit inside the buffer is skipped whole.
pub open spec fn spec_draw_pixel(fb: Seq<u8>, fb_w: u32, px: u32, py: u32, c: u32) -> Seq<u8> {
    let off = pixel_offset(fb_w, px, py);
    if off + 4 <= fb.len() {
        fb.update(off, color_blue(c)).update(off + 1, color_green(c)).update(
            off + 2,
            color_red(c),
        ).update(off + 3, color_alpha(c))
    } else {
        fb
    }
}

/// The framebuffer after writing the first `n` pixels of one rectangle row:
/// pixel `dx` of row `dy` lands at `(x0 + dx, y)` with color `color(dx, dy)`,
/// and columns past the right edge are clipped.
pub open spec fn spec_blit_row(
    fb: Seq<u8>,
    fb_w: u32,
    x0: u32,
    y: u32,
    dy: int,
    n: int,
    color: spec_fn(int, int) -> u32,
) -> Seq<u8>
    decreases n,
{
    if n <= 0 {
        fb
    } else {
        let prev = spec_blit_row(fb, fb_w, x0, y, dy, n - 1, color);
        let dx = n - 1;
        if x0 + dx < fb_w {
            spec_draw_pixel(prev, fb_w, (x0 + dx) as u32, y, color(dx, dy))
        } else {
            prev
        }
    }
}

/// The framebuffer after writing the first `rows` rows of a `cols`-wide
/// rectangle at `(x0, y0)`: rows past the bottom edge are clipped whole,
/// columns per row as in `spec_blit_row`.
pub open spec fn spec_blit(
    fb: Seq<u8>,
    fb_w: u32,
    fb_h: u32,
    x0: u32,
    y0: u32,
    cols: int,
    rows: int,
    color: spec_fn(int, int) -> u32,
) -> Seq<u8>
    decreases rows,
{
    if rows <= 0 {
        fb
    } else {
        let prev = spec_blit(fb, fb_w, fb_h, x0, y0, cols, rows - 1, color);
        let dy = rows - 1;
        if y0 + dy < fb_h {
            spec_blit_row(prev, fb_w, x0, (y0 + dy) as u32, dy, cols, color)
        } else {
            prev
        }
    }
}

/// Once a row\'s column `k` crosses the right edge, the columns after it
/// change nothing.
pub proof fn lemma_blit_row_clipped(
    fb: Seq<u8>,
    fb_w: u32,
    x0: u32,
    y: u32,
    dy: int,
    k: int,
    n: int,
    color: spec_fn(int, int) -> u32,
)
    requires
        0 <= k <= n,
        x0 + k >= fb_w,
    ensures
        spec_blit_row(fb, fb_w, x0, y, dy, n, color) == spec_blit_row(fb, fb_w, x0, y, dy, k, color),
    decreases n,
{
    if n > k {
        lemma_blit_row_clipped(fb, fb_w, x0, y, dy, k, n - 1, color);
    }
}

/// Once row `k` crosses the bottom edge, the rows after it change nothing.
pub proof fn lemma_blit_rows_clipped(
    fb: Seq<u8>,
    fb_w: u32,
    fb_h: u32,
    x0: u32,
    y0: u32,
    cols: int,
    k: int,
    rows: int,
    color: spec_fn(int, int) -> u32,
)
    requires
        0 <= k <= rows,
        y0 + k >= fb_h,
    ensures
        spec_blit(fb, fb_w, fb_h, x0, y0, cols, rows, color) == spec_blit(
            fb,
            fb_w,
            fb_h,
            x0,
            y0,
            cols,
            k,
            color,
        ),
    decreases rows,
{
    if rows > k {
        lemma_blit_rows_clipped(fb, fb_w, fb_h, x0, y0, cols, k, rows - 1, color);
    }
}

/// Writes one pixel in the device\'s blue-green-red-alpha byte order,
/// converting from packed `0xAARRGGBB`; a pixel whose four bytes would not
/// fit inside the framebuffer is skipped, so no write ever lands at or past
/// the buffer\'s end.
pub fn draw_pixel(framebuffer: &mut Vec<u8>, fb_w: u32, fb_h: u32, px: u32, py: u32, color_code: u32)
    ensures
        final(framebuffer)@ == spec_draw_pixel(old(framebuffer)@, fb_w, px, py, color_code),
{
    proof {
        assert((py as u128) * (fb_w as u128) <= 0xFFFF_FFFFu128 * 0xFFFF_FFFFu128)
            by (nonlinear_arith)
            requires
                (py as u128) <= 0xFFFF_FFFFu128,
                (fb_w as u128) <= 0xFFFF_FFFFu128,
        ;
    }
    let off128: u128 = ((py as u128) * (fb_w as u128) + px as u128) * 4;

    if off128 + 4 <= framebuffer.len() as u128 {
        let offset = off128 as usize;
        // Convert 0xAARRGGBB to BGRA byte order.
        let alpha = ((color_code >> 24) & 0xFF) as u8;
        let red = ((color_code >> 16) & 0xFF) as u8;
        let green = ((color_code >> 8) & 0xFF) as u8;
        let blue = (color_code & 0xFF) as u8;
        framebuffer.set(offset, blue);
        framebuffer.set(offset + 1, green);
        framebuffer.set(offset + 2, red);
        framebuffer.set(offset + 3, alpha);
    }
}

/// The color function of a solid rectangle.
pub open spec fn const_color(c: u32) -> spec_fn(int, int) -> u32 {
    |dx: int, dy: int| c
}

/// The color function of a 2-dimensional image: pixel `(dx, dy)` of the
/// source.
pub open spec fn image_color(img: Seq<Vec<u32>>) -> spec_fn(int, int) -> u32 {
    |dx: int, dy: int| img[dy]@[dx]
}

/// Side length of the square the drawing loop paints, in pixels.
pub const SQUARE_SIZE: u32 = 8;

/// Draws a solid 8-by-8 square whose top-left corner is `(x, y)`. A corner
/// at or beyond the resolution means no framebuffer byte is written and
/// failure is reported; otherwise the square is clipped at the right and
/// bottom edges and every written pixel is the color converted to the
/// device byte order.
pub fn draw_square<B: GpuBackend>(gpu: &mut Gpu<B>, x: u32, y: u32, color_code: u32) -> (r: bool)
    ensures
        final(gpu).phase == old(gpu).phase,
        final(gpu).width == old(gpu).width,
        final(gpu).height == old(gpu).height,
        final(gpu).backend == old(gpu).backend,
        r == (x < old(gpu).width && y < old(gpu).height && old(gpu).is_ready()),
        !r ==> final(gpu).framebuffer == old(gpu).framebuffer,
        r ==> final(gpu).framebuffer@ == spec_blit(
            old(gpu).framebuffer@,
            old(gpu).width,
            old(gpu).height,
            x,
            y,
            SQUARE_SIZE as int,
            SQUARE_SIZE as int,
            const_color(color_code),
        ),
{
    let fb_w = gpu.width;
    let fb_h = gpu.height;

    // A square whose corner is entirely off-screen is not drawn at all.
    if x >= fb_w || y >= fb_h {
        return false;
    }
    if !matches!(gpu.phase, GpuPhase::Ready) {
        return false;
    }
    fill_square(&mut gpu.framebuffer, fb_w, fb_h, x, y, color_code);
    true
}

/// Writes a clipped solid 8-by-8 square into a raw framebuffer: the shared
/// core of the on-screen square and of the built-in cursor image.
pub fn fill_square(framebuffer: &mut Vec<u8>, fb_w: u32, fb_h: u32, x: u32, y: u32, color_code: u32)
    requires
        x < fb_w,
        y < fb_h,
    ensures
        final(framebuffer)@ == spec_blit(
            old(framebuffer)@,
            fb_w,
            fb_h,
            x,
            y,
            SQUARE_SIZE as int,
            SQUARE_SIZE as int,
            const_color(color_code),
        ),
{
    let ghost fb0 = framebuffer@;
    let mut dy: u32 = 0;
    while dy < SQUARE_SIZE && (y as u64 + dy as u64) < (fb_h as u64)
        invariant
            x < fb_w,
            y < fb_h,
            dy <= SQUARE_SIZE,
            fb0 == old(framebuffer)@,
            framebuffer@ == spec_blit(
                fb0,
                fb_w,
                fb_h,
                x,
                y,
                SQUARE_SIZE as int,
                dy as int,
                const_color(color_code),
            ),
        decreases SQUARE_SIZE - dy,
    {
        let cy: u32 = y + dy;
        let ghost row0 = framebuffer@;
        let mut dx: u32 = 0;
        while dx < SQUARE_SIZE && (x as u64 + dx as u64) < (fb_w as u64)
            invariant
                x < fb_w,
                y < fb_h,
                dy < SQUARE_SIZE,
                cy == y + dy,
                cy < fb_h,
                dx <= SQUARE_SIZE,
                fb0 == old(framebuffer)@,
                row0 == spec_blit(
                    fb0,
                    fb_w,
                    fb_h,
                    x,
                    y,
                    SQUARE_SIZE as int,
                    dy as int,
                    const_color(color_code),
                ),
                framebuffer@ == spec_blit_row(
                    row0,
                    fb_w,
                    x,
                    cy,
                    dy as int,
                    dx as int,
                    const_color(color_code),
                ),
            decreases SQUARE_SIZE - dx,
        {
            let px: u32 = x + dx;
            proof {
                assert(const_color(color_code)(dx as int, dy as int) == color_code);
            }
            draw_pixel(framebuffer, fb_w, fb_h, px, cy, color_code);
            dx = dx + 1;
        }
        proof {
            if dx < SQUARE_SIZE {
                lemma_blit_row_clipped(
                    row0,
                    fb_w,
                    x,
                    cy,
                    dy as int,
                    dx as int,
                    SQUARE_SIZE as int,
                    const_color(color_code),
                );
            }
            assert(framebuffer@ == spec_blit(
                fb0,
                fb_w,
                fb_h,
                x,
                y,
                SQUARE_SIZE as int,
                dy as int + 1,
                const_color(color_code),
            ));
        }
        dy = dy + 1;
    }
    proof {
        if dy < SQUARE_SIZE {
            lemma_blit_rows_clipped(
                fb0,
                fb_w,
                fb_h,
                x,
                y,
                SQUARE_SIZE as int,
                dy as int,
                SQUARE_SIZE as int,
                const_color(color_code),
            );
        }
    }
}


/// Draws a 2-dimensional image (one `Vec<u32>` of packed `0xAARRGGBB`
/// pixels per row, all rows equally long) with its top-left corner at
/// `(dest_x, dest_y)`. An empty image, a corner at or beyond the
/// resolution, or a session that is not ready writes nothing and reports
/// failure; otherwise the source is clipped against the resolution and
/// only the visible part is written.
pub fn draw_image<B: GpuBackend>(
    gpu: &mut Gpu<B>,
    image: &Vec<Vec<u32>>,
    dest_x: u32,
    dest_y: u32,
) -> (r: bool)
    requires
        forall|i: int| 0 <= i < image@.len() ==> (#[trigger] image@[i])@.len() == image@[0]@.len(),
        image@.len() <= 0xFFFF_FFFF,
        image@.len() > 0 ==> image@[0]@.len() <= 0xFFFF_FFFF,
    ensures
        final(gpu).phase == old(gpu).phase,
        final(gpu).width == old(gpu).width,
        final(gpu).height == old(gpu).height,
        final(gpu).backend == old(gpu).backend,
        r == (old(gpu).is_ready() && image@.len() > 0 && image@[0]@.len() > 0 && dest_x < old(
            gpu,
        ).width && dest_y < old(gpu).height),
        !r ==> final(gpu).framebuffer == old(gpu).framebuffer,
        r ==> final(gpu).framebuffer@ == spec_blit(
            old(gpu).framebuffer@,
            old(gpu).width,
            old(gpu).height,
            dest_x,
            dest_y,
            image@[0]@.len() as int,
            image@.len() as int,
            image_color(image@),
        ),
{
    if !matches!(gpu.phase, GpuPhase::Ready) {
        return false;
    }

    // An image with no pixels is rejected outright.
    let image_height_us: usize = image.len();
    if image_height_us == 0 {
        return false;
    }
    let image_width_us: usize = image[0].len();
    if image_width_us == 0 {
        return false;
    }
    let image_width: u32 = image_width_us as u32;
    let image_height: u32 = image_height_us as u32;

    let fb_w = gpu.width;
    let fb_h = gpu.height;

    // An image whose corner is entirely off-screen is not drawn at all.
    if dest_x >= fb_w || dest_y >= fb_h {
        return false;
    }

    let ghost fb0 = gpu.framebuffer@;
    let mut dy: u32 = 0;
    while dy < image_height && (dest_y as u64 + dy as u64) < (fb_h as u64)
        invariant
            gpu.phase == old(gpu).phase,
            gpu.is_ready(),
            gpu.width == old(gpu).width,
            gpu.height == old(gpu).height,
            gpu.backend == old(gpu).backend,
            fb_w == gpu.width,
            fb_h == gpu.height,
            forall|i: int|
                0 <= i < image@.len() ==> (#[trigger] image@[i])@.len() == image@[0]@.len(),
            image_height == image@.len(),
            image_width == image@[0]@.len(),
            image_width > 0,
            image_height > 0,
            dest_x < fb_w,
            dest_y < fb_h,
            dy <= image_height,
            fb0 == old(gpu).framebuffer@,
            gpu.framebuffer@ == spec_blit(
                fb0,
                fb_w,
                fb_h,
                dest_x,
                dest_y,
                image_width as int,
                dy as int,
                image_color(image@),
            ),
        decreases image_height - dy,
    {
        let cy: u32 = dest_y + dy;
        let ghost row0 = gpu.framebuffer@;
        let mut dx: u32 = 0;
        while dx < image_width && (dest_x as u64 + dx as u64) < (fb_w as u64)
            invariant
                gpu.phase == old(gpu).phase,
                gpu.is_ready(),
                gpu.width == old(gpu).width,
                gpu.height == old(gpu).height,
                gpu.backend == old(gpu).backend,
                fb_w == gpu.width,
                fb_h == gpu.height,
                forall|i: int|
                    0 <= i < image@.len() ==> (#[trigger] image@[i])@.len() == image@[0]@.len(),
                image_height == image@.len(),
                image_width == image@[0]@.len(),
                image_width > 0,
                image_height > 0,
                dest_x < fb_w,
                dest_y < fb_h,
                dy < image_height,
                cy == dest_y + dy,
                cy < fb_h,
                dx <= image_width,
                fb0 == old(gpu).framebuffer@,
                row0 == spec_blit(
                    fb0,
                    fb_w,
                    fb_h,
                    dest_x,
                    dest_y,
                    image_width as int,
                    dy as int,
                    image_color(image@),
                ),
                gpu.framebuffer@ == spec_blit_row(
                    row0,
                    fb_w,
                    dest_x,
                    cy,
                    dy as int,
                    dx as int,
                    image_color(image@),
                ),
            decreases image_width - dx,
        {
            let px: u32 = dest_x + dx;
            let color_code: u32 = image[dy as usize][dx as usize];
            proof {
                assert(image_color(image@)(dx as int, dy as int) == image@[dy as int]@[dx as int]);
            }
            draw_pixel(&mut gpu.framebuffer, fb_w, fb_h, px, cy, color_code);
            dx = dx + 1;
        }
        proof {
            if dx < image_width {
                lemma_blit_row_clipped(
                    row0,
                    fb_w,
                    dest_x,
                    cy,
                    dy as int,
                    dx as int,
                    image_width as int,
                    image_color(image@),
                );
            }
            assert(gpu.framebuffer@ == spec_blit(
                fb0,
                fb_w,
                fb_h,
                dest_x,
                dest_y,
                image_width as int,
                dy as int + 1,
                image_color(image@),
            ));
        }
        dy = dy + 1;
    }
    proof {
        if dy < image_height {
            lemma_blit_rows_clipped(
                fb0,
                fb_w,
                fb_h,
                dest_x,
                dest_y,
                image_width as int,
                dy as int,
                image_height as int,
                image_color(image@),
            );
        }
    }
    true
}

/// Pixel side of the small white square centred in the cursor image.
pub const SMALL_CURSOR_SIZE: u32 = 8;

/// An all-zero byte sequence of the given length: a fully transparent
/// canvas.
pub open spec fn zero_bytes(n: nat) -> Seq<u8> {
    Seq::new(n, |i: int| 0u8)
}

/// The built-in cursor image: a fully transparent 64-by-64 canvas with a
/// small white square centred in it, 4 bytes per pixel in the device byte
/// order.
pub fn cursor_data() -> (r: Vec<u8>)
    ensures
        r@.len() == CURSOR_WIDTH * CURSOR_HEIGHT * 4,
        r@ == spec_blit(
            zero_bytes((CURSOR_WIDTH * CURSOR_HEIGHT * 4) as nat),
            CURSOR_WIDTH,
            CURSOR_HEIGHT,
            (CURSOR_WIDTH / 2 - SMALL_CURSOR_SIZE / 2) as u32,
            (CURSOR_HEIGHT / 2 - SMALL_CURSOR_SIZE / 2) as u32,
            SQUARE_SIZE as int,
            SQUARE_SIZE as int,
            const_color(0xFFFF_FFFFu32),
        ),
{
    let n: usize = (CURSOR_WIDTH * CURSOR_HEIGHT * 4) as usize;

    // Initialize the entire buffer to transparent first.
    let mut data: Vec<u8> = Vec::new();
    while data.len() < n
        invariant
            data@.len() <= n,
            forall|j: int| 0 <= j < data@.len() ==> data@[j] == 0u8,
        decreases n - data@.len(),
    {
        data.push(0);
    }
    proof {
        assert(data@ =~= zero_bytes((CURSOR_WIDTH * CURSOR_HEIGHT * 4) as nat));
    }

    // Centre the small white square within the canvas.
    let start_x: u32 = CURSOR_WIDTH / 2 - SMALL_CURSOR_SIZE / 2;
    let start_y: u32 = CURSOR_HEIGHT / 2 - SMALL_CURSOR_SIZE / 2;
    fill_square(&mut data, CURSOR_WIDTH, CURSOR_HEIGHT, start_x, start_y, 0xFFFF_FFFF);
    proof {
        lemma_blit_len(
            zero_bytes((CURSOR_WIDTH * CURSOR_HEIGHT * 4) as nat),
            CURSOR_WIDTH,
            CURSOR_HEIGHT,
            start_x,
            start_y,
            SQUARE_SIZE as int,
            SQUARE_SIZE as int,
            const_color(0xFFFF_FFFFu32),
        );
    }
    data
}

/// Writing one row preserves the framebuffer\'s length.
proof fn lemma_blit_row_len(
    fb: Seq<u8>,
    fb_w: u32,
    x0: u32,
    y: u32,
    dy: int,
    n: int,
    color: spec_fn(int, int) -> u32,
)
    ensures
        spec_blit_row(fb, fb_w, x0, y, dy, n, color).len() == fb.len(),
    decreases n,
{
    if n > 0 {
        lemma_blit_row_len(fb, fb_w, x0, y, dy, n - 1, color);
    }
}

/// Blitting preserves the framebuffer\'s length: no write ever lands at or
/// past the end of the buffer.
pub proof fn lemma_blit_len(
    fb: Seq<u8>,
    fb_w: u32,
    fb_h: u32,
    x0: u32,
    y0: u32,
    cols: int,
    rows: int,
    color: spec_fn(int, int) -> u32,
)
    ensures
        spec_blit(fb, fb_w, fb_h, x0, y0, cols, rows, color).len() == fb.len(),
    decreases rows,
{
    if rows > 0 {
        lemma_blit_len(fb, fb_w, fb_h, x0, y0, cols, rows - 1, color);
        let prev = spec_blit(fb, fb_w, fb_h, x0, y0, cols, rows - 1, color);
        if y0 + (rows - 1) < fb_h {
            lemma_blit_row_len(prev, fb_w, x0, (y0 + (rows - 1)) as u32, rows - 1, cols, color);
        }
    }
}

/// A byte that no pixel of the row covers is untouched by the row.
proof fn lemma_blit_row_untouched(
    fb: Seq<u8>,
    fb_w: u32,
    x0: u32,
    y: u32,
    dy: int,
    n: int,
    color: spec_fn(int, int) -> u32,
    i: int,
)
    requires
        0 <= i < fb.len(),
        forall|dx: int|
            0 <= dx < n && x0 + dx < fb_w ==> !(#[trigger] pixel_offset(fb_w, (x0 + dx) as u32, y)
                <= i < pixel_offset(fb_w, (x0 + dx) as u32, y) + 4),
    ensures
        spec_blit_row(fb, fb_w, x0, y, dy, n, color)[i] == fb[i],
    decreases n,
{
    if n > 0 {
        lemma_blit_row_untouched(fb, fb_w, x0, y, dy, n - 1, color, i);
        lemma_blit_row_len(fb, fb_w, x0, y, dy, n - 1, color);
        let dx = n - 1;
        if x0 + dx < fb_w {
            assert(!(pixel_offset(fb_w, (x0 + dx) as u32, y) <= i < pixel_offset(
                fb_w,
                (x0 + dx) as u32,
                y,
            ) + 4));
        }
    }
}

/// Blitting writes only inside the visible, clipped rectangle: a byte that
/// no visible pixel of the rectangle covers keeps its old value. Together
/// with the length preservation this bounds every write of a drawing
/// operation to the framebuffer bytes of the visible region.
pub proof fn lemma_blit_untouched(
    fb: Seq<u8>,
    fb_w: u32,
    fb_h: u32,
    x0: u32,
    y0: u32,
    cols: int,
    rows: int,
    color: spec_fn(int, int) -> u32,
    i: int,
)
    requires
        0 <= i < fb.len(),
        forall|dx: int, dy: int|
            0 <= dx < cols && 0 <= dy < rows && x0 + dx < fb_w && y0 + dy < fb_h ==> !(
            #[trigger] pixel_offset(fb_w, (x0 + dx) as u32, (y0 + dy) as u32) <= i < pixel_offset(
                fb_w,
                (x0 + dx) as u32,
                (y0 + dy) as u32,
            ) + 4),
    ensures
        spec_blit(fb, fb_w, fb_h, x0, y0, cols, rows, color)[i] == fb[i],
    decreases rows,
{
    if rows > 0 {
        lemma_blit_untouched(fb, fb_w, fb_h, x0, y0, cols, rows - 1, color, i);
        lemma_blit_len(fb, fb_w, fb_h, x0, y0, cols, rows - 1, color);
        let prev = spec_blit(fb, fb_w, fb_h, x0, y0, cols, rows - 1, color);
        let dy = rows - 1;
        if y0 + dy < fb_h {
            assert forall|dx: int|
                0 <= dx < cols && x0 + dx < fb_w implies !(#[trigger] pixel_offset(
                fb_w,
                (x0 + dx) as u32,
                (y0 + dy) as u32,
            ) <= i < pixel_offset(fb_w, (x0 + dx) as u32, (y0 + dy) as u32) + 4) by {}
            lemma_blit_row_untouched(prev, fb_w, x0, (y0 + dy) as u32, dy, cols, color, i);
        }
    }
}

/// An in-memory display backend: it answers a fixed resolution, sets up a
/// zeroed framebuffer of the matching size, and accepts every flush and
/// cursor request. It lets the orchestrator run with no device underneath.
pub struct MemoryGpuBackend {
    pub width: u32,
    pub height: u32,
}

impl MemoryGpuBackend {
    /// A backend reporting the given resolution.
    pub fn new(width: u32, height: u32) -> (r: Self)
        ensures
            r.width == width,
            r.height == height,
    {
        MemoryGpuBackend { width, height }
    }
}

impl GpuBackend for MemoryGpuBackend {
    fn resolution(&mut self) -> (r: Option<(u32, u32)>) {
        Some((self.width, self.height))
    }

    fn setup_framebuffer(&mut self) -> (r: Option<Vec<u8>>) {
        proof {
            assert((self.width as u128) * (self.height as u128) <= 0xFFFF_FFFFu128
                * 0xFFFF_FFFFu128) by (nonlinear_arith)
                requires
                    (self.width as u128) <= 0xFFFF_FFFFu128,
                    (self.height as u128) <= 0xFFFF_FFFFu128,
            ;
        }
        let size128: u128 = (self.width as u128) * (self.height as u128) * 4;
        if size128 > usize::MAX as u128 {
            return None;
        }
        let size: usize = size128 as usize;
        let mut buffer: Vec<u8> = Vec::new();
        while buffer.len() < size
            invariant
                buffer@.len() <= size,
            decreases size - buffer@.len(),
        {
            buffer.push(0);
        }
        Some(buffer)
    }

    fn flush(&mut self) -> (r: bool) {
        true
    }

    fn setup_cursor(
        &mut self,
        cursor_image: &Vec<u8>,
        cursor_width: u32,
        cursor_height: u32,
        hot_x: u32,
        hot_y: u32,
    ) -> (r: bool) {
        true
    }

    fn move_cursor(&mut self, pos_x: u32, pos_y: u32) -> (r: bool) {
        true
    }
}

/// How far one key press moves the square, in pixels.
pub const MOVE_STEP: u32 = 8;

/// Addition clamped at the type's maximum.
pub open spec fn sat_add_u32(a: u32, b: u32) -> u32 {
    if a + b > u32::MAX {
        u32::MAX
    } else {
        (a + b) as u32
    }
}

/// Subtraction clamped at zero.
pub open spec fn sat_sub_u32(a: u32, b: u32) -> u32 {
    if a >= b {
        (a - b) as u32
    } else {
        0
    }
}

/// The smaller of two values.
pub open spec fn min_u32(a: u32, b: u32) -> u32 {
    if a <= b {
        a
    } else {
        b
    }
}

/// One step of the interactive drawing loop: where the square moves on a
/// key press. W/A move up/left clamped at zero; S/D move down/right clamped
/// so the square stays on screen; space recentres it; any other key leaves
/// it in place.
pub fn move_square(key: char, x: u32, y: u32, width: u32, height: u32) -> (r: (u32, u32))
    ensures
        (key == 'w' || key == 'W') ==> r == (x, sat_sub_u32(y, MOVE_STEP)),
        (key == 's' || key == 'S') ==> r == (
            x,
            min_u32(sat_add_u32(y, MOVE_STEP), sat_sub_u32(height, SQUARE_SIZE)),
        ),
        (key == 'a' || key == 'A') ==> r == (sat_sub_u32(x, MOVE_STEP), y),
        (key == 'd' || key == 'D') ==> r == (
            min_u32(sat_add_u32(x, MOVE_STEP), sat_sub_u32(width, SQUARE_SIZE)),
            y,
        ),
        key == ' ' ==> r == (
            sat_sub_u32(width / 2, SQUARE_SIZE / 2),
            sat_sub_u32(height / 2, SQUARE_SIZE / 2),
        ),
        !(key == 'w' || key == 'W' || key == 's' || key == 'S' || key == 'a' || key == 'A' || key
            == 'd' || key == 'D' || key == ' ') ==> r == (x, y),
{
    let up = if y >= MOVE_STEP {
        y - MOVE_STEP
    } else {
        0
    };
    let left = if x >= MOVE_STEP {
        x - MOVE_STEP
    } else {
        0
    };
    let down_limit = if height >= SQUARE_SIZE {
        height - SQUARE_SIZE
    } else {
        0
    };
    let right_limit = if width >= SQUARE_SIZE {
        width - SQUARE_SIZE
    } else {
        0
    };
    let down_raw = if y as u64 + MOVE_STEP as u64 > u32::MAX as u64 {
        u32::MAX
    } else {
        y + MOVE_STEP
    };
    let right_raw = if x as u64 + MOVE_STEP as u64 > u32::MAX as u64 {
        u32::MAX
    } else {
        x + MOVE_STEP
    };
    let down = if down_raw <= down_limit {
        down_raw
    } else {
        down_limit
    };
    let right = if right_raw <= right_limit {
        right_raw
    } else {
        right_limit
    };
    if key == 'w' || key == 'W' {
        (x, up)
    } else if key == 's' || key == 'S' {
        (x, down)
    } else if key == 'a' || key == 'A' {
        (left, y)
    } else if key == 'd' || key == 'D' {
        (right, y)
    } else if key == ' ' {
        let cw = width / 2;
        let ch = height / 2;
        let half = SQUARE_SIZE / 2;
        let cx = if cw >= half {
            cw - half
        } else {
            0
        };
        let cyv = if ch >= half {
            ch - half
        } else {
            0
        };
        (cx, cyv)
    } else {
        (x, y)
    }
}

} // verus!
