use vstd::prelude::*;

verus! {

/// Width and height of the tray icon, in pixels.
pub const TRAY_ICON_SIZE: u32 = 36;

/// Whether pixel (`x`, `y`) of the tray icon is drawn: the spine (4 wide, full
/// height), the top bar (24 by 10 at (4, 6)) and the bottom bar (14 by 10 at (4, 20)).
pub open spec fn icon_pixel(x: int, y: int) -> bool {
    ||| (0 <= x < 4 && 0 <= y < 36)
    ||| (4 <= x < 28 && 6 <= y < 16)
    ||| (4 <= x < 18 && 20 <= y < 30)
}

/// The tray icon as RGBA bytes, row by row: drawn pixels opaque black, all
/// others transparent black.
pub open spec fn icon_rgba() -> Seq<u8> {
    Seq::new(
        36 * 36 * 4,
        |i: int|
            if i % 4 == 3 && icon_pixel((i / 4) % 36, (i / 4) / 36) {
                255u8
            } else {
                0u8
            },
    )
}

/// Whether byte `i` of the image belongs to a pixel of the rectangle at (`x`, `y`)
/// that is `w` wide and `h` high.
pub open spec fn in_rect(i: int, x: int, y: int, w: int, h: int) -> bool {
    let p = i / 4;
    x <= p % 36 < x + w && y <= p / 36 < y + h
}

/// The image after the rectangle has been painted opaque black over `old`.
pub open spec fn painted(old: Seq<u8>, x: int, y: int, w: int, h: int) -> Seq<u8> {
    Seq::new(
        old.len(),
        |i: int|
            if in_rect(i, x, y, w, h) {
                if i % 4 == 3 {
                    255u8
                } else {
                    0u8
                }
            } else {
                old[i]
            },
    )
}

/// Paints a rectangle of the 36 by 36 image opaque black, within the image.
fn fill(rgba: &mut Vec<u8>, x: u32, y: u32, fw: u32, fh: u32)
    requires
        old(rgba)@.len() == 36 * 36 * 4,
        x + fw <= 36,
        y + fh <= 36,
    ensures
        final(rgba)@ == painted(old(rgba)@, x as int, y as int, fw as int, fh as int),
{
    let w: u32 = 36;
    let h: u32 = 36;
    let ghost start = rgba@;
    for dy in 0..fh
        invariant
            rgba@ == painted(start, x as int, y as int, fw as int, dy as int),
            start.len() == 36 * 36 * 4,
            x + fw <= 36,
            y + fh <= 36,
            w == 36,
            h == 36,
    {
        for dx in 0..fw
            invariant
                rgba@.len() == 36 * 36 * 4,
                forall|i: int|
                    0 <= i < rgba@.len() ==> #[trigger] rgba@[i] == (if in_rect(
                        i,
                        x as int,
                        y as int,
                        fw as int,
                        dy as int,
                    ) || in_rect(i, x as int, (y + dy) as int, dx as int, 1) {
                        if i % 4 == 3 {
                            255u8
                        } else {
                            0u8
                        }
                    } else {
                        start[i]
                    }),
                start.len() == 36 * 36 * 4,
                x + fw <= 36,
                y + fh <= 36,
                dy < fh,
                w == 36,
                h == 36,
        {
            let px: u32 = x + dx;
            let py: u32 = y + dy;
            if px < w && py < h {
                let i: usize = ((py * w + px) * 4) as usize;
                rgba.set(i, 0);
                rgba.set(i + 1, 0);
                rgba.set(i + 2, 0);
                rgba.set(i + 3, 255);
            }
        }
        assert(rgba@ =~= painted(start, x as int, y as int, fw as int, dy + 1));
    }
}

/// The tray icon's pixels, as RGBA bytes.
pub fn tray_icon_rgba() -> (r: Vec<u8>)
    ensures
        r@ == icon_rgba(),
{
    let w: u32 = 36;
    let h: u32 = 36;
    let mut rgba: Vec<u8> = vec![0u8; (w * h * 4) as usize];
    fill(&mut rgba, 0, 0, 4, 36);
    fill(&mut rgba, 4, 6, 24, 10);
    fill(&mut rgba, 4, 20, 14, 10);
    assert(rgba@ =~= icon_rgba());
    rgba
}

} // verus!
