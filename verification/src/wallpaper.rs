use vstd::prelude::*;
use crate::image::{at, lemma_at_bound, lemma_at_div_mod, nearest_resized, Picture, RgbImage};

verus! {

/// The whole earth on a black desktop: centred left to right, with a quarter
/// of the free height above it.
pub open spec fn full_layout(width: nat, height: nat, earth: Picture) -> Picture {
    Picture::black(width, height).pasted(
        earth,
        (width - earth.width) / 2,
        (height - earth.height) / 4,
    )
}

/// The upper half of the earth on a black desktop: centred left to right,
/// `offset_y` lines from the top, cut off at the bottom edge.
pub open spec fn half_layout(width: nat, height: nat, earth: Picture, offset_y: nat) -> Picture {
    Picture::black(width, height).pasted(earth, (width - earth.width) / 2, offset_y as int)
}

/// Lays the earth picture out on a black `width` x `height` desktop, centred
/// horizontally, with a quarter of the free height above it.
pub fn compose_full(width: u32, height: u32, earth: &RgbImage) -> (res: RgbImage)
    requires
        0 < earth@.width <= width,
        earth@.height <= height,
        width * height * 3 <= usize::MAX,
    ensures
        res@ == full_layout(width as nat, height as nat, earth@),
{
    let mut wallpaper = RgbImage::new(width, height);
    let offset_x = ((width - earth.width()) / 2) as usize;
    let offset_y = ((height - earth.height()) / 4) as usize;
    wallpaper.paste(earth, offset_x, offset_y);
    wallpaper
}

/// Lays the earth picture out on a black `width` x `height` desktop, centred
/// horizontally, `offset_y` lines from the top; what falls below the bottom
/// edge is cut off.
pub fn compose_half(width: u32, height: u32, earth: &RgbImage, offset_y: u32) -> (res: RgbImage)
    requires
        0 < earth@.width <= width,
        offset_y <= height,
        width * height * 3 <= usize::MAX,
    ensures
        res@ == half_layout(width as nat, height as nat, earth@, offset_y as nat),
{
    let mut wallpaper = RgbImage::new(width, height);
    let offset_x = ((width - earth.width()) / 2) as usize;
    wallpaper.paste(earth, offset_x, offset_y as usize);
    wallpaper
}

/// The desktop picture showing the whole earth: the joined picture scaled to
/// an `earth_side` square and laid out by `full_layout`.
pub fn full_wallpaper(width: u32, height: u32, earth_side: u32, picture: &RgbImage) -> (res:
    RgbImage)
    requires
        0 < earth_side,
        earth_side <= width,
        earth_side <= height,
        width * height * 3 <= usize::MAX,
        picture@.width * earth_side * 4 <= usize::MAX,
    ensures
        res@ == full_layout(
            width as nat,
            height as nat,
            Picture {
                width: earth_side as nat,
                height: earth_side as nat,
                bytes: nearest_resized(
                    picture@.width as u32,
                    picture@.height as u32,
                    picture@.bytes,
                    earth_side,
                    earth_side,
                ),
            },
        ),
{
    assert(earth_side * earth_side * 3 <= width * height * 3) by (nonlinear_arith)
        requires
            earth_side <= width,
            earth_side <= height,
    ;
    let earth = picture.resize_nearest(earth_side, earth_side);
    compose_full(width, height, &earth)
}

/// The desktop picture showing the upper half of the earth: the joined
/// picture scaled to a `width` square and laid out by `half_layout`.
pub fn half_wallpaper(width: u32, height: u32, offset_y: u32, picture: &RgbImage) -> (res:
    RgbImage)
    requires
        0 < width,
        offset_y <= height,
        width * height * 3 <= usize::MAX,
        width * width * 3 <= usize::MAX,
        picture@.width * width * 4 <= usize::MAX,
    ensures
        res@ == half_layout(
            width as nat,
            height as nat,
            Picture {
                width: width as nat,
                height: width as nat,
                bytes: nearest_resized(
                    picture@.width as u32,
                    picture@.height as u32,
                    picture@.bytes,
                    width,
                    width,
                ),
            },
            offset_y as nat,
        ),
{
    let earth = picture.resize_nearest(width, width);
    compose_half(width, height, &earth, offset_y)
}

/// On a black desktop with a picture pasted at `(ox, oy)`, byte `col` of
/// line `line` comes from the picture inside the pasted rectangle and is
/// black (zero) everywhere else.
pub proof fn lemma_layout_bytes(
    width: nat,
    height: nat,
    earth: Picture,
    ox: int,
    oy: int,
    line: int,
    col: int,
)
    requires
        0 <= line < height,
        0 <= col < 3 * width,
    ensures
        Picture::black(width, height).pasted(earth, ox, oy).byte(line, col) == if oy <= line < oy
            + earth.height && 3 * ox <= col < 3 * ox + earth.stride() {
            earth.byte(line - oy, col - 3 * ox)
        } else {
            0u8
        },
{
    let canvas = Picture::black(width, height);
    let stride = canvas.stride();
    lemma_at_bound(stride, height as int, line, col);
    lemma_at_div_mod(stride, line, col);
    assert(canvas.bytes.len() == stride * height) by (nonlinear_arith)
        requires
            canvas.bytes.len() == width * height * 3,
            stride == width * 3,
    ;
}

/// In the whole-earth layout an earth no wider and no taller than the
/// desktop appears whole: byte `c` of its line `r` is byte
/// `3 * ((width - earth width) / 2) + c` of desktop line
/// `(height - earth height) / 4 + r`.
pub proof fn lemma_full_layout_shows_whole_earth(
    width: nat,
    height: nat,
    earth: Picture,
    r: int,
    c: int,
)
    requires
        earth.wf(),
        earth.width <= width,
        earth.height <= height,
        0 <= r < earth.height,
        0 <= c < 3 * earth.width,
    ensures
        ({
            let ox = (width - earth.width) / 2;
            let oy = (height - earth.height) / 4;
            &&& 0 <= oy + r < height
            &&& 0 <= 3 * ox + c < 3 * width
            &&& full_layout(width, height, earth).byte(oy + r, 3 * ox + c) == earth.byte(r, c)
        }),
{
    let ox = (width - earth.width) / 2;
    let oy = (height - earth.height) / 4;
    lemma_layout_bytes(width, height, earth, ox, oy, oy + r, 3 * ox + c);
}

/// In the upper-half layout, byte `c` of line `r` of the earth is byte
/// `3 * ((width - earth width) / 2) + c` of desktop line `offset_y + r`,
/// wherever that line lies on the desktop.
pub proof fn lemma_half_layout_places_earth(
    width: nat,
    height: nat,
    earth: Picture,
    offset_y: nat,
    r: int,
    c: int,
)
    requires
        earth.wf(),
        earth.width <= width,
        0 <= r < earth.height,
        offset_y + r < height,
        0 <= c < 3 * earth.width,
    ensures
        ({
            let ox = (width - earth.width) / 2;
            half_layout(width, height, earth, offset_y).byte(offset_y + r, 3 * ox + c) == earth.byte(
                r,
                c,
            )
        }),
{
    let ox = (width - earth.width) / 2;
    lemma_layout_bytes(width, height, earth, ox, offset_y as int, offset_y + r, 3 * ox + c);
}

} // verus!
