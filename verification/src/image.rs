use vstd::prelude::*;

verus! {

/// The mathematical content of an RGB picture: its size in pixels and its
/// bytes, row after row, three bytes (red, green, blue) per pixel.
pub ghost struct Picture {
    pub width: nat,
    pub height: nat,
    pub bytes: Seq<u8>,
}

/// Position of byte `col` of line `line` in a buffer whose lines hold `stride` bytes.
pub open spec fn at(stride: int, line: int, col: int) -> int {
    stride * line + col
}

impl Picture {
    /// Bytes per line.
    pub open spec fn stride(self) -> int {
        (self.width * 3) as int
    }

    /// The size fits `u32` and the bytes are exactly `width * height * 3`.
    pub open spec fn wf(self) -> bool {
        &&& self.width <= u32::MAX
        &&& self.height <= u32::MAX
        &&& self.bytes.len() == self.width * self.height * 3
    }

    /// Byte `col` (`0 <= col < 3 * width`) of line `line`.
    pub open spec fn byte(self, line: int, col: int) -> u8 {
        self.bytes[at(self.stride(), line, col)]
    }

    /// A black picture.
    pub open spec fn black(width: nat, height: nat) -> Picture {
        Picture { width, height, bytes: Seq::new(width * height * 3, |i: int| 0u8) }
    }

    /// `self` with `image` copied over it, its top-left corner at pixel
    /// `(ox, oy)`; the lines of `image` that would fall below the bottom edge
    /// are left out.
    pub open spec fn pasted(self, image: Picture, ox: int, oy: int) -> Picture {
        Picture {
            width: self.width,
            height: self.height,
            bytes: Seq::new(
                self.bytes.len(),
                |j: int|
                    {
                        let line = j / self.stride();
                        let col = j % self.stride();
                        if oy <= line < oy + image.height && 3 * ox <= col < 3 * ox
                            + image.stride() {
                            image.byte(line - oy, col - 3 * ox)
                        } else {
                            self.bytes[j]
                        }
                    },
            ),
        }
    }
}

/// The bytes `image::imageops::resize` produces, with the nearest-neighbour
/// filter, from an RGB picture of the given size and bytes scaled to
/// `new_width` x `new_height`.
pub uninterp spec fn nearest_resized(
    width: u32,
    height: u32,
    bytes: Seq<u8>,
    new_width: u32,
    new_height: u32,
) -> Seq<u8>;

/// The size and RGB bytes `image::load_from_memory(..).to_rgb8()` gives for
/// an encoded picture (PNG, JPEG or BMP), or nothing when it cannot be read.
pub uninterp spec fn decoded_rgb(data: Seq<u8>) -> Option<(u32, u32, Seq<u8>)>;

/// Two positions in a lined buffer are equal exactly when line and column are.
pub proof fn lemma_at_injective(stride: int, l1: int, c1: int, l2: int, c2: int)
    requires
        0 <= c1 < stride,
        0 <= c2 < stride,
        0 <= l1,
        0 <= l2,
    ensures
        at(stride, l1, c1) == at(stride, l2, c2) <==> (l1 == l2 && c1 == c2),
{
    if l1 < l2 {
        assert(stride * l1 + stride <= stride * l2) by (nonlinear_arith)
            requires
                l1 < l2,
                0 < stride,
        ;
    } else if l2 < l1 {
        assert(stride * l2 + stride <= stride * l1) by (nonlinear_arith)
            requires
                l2 < l1,
                0 < stride,
        ;
    }
}

/// The position of a byte splits back into its line and column.
pub proof fn lemma_at_div_mod(stride: int, line: int, col: int)
    requires
        0 <= col < stride,
        0 <= line,
    ensures
        at(stride, line, col) / stride == line,
        at(stride, line, col) % stride == col,
{
    assert(stride * line == line * stride) by (nonlinear_arith);
    vstd::arithmetic::div_mod::lemma_fundamental_div_mod_converse(
        at(stride, line, col),
        stride,
        line,
        col,
    );
}

/// Lines below `height` lie inside a buffer of `stride * height` bytes.
pub proof fn lemma_at_bound(stride: int, height: int, line: int, col: int)
    requires
        0 <= col < stride,
        0 <= line < height,
    ensures
        0 <= at(stride, line, col) < stride * height,
{
    assert(stride * line + stride <= stride * height) by (nonlinear_arith)
        requires
            line < height,
            0 < stride,
    ;
    assert(0 <= stride * line) by (nonlinear_arith)
        requires
            0 <= line,
            0 < stride,
    ;
}

#[verifier::external_type_specification]
#[verifier::external_body]
pub struct ExImageError(image::ImageError);

/// An RGB picture with 8 bits per channel.
pub struct RgbImage {
    width: u32,
    height: u32,
    data: Vec<u8>,
}

impl View for RgbImage {
    type V = Picture;

    closed spec fn view(&self) -> Picture {
        Picture { width: self.width as nat, height: self.height as nat, bytes: self.data@ }
    }
}

impl RgbImage {
    /// Every picture is well formed: its bytes are exactly three per pixel.
    #[verifier::type_invariant]
    pub open spec fn well_formed(self) -> bool {
        self@.wf()
    }

    /// A black picture of the given size.
    pub fn new(width: u32, height: u32) -> (img: RgbImage)
        requires
            width * height * 3 <= usize::MAX,
        ensures
            img@ == Picture::black(width as nat, height as nat),
    {
        let n = width as usize * height as usize * 3;
        let mut data: Vec<u8> = Vec::with_capacity(n);
        let mut i: usize = 0;
        while i < n
            invariant
                i <= n,
                data.len() == i,
                forall|j: int| 0 <= j < i ==> data@[j] == 0u8,
            decreases n - i,
        {
            data.push(0u8);
            i = i + 1;
        }
        let img = RgbImage { width, height, data };
        assert(img@.bytes =~= Picture::black(width as nat, height as nat).bytes);
        img
    }

    /// A picture holding `data`, or `None` when `data` does not have exactly
    /// `width * height * 3` bytes.
    pub fn from_raw(width: u32, height: u32, data: Vec<u8>) -> (res: Option<RgbImage>)
        ensures
            res is Some <==> data.len() == width * height * 3,
            res matches Some(img) ==> img@ == (Picture {
                width: width as nat,
                height: height as nat,
                bytes: data@,
            }),
    {
        let w = width as u64;
        let h = height as u64;
        assert(w * h <= 0xffff_ffff_ffff_ffff) by (nonlinear_arith)
            requires
                w <= 0xffff_ffff,
                h <= 0xffff_ffff,
        ;
        let wh = w * h;
        if wh > (usize::MAX / 3) as u64 {
            None
        } else if data.len() == (wh as usize) * 3 {
            Some(RgbImage { width, height, data })
        } else {
            None
        }
    }

    /// Width in pixels.
    pub fn width(&self) -> (w: u32)
        ensures
            w == self@.width,
    {
        self.width
    }

    /// Height in pixels.
    pub fn height(&self) -> (h: u32)
        ensures
            h == self@.height,
    {
        self.height
    }

    /// The bytes, row after row.
    pub fn as_raw(&self) -> (data: &Vec<u8>)
        ensures
            data@ == self@.bytes,
    {
        &self.data
    }

    /// Copies `image` onto this picture with its top-left corner at pixel
    /// `(ox, oy)`, line by line from the top, stopping at the bottom edge.
    pub fn paste(&mut self, image: &RgbImage, ox: usize, oy: usize)
        requires
            image@.width > 0,
            ox + image@.width <= old(self)@.width,
            oy <= old(self)@.height,
        ensures
            final(self)@ == old(self)@.pasted(image@, ox as int, oy as int),
    {
        proof {
            use_type_invariant(&*self);
        }
        let mut taken = RgbImage { width: 0, height: 0, data: Vec::new() };
        std::mem::swap(&mut taken, self);
        proof {
            use_type_invariant(&taken);
        }
        let RgbImage { width, height, mut data } = taken;
        paste_bytes(&mut data, width, height, image, ox, oy);
        *self = RgbImage { width, height, data };
    }

    /// Scales the picture to `new_width` x `new_height` with
    /// `image::imageops::resize` and the nearest-neighbour filter. Trusted:
    /// the result has the requested size, three bytes per pixel, and bytes
    /// that depend on nothing but the source picture and the requested size
    /// (named `nearest_resized`); the sampling itself is not stated.
    #[verifier::external_body]
    pub(crate) fn resize_nearest(&self, new_width: u32, new_height: u32) -> (res: RgbImage)
        requires
            self@.width * new_height * 4 <= usize::MAX,
            new_width * new_height * 3 <= usize::MAX,
        ensures
            res@.width == new_width,
            res@.height == new_height,
            res@.bytes == nearest_resized(
                self@.width as u32,
                self@.height as u32,
                self@.bytes,
                new_width,
                new_height,
            ),
    {
        let source: image::RgbImage = image::ImageBuffer::from_raw(
            self.width,
            self.height,
            self.data.clone(),
        ).unwrap();
        let scaled = image::imageops::resize(
            &source,
            new_width,
            new_height,
            image::imageops::FilterType::Nearest,
        );
        RgbImage { width: new_width, height: new_height, data: scaled.into_raw() }
    }

    /// Reads an encoded picture file with `image::load_from_memory` and
    /// converts it to 8-bit RGB with `to_rgb8`. Trusted: the outcome depends on
    /// the bytes alone (named `decoded_rgb`), and a picture, as the crate keeps
    /// it, has exactly three bytes per pixel.
    #[verifier::external_body]
    pub(crate) fn decode(data: &[u8]) -> (res: Result<RgbImage, image::ImageError>)
        ensures
            res is Err <==> decoded_rgb(data@) is None,
            res matches Ok(img) ==> decoded_rgb(data@) == Some(
                (img@.width as u32, img@.height as u32, img@.bytes),
            ),
    {
        let rgb = image::load_from_memory(data)?.to_rgb8();
        Ok(RgbImage { width: rgb.width(), height: rgb.height(), data: rgb.into_raw() })
    }

    /// Gives up the picture for its bytes.
    pub fn into_raw(self) -> (data: Vec<u8>)
        ensures
            data@ == self@.bytes,
    {
        self.data
    }
}

/// The bytes of a `width` x `height` picture after `image` is copied onto
/// it with its top-left corner at pixel `(ox, oy)`, line by line from the
/// top, stopping at the bottom edge.
fn paste_bytes(data: &mut Vec<u8>, width: u32, height: u32, image: &RgbImage, ox: usize, oy: usize)
    requires
        old(data).len() == width * height * 3,
        image@.width > 0,
        ox + image@.width <= width,
        oy <= height,
    ensures
        final(data)@ == (Picture { width: width as nat, height: height as nat, bytes: old(data)@ }).pasted(
            image@,
            ox as int,
            oy as int,
        ).bytes,
{
    proof {
        use_type_invariant(image);
    }
    let ghost orig = Picture { width: width as nat, height: height as nat, bytes: data@ };
    let ghost img = image@;
    let ghost big_h = height as int;
    let ih = image.height as usize;
    let h = height as usize;
    proof {
        assert(width * 3 <= width * 3 * height || height == 0)
            by (nonlinear_arith);
        assert(image.width * 3 <= image.width * 3 * image.height || image.height == 0)
            by (nonlinear_arith);
        assert(width * height * 3 == width * 3 * height)
            by (nonlinear_arith);
        assert(image.width * image.height * 3 == image.width * 3 * image.height)
            by (nonlinear_arith);
    }
    if h == 0 || ih == 0 {
        if h == 0 {
            assert(width * height * 3 == 0) by (nonlinear_arith)
                requires
                    height == 0,
            ;
        }
        assert(data@ =~= orig.pasted(img, ox as int, oy as int).bytes);
        return;
    }
    proof {
        assert((width as int) * 3 <= (width as int) * 3 * (height as int))
            by (nonlinear_arith)
            requires
                height >= 1,
        ;
        assert((image.width as int) * 3 <= (image.width as int) * 3 * (image.height as int))
            by (nonlinear_arith)
            requires
                image.height >= 1,
        ;
        assert((width as int) * 3 <= data.len());
        assert((image.width as int) * 3 <= image.data.len());
    }
    let iw3 = image.width as usize * 3;
    let w3 = width as usize * 3;
    let ox3 = ox * 3;
    let mut y: usize = 0;
    while y < ih && y + oy < h
        invariant
            orig.wf(),
            img.wf(),
            img == image@,
            width == orig.width,
            height == orig.height,
            w3 == orig.stride(),
            iw3 == img.stride(),
            h == orig.height,
            ih == img.height,
            ox3 == 3 * ox,
            0 < iw3,
            ox3 + iw3 <= w3,
            oy <= h,
            0 < h,
            0 < ih,
            y <= ih,
            y + oy <= h,
            orig.bytes.len() == w3 * h,
            image.data.len() == iw3 * ih,
            img.bytes.len() == iw3 * ih,
            data.len() == orig.bytes.len(),
            forall|l: int, c: int|
                0 <= l < h && 0 <= c < w3 ==> #[trigger] data@[at(w3 as int, l, c)] == if oy
                    <= l < oy + y && ox3 <= c < ox3 + iw3 {
                    img.byte(l - oy, c - ox3)
                } else {
                    orig.bytes[at(w3 as int, l, c)]
                },
        decreases ih - y,
    {
        let line = y + oy;
        proof {
            lemma_at_bound(w3 as int, h as int, line as int, 0);
            lemma_at_bound(iw3 as int, ih as int, y as int, 0);
            assert(w3 * line + w3 <= w3 * h) by (nonlinear_arith)
                requires
                    line < h,
            ;
            assert(iw3 * y + iw3 <= iw3 * ih) by (nonlinear_arith)
                requires
                    y < ih,
            ;
        }
        let base = w3 * line + ox3;
        let src_base = iw3 * y;
        let mut k: usize = 0;
        while k < iw3
            invariant
                orig.wf(),
                img.wf(),
                img == image@,
                w3 == orig.stride(),
                iw3 == img.stride(),
                h == orig.height,
                ih == img.height,
                ox3 == 3 * ox,
                ox3 + iw3 <= w3,
                width == orig.width,
                height == orig.height,
                y < ih,
                line == y + oy,
                line < h,
                base == w3 * line + ox3,
                src_base == iw3 * y,
                w3 * line + w3 <= w3 * h,
                iw3 * y + iw3 <= iw3 * ih,
                image.data.len() == iw3 * ih,
                k <= iw3,
                orig.bytes.len() == w3 * h,
                img.bytes.len() == iw3 * ih,
                data.len() == orig.bytes.len(),
                forall|l: int, c: int|
                    0 <= l < h && 0 <= c < w3 ==> #[trigger] data@[at(w3 as int, l, c)]
                        == if (oy <= l < oy + y && ox3 <= c < ox3 + iw3) || (l == line && ox3
                        <= c < ox3 + k) {
                        img.byte(l - oy, c - ox3)
                    } else {
                        orig.bytes[at(w3 as int, l, c)]
                    },
            decreases iw3 - k,
        {
            let ghost before = data@;
            let v = image.data[src_base + k];
            data.set(base + k, v);
            proof {
                assert forall|l: int, c: int| 0 <= l < h && 0 <= c < w3 implies #[trigger] data@[at(
                    w3 as int,
                    l,
                    c,
                )] == if (oy <= l < oy + y && ox3 <= c < ox3 + iw3) || (l == line && ox3 <= c
                    < ox3 + k + 1) {
                    img.byte(l - oy, c - ox3)
                } else {
                    orig.bytes[at(w3 as int, l, c)]
                } by {
                    lemma_at_injective(w3 as int, l, c, line as int, ox3 + k);
                    lemma_at_bound(w3 as int, h as int, l, c);
                }
            }
            k = k + 1;
        }
        y = y + 1;
    }
    proof {
        let target = orig.pasted(img, ox as int, oy as int);
        assert forall|j: int| 0 <= j < data@.len() implies data@[j] == target.bytes[j] by {
            let l = j / (w3 as int);
            let c = j % (w3 as int);
            vstd::arithmetic::div_mod::lemma_fundamental_div_mod(j, w3 as int);
            assert(j == at(w3 as int, l, c)) by (nonlinear_arith)
                requires
                    j == (w3 as int) * (j / (w3 as int)) + j % (w3 as int),
                    l == j / (w3 as int),
                    c == j % (w3 as int),
            ;
            vstd::arithmetic::div_mod::lemma_mod_bound(j, w3 as int);
            assert(0 <= l < h) by {
                vstd::arithmetic::div_mod::lemma_div_pos_is_pos(j, w3 as int);
                if l >= h {
                    assert(w3 * l >= w3 * h) by (nonlinear_arith)
                        requires
                            l >= h,
                            w3 > 0,
                    ;
                }
            }
        }
        assert(data@ =~= target.bytes);
    }
}

} // verus!
