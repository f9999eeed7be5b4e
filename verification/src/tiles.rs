use vstd::prelude::*;
use crate::image::{at, lemma_at_bound, lemma_at_injective, Picture, RgbImage};
use crate::tray::Wallpaper;

verus! {

/// Bytes in one row of a 550-pixel-wide RGB tile.
pub const TILE_ROW_BYTES: usize = 1650;

/// Where row `row` of tile `(x, y)` starts in a picture `tw` pixels wide.
pub open spec fn block_row_offset(tw: int, row: int, x: int, y: int) -> int {
    tw * 3 * (row + 550 * y) + 1650 * x
}

/// The bytes of `target` after the first `n` complete rows of `src` have been
/// written, in order, to where tile `(x, y)` lies; a row that would reach past
/// the end of `target` is left out.
pub open spec fn fill_rows(target: Seq<u8>, src: Seq<u8>, tw: int, x: int, y: int, n: nat) -> Seq<
    u8,
>
    decreases n,
{
    if n == 0 {
        target
    } else {
        let t = fill_rows(target, src, tw, x, y, (n - 1) as nat);
        let i = block_row_offset(tw, n - 1, x, y);
        if n * 1650 <= src.len() && 0 <= i && i + 1650 <= t.len() {
            t.take(i) + src.subrange((n - 1) * 1650, (n * 1650) as int) + t.skip(i + 1650)
        } else {
            t
        }
    }
}

/// `target` after `src` has been laid down as tile `(x, y)`: every complete
/// 1650-byte row of `src` is copied; a trailing partial row is ignored.
pub open spec fn filled_block(target: Seq<u8>, src: Seq<u8>, tw: int, x: int, y: int) -> Seq<u8> {
    fill_rows(target, src, tw, x, y, src.len() / 1650)
}

/// The arithmetic of `fill_block` stays within `usize` for every row of `src`.
pub open spec fn fill_block_fits(tw: int, src_len: int, x: int, y: int) -> bool {
    src_len > 0 ==> {
        &&& tw * 3 <= usize::MAX
        &&& (src_len - 1) / 1650 + 550 * y <= usize::MAX
        &&& block_row_offset(tw, (src_len - 1) / 1650, x, y) + 1650 <= usize::MAX
    }
}

proof fn lemma_row_offset_monotonic(tw: int, r1: int, r2: int, x: int, y: int)
    requires
        0 <= tw,
        0 <= r1 <= r2,
        0 <= y,
    ensures
        block_row_offset(tw, r1, x, y) <= block_row_offset(tw, r2, x, y),
        tw * 3 * (r1 + 550 * y) <= tw * 3 * (r2 + 550 * y),
{
    assert(tw * 3 * (r1 + 550 * y) <= tw * 3 * (r2 + 550 * y)) by (nonlinear_arith)
        requires
            0 <= tw,
            0 <= r1 <= r2,
            0 <= y,
    ;
}

/// Copies `src` into a picture `target_width` pixels wide as the 550x550 tile
/// in column `x` and row `y`: row `r` of `src` (its bytes `1650 r` up to
/// `1650 (r + 1)`) goes to byte `3 target_width (r + 550 y) + 1650 x`.
pub fn fill_block(target_width: usize, target: &mut Vec<u8>, src: &Vec<u8>, x: usize, y: usize)
    requires
        fill_block_fits(target_width as int, src.len() as int, x as int, y as int),
    ensures
        final(target)@ == filled_block(
            old(target)@,
            src@,
            target_width as int,
            x as int,
            y as int,
        ),
{
    let n = src.len() / TILE_ROW_BYTES;
    let ghost orig = target@;
    let mut r: usize = 0;
    while r < n
        invariant
            0 <= r <= n,
            n == src.len() / 1650,
            fill_block_fits(target_width as int, src.len() as int, x as int, y as int),
            target@ == fill_rows(orig, src@, target_width as int, x as int, y as int, r as nat),
        decreases n - r,
    {
        proof {
            let last = (src.len() - 1) / 1650;
            assert(r <= last);
            lemma_row_offset_monotonic(target_width as int, r as int, last, x as int, y as int);
            assert(1650 * x <= block_row_offset(target_width as int, last, x as int, y as int))
                by (nonlinear_arith)
                requires
                    0 <= target_width,
                    0 <= last,
                    0 <= y,
                    block_row_offset(target_width as int, last, x as int, y as int)
                        == target_width * 3 * (last + 550 * y) + 1650 * x,
                    target_width * 3 * (last + 550 * y) >= 0,
            ;
            assert(target_width * 3 <= target_width * 3 * (r + 550 * y) || r + 550 * y == 0)
                by (nonlinear_arith)
                requires
                    0 <= target_width,
                    0 <= r,
                    0 <= y,
            ;
        }
        let i = target_width * 3 * (r + 550 * y) + TILE_ROW_BYTES * x;
        let ghost t = target@;
        if i + TILE_ROW_BYTES <= target.len() {
            let start = r * TILE_ROW_BYTES;
            let mut k: usize = 0;
            while k < TILE_ROW_BYTES
                invariant
                    0 <= k <= 1650,
                    i + 1650 <= target.len(),
                    target.len() == t.len(),
                    start == r * 1650,
                    (r + 1) * 1650 <= src.len(),
                    forall|j: int| 0 <= j < t.len() && !(i <= j < i + k) ==> target@[j] == t[j],
                    forall|j: int| i <= j < i + k ==> target@[j] == src@[start + j - i],
                decreases 1650 - k,
            {
                target.set(i + k, src[start + k]);
                k = k + 1;
            }
            assert(target@ =~= t.take(i as int) + src@.subrange(r * 1650, (r + 1) * 1650) + t.skip(
                i + 1650,
            ));
        }
        r = r + 1;
    }
}

/// Writing rows keeps the length of the target.
pub proof fn lemma_fill_rows_len(target: Seq<u8>, src: Seq<u8>, tw: int, x: int, y: int, n: nat)
    ensures
        fill_rows(target, src, tw, x, y, n).len() == target.len(),
    decreases n,
{
    if n > 0 {
        lemma_fill_rows_len(target, src, tw, x, y, (n - 1) as nat);
    }
}

proof fn lemma_fill_rows_pointwise(
    target: Seq<u8>,
    src: Seq<u8>,
    tw: int,
    height: int,
    x: int,
    y: int,
    n: nat,
    line: int,
    col: int,
)
    requires
        n <= 550,
        src.len() >= 1650 * n,
        0 <= x,
        0 <= y,
        1650 * (x + 1) <= tw * 3,
        550 * (y + 1) <= height,
        target.len() == tw * 3 * height,
        0 <= line < height,
        0 <= col < tw * 3,
    ensures
        fill_rows(target, src, tw, x, y, n).len() == target.len(),
        fill_rows(target, src, tw, x, y, n)[at(tw * 3, line, col)] == if 550 * y <= line < 550 * y
            + n && 1650 * x <= col < 1650 * x + 1650 {
            src[at(1650, line - 550 * y, col - 1650 * x)]
        } else {
            target[at(tw * 3, line, col)]
        },
    decreases n,
{
    lemma_fill_rows_len(target, src, tw, x, y, n);
    if n > 0 {
        let stride = tw * 3;
        let prev = fill_rows(target, src, tw, x, y, (n - 1) as nat);
        lemma_fill_rows_pointwise(target, src, tw, height, x, y, (n - 1) as nat, line, col);
        lemma_fill_rows_len(target, src, tw, x, y, (n - 1) as nat);
        let row_line = 550 * y + n - 1;
        let i = block_row_offset(tw, n - 1, x, y);
        assert(i == at(stride, row_line, 1650 * x));
        lemma_at_bound(stride, height, row_line, 1650 * x + 1649);
        lemma_at_bound(stride, height, line, col);
        assert(i + 1650 <= prev.len());
        let p = at(stride, line, col);
        if line == row_line && 1650 * x <= col < 1650 * x + 1650 {
            assert(p == i + (col - 1650 * x));
        } else if i <= p < i + 1650 {
            lemma_at_injective(stride, line, col, row_line, 1650 * x + (p - i));
            assert(false);
        }
    }
}

/// Row `r` of a source of `src_len` bytes is written when it is laid down as
/// tile `(x, y)` of a target of `len` bytes, `tw` pixels wide: the source
/// holds the whole row and the row's place lies inside the target.
pub open spec fn row_written(len: int, src_len: int, tw: int, x: int, y: int, r: int) -> bool {
    &&& 0 <= r < src_len / 1650
    &&& 0 <= block_row_offset(tw, r, x, y)
    &&& block_row_offset(tw, r, x, y) + 1650 <= len
}

proof fn lemma_fill_rows_general(
    target: Seq<u8>,
    src: Seq<u8>,
    tw: int,
    x: int,
    y: int,
    n: nat,
    j: int,
)
    requires
        tw * 3 >= 1650,
        n <= src.len() / 1650,
        0 <= j < target.len(),
    ensures
        forall|r: int|
            r < n && #[trigger] row_written(target.len() as int, src.len() as int, tw, x, y, r)
                && block_row_offset(tw, r, x, y) <= j < block_row_offset(tw, r, x, y) + 1650
                ==> fill_rows(target, src, tw, x, y, n)[j] == src[r * 1650 + j - block_row_offset(
                tw,
                r,
                x,
                y,
            )],
        (forall|r: int|
            r < n && #[trigger] row_written(target.len() as int, src.len() as int, tw, x, y, r)
                ==> !(block_row_offset(tw, r, x, y) <= j < block_row_offset(tw, r, x, y) + 1650))
            ==> fill_rows(target, src, tw, x, y, n)[j] == target[j],
    decreases n,
{
    if n > 0 {
        let r0 = n - 1;
        let prev = fill_rows(target, src, tw, x, y, (n - 1) as nat);
        lemma_fill_rows_general(target, src, tw, x, y, (n - 1) as nat, j);
        lemma_fill_rows_len(target, src, tw, x, y, (n - 1) as nat);
        let i = block_row_offset(tw, r0, x, y);
        assert(n * 1650 <= src.len()) by (nonlinear_arith)
            requires
                n <= src.len() / 1650,
        ;
        assert forall|r: int| 0 <= r < r0 implies block_row_offset(tw, r, x, y) + 1650 <= i by {
            assert(tw * 3 * (r0 + 550 * y) - tw * 3 * (r + 550 * y) >= tw * 3) by (nonlinear_arith)
                requires
                    r < r0,
                    tw * 3 >= 1650,
            ;
        }
        let written = row_written(target.len() as int, src.len() as int, tw, x, y, r0);
        if written && i <= j < i + 1650 {
            assert(fill_rows(target, src, tw, x, y, n)[j] == src[r0 * 1650 + j - i]);
        } else {
            assert(fill_rows(target, src, tw, x, y, n)[j] == prev[j]);
        }
    }
}

/// Laying down `src` as tile `(x, y)` of a picture `tw` pixels wide (its
/// rows no wider than the picture's lines) keeps the length; byte `j` then
/// holds the matching byte of the source row written over it, and keeps its
/// value when no row is written over it.
pub proof fn lemma_filled_block_pointwise(
    target: Seq<u8>,
    src: Seq<u8>,
    tw: int,
    x: int,
    y: int,
    j: int,
)
    requires
        tw * 3 >= 1650,
        0 <= j < target.len(),
    ensures
        filled_block(target, src, tw, x, y).len() == target.len(),
        forall|r: int|
            #[trigger] row_written(target.len() as int, src.len() as int, tw, x, y, r)
                && block_row_offset(tw, r, x, y) <= j < block_row_offset(tw, r, x, y) + 1650
                ==> filled_block(target, src, tw, x, y)[j] == src[r * 1650 + j - block_row_offset(
                tw,
                r,
                x,
                y,
            )],
        (forall|r: int|
            #[trigger] row_written(target.len() as int, src.len() as int, tw, x, y, r)
                ==> !(block_row_offset(tw, r, x, y) <= j < block_row_offset(tw, r, x, y) + 1650))
            ==> filled_block(target, src, tw, x, y)[j] == target[j],
{
    let n = src.len() / 1650;
    lemma_fill_rows_len(target, src, tw, x, y, n);
    lemma_fill_rows_general(target, src, tw, x, y, n, j);
}

/// Laying down a tile of exactly 550 complete rows as tile `(x, y)` of a
/// picture `tw` pixels wide and `height` lines high, where the tile lies
/// inside the picture, puts byte `col` of tile row `r` at byte `1650 x + col`
/// of line `550 y + r`, and leaves every other byte as it was.
pub proof fn lemma_fill_block_places_tile(
    target: Seq<u8>,
    src: Seq<u8>,
    tw: int,
    height: int,
    x: int,
    y: int,
    line: int,
    col: int,
)
    requires
        src.len() == 550 * 1650,
        0 <= x,
        0 <= y,
        1650 * (x + 1) <= tw * 3,
        550 * (y + 1) <= height,
        target.len() == tw * 3 * height,
        0 <= line < height,
        0 <= col < tw * 3,
    ensures
        filled_block(target, src, tw, x, y).len() == target.len(),
        filled_block(target, src, tw, x, y)[at(tw * 3, line, col)] == if 550 * y <= line < 550 * y
            + 550 && 1650 * x <= col < 1650 * x + 1650 {
            src[at(1650, line - 550 * y, col - 1650 * x)]
        } else {
            target[at(tw * 3, line, col)]
        },
{
    assert(src.len() / 1650 == 550);
    lemma_fill_rows_pointwise(target, src, tw, height, x, y, 550, line, col);
}

/// Byte `j` lies in one of the first `n` rows of tile `(x, y)` of a picture
/// `tw` pixels wide.
pub open spec fn in_tile_rows(tw: int, x: int, y: int, n: nat, j: int) -> bool {
    exists|r: int|
        0 <= r < n && block_row_offset(tw, r, x, y) <= j < #[trigger] block_row_offset(
            tw,
            r,
            x,
            y,
        ) + 1650
}

/// Bytes outside the rows written are left as they were.
proof fn lemma_fill_rows_outside(
    target: Seq<u8>,
    src: Seq<u8>,
    tw: int,
    x: int,
    y: int,
    n: nat,
    j: int,
)
    requires
        0 <= j < target.len(),
        !in_tile_rows(tw, x, y, n, j),
    ensures
        fill_rows(target, src, tw, x, y, n)[j] == target[j],
    decreases n,
{
    if n > 0 {
        let r = n - 1;
        assert(!in_tile_rows(tw, x, y, (n - 1) as nat, j)) by {
            if in_tile_rows(tw, x, y, (n - 1) as nat, j) {
                let w = choose|w: int|
                    0 <= w < n - 1 && block_row_offset(tw, w, x, y) <= j < #[trigger] block_row_offset(
                        tw,
                        w,
                        x,
                        y,
                    ) + 1650;
                assert(0 <= w < n && block_row_offset(tw, w, x, y) <= j < block_row_offset(
                    tw,
                    w,
                    x,
                    y,
                ) + 1650);
            }
        }
        lemma_fill_rows_outside(target, src, tw, x, y, (n - 1) as nat, j);
        lemma_fill_rows_len(target, src, tw, x, y, (n - 1) as nat);
        let i = block_row_offset(tw, r, x, y);
        assert(!(i <= j < i + 1650)) by {
            if i <= j < i + 1650 {
                assert(0 <= r < n && block_row_offset(tw, r, x, y) <= j < block_row_offset(
                    tw,
                    r,
                    x,
                    y,
                ) + 1650);
            }
        }
    }
}

/// Filling rows into two targets of one length that agree at byte `j`
/// gives results that agree at byte `j`.
proof fn lemma_fill_rows_agree(
    a: Seq<u8>,
    b: Seq<u8>,
    src: Seq<u8>,
    tw: int,
    x: int,
    y: int,
    n: nat,
    j: int,
)
    requires
        a.len() == b.len(),
        0 <= j < a.len(),
        a[j] == b[j],
    ensures
        fill_rows(a, src, tw, x, y, n)[j] == fill_rows(b, src, tw, x, y, n)[j],
    decreases n,
{
    if n > 0 {
        lemma_fill_rows_agree(a, b, src, tw, x, y, (n - 1) as nat, j);
        lemma_fill_rows_len(a, src, tw, x, y, (n - 1) as nat);
        lemma_fill_rows_len(b, src, tw, x, y, (n - 1) as nat);
    }
}

/// No byte lies in rows of two different tiles of at most 550 rows each.
proof fn lemma_tiles_disjoint(
    tw: int,
    x1: int,
    y1: int,
    x2: int,
    y2: int,
    n1: nat,
    n2: nat,
    j: int,
)
    requires
        0 <= x1,
        0 <= y1,
        0 <= x2,
        0 <= y2,
        x1 != x2 || y1 != y2,
        1650 * (x1 + 1) <= tw * 3,
        1650 * (x2 + 1) <= tw * 3,
        n1 <= 550,
        n2 <= 550,
        in_tile_rows(tw, x1, y1, n1, j),
    ensures
        !in_tile_rows(tw, x2, y2, n2, j),
{
    let r1 = choose|r: int|
        0 <= r < n1 && block_row_offset(tw, r, x1, y1) <= j < #[trigger] block_row_offset(
            tw,
            r,
            x1,
            y1,
        ) + 1650;
    if in_tile_rows(tw, x2, y2, n2, j) {
        let r2 = choose|r: int|
            0 <= r < n2 && block_row_offset(tw, r, x2, y2) <= j < #[trigger] block_row_offset(
                tw,
                r,
                x2,
                y2,
            ) + 1650;
        let stride = tw * 3;
        let l1 = r1 + 550 * y1;
        let l2 = r2 + 550 * y2;
        let c1 = j - stride * l1;
        let c2 = j - stride * l2;
        assert(block_row_offset(tw, r1, x1, y1) == stride * l1 + 1650 * x1) by (nonlinear_arith)
            requires
                stride == tw * 3,
                l1 == r1 + 550 * y1,
        ;
        assert(block_row_offset(tw, r2, x2, y2) == stride * l2 + 1650 * x2) by (nonlinear_arith)
            requires
                stride == tw * 3,
                l2 == r2 + 550 * y2,
        ;
        assert(j == at(stride, l1, c1));
        assert(j == at(stride, l2, c2));
        lemma_at_injective(stride, l1, c1, l2, c2);
        assert(x1 == x2);
        assert(y1 == y2);
    }
}

/// Laying down two different tiles, each of at most 550 rows and each lying
/// within the picture's width, gives the same picture in either order.
pub proof fn lemma_fill_blocks_commute(
    target: Seq<u8>,
    s1: Seq<u8>,
    s2: Seq<u8>,
    tw: int,
    x1: int,
    y1: int,
    x2: int,
    y2: int,
)
    requires
        0 <= x1,
        0 <= y1,
        0 <= x2,
        0 <= y2,
        x1 != x2 || y1 != y2,
        1650 * (x1 + 1) <= tw * 3,
        1650 * (x2 + 1) <= tw * 3,
        s1.len() <= 550 * 1650,
        s2.len() <= 550 * 1650,
    ensures
        filled_block(filled_block(target, s1, tw, x1, y1), s2, tw, x2, y2) == filled_block(
            filled_block(target, s2, tw, x2, y2),
            s1,
            tw,
            x1,
            y1,
        ),
{
    let n1 = s1.len() / 1650;
    let n2 = s2.len() / 1650;
    let one = filled_block(target, s1, tw, x1, y1);
    let two = filled_block(target, s2, tw, x2, y2);
    let a = filled_block(one, s2, tw, x2, y2);
    let b = filled_block(two, s1, tw, x1, y1);
    lemma_fill_rows_len(target, s1, tw, x1, y1, n1);
    lemma_fill_rows_len(target, s2, tw, x2, y2, n2);
    lemma_fill_rows_len(one, s2, tw, x2, y2, n2);
    lemma_fill_rows_len(two, s1, tw, x1, y1, n1);
    assert forall|j: int| 0 <= j < a.len() implies a[j] == b[j] by {
        if in_tile_rows(tw, x1, y1, n1, j) {
            lemma_tiles_disjoint(tw, x1, y1, x2, y2, n1, n2, j);
            lemma_fill_rows_outside(one, s2, tw, x2, y2, n2, j);
            lemma_fill_rows_outside(target, s2, tw, x2, y2, n2, j);
            lemma_fill_rows_agree(two, target, s1, tw, x1, y1, n1, j);
        } else {
            lemma_fill_rows_outside(two, s1, tw, x1, y1, n1, j);
            lemma_fill_rows_outside(target, s1, tw, x1, y1, n1, j);
            lemma_fill_rows_agree(one, target, s2, tw, x2, y2, n2, j);
        }
    }
    assert(a =~= b);
}

/// The picture after the first `k` tiles (in reading order: row by row, left
/// to right) of a `grid` x `grid` split have been laid down on `data`.
pub open spec fn laid_tiles(data: Seq<u8>, tiles: Seq<Seq<u8>>, grid: nat, k: nat) -> Seq<u8>
    decreases k,
{
    if k == 0 || grid == 0 {
        data
    } else {
        let t = k - 1;
        filled_block(
            laid_tiles(data, tiles, grid, (k - 1) as nat),
            tiles[t],
            550 * (grid as int),
            t % (grid as int),
            t / (grid as int),
        )
    }
}

/// The bytes of the joined picture: all `grid * grid` tiles laid down, in
/// reading order, on a black square `550 * grid` pixels wide.
pub open spec fn combined(tiles: Seq<Seq<u8>>, grid: nat) -> Seq<u8> {
    laid_tiles(
        Seq::new(550 * grid * (550 * grid) * 3, |i: int| 0u8),
        tiles,
        grid,
        grid * grid,
    )
}

/// Every tile can be laid down without the arithmetic leaving `usize`.
pub open spec fn tiles_fit(tiles: Seq<Seq<u8>>, grid: nat) -> bool {
    forall|k: int|
        0 <= k < tiles.len() ==> #[trigger] fill_block_fits(
            550 * (grid as int),
            tiles[k].len() as int,
            k % (grid as int),
            k / (grid as int),
        )
}

proof fn lemma_laid_tiles_len(data: Seq<u8>, tiles: Seq<Seq<u8>>, grid: nat, k: nat)
    ensures
        laid_tiles(data, tiles, grid, k).len() == data.len(),
    decreases k,
{
    if k > 0 && grid > 0 {
        lemma_laid_tiles_len(data, tiles, grid, (k - 1) as nat);
        let t = k - 1;
        lemma_fill_rows_len(
            laid_tiles(data, tiles, grid, (k - 1) as nat),
            tiles[t],
            550 * (grid as int),
            t % (grid as int),
            t / (grid as int),
            tiles[t].len() / 1650,
        );
    }
}

proof fn lemma_laid_tiles_pointwise(
    tiles: Seq<Seq<u8>>,
    grid: nat,
    k: nat,
    ty: int,
    r: int,
    tx: int,
    q: int,
)
    requires
        1 <= grid,
        k <= grid * grid,
        tiles.len() == grid * grid,
        forall|i: int| 0 <= i < tiles.len() ==> #[trigger] tiles[i].len() == 550 * 1650,
        0 <= ty < grid,
        0 <= tx < grid,
        0 <= r < 550,
        0 <= q < 1650,
    ensures
        laid_tiles(Seq::new(550 * grid * (550 * grid) * 3, |i: int| 0u8), tiles, grid, k)[at(
            1650 * (grid as int),
            550 * ty + r,
            1650 * tx + q,
        )] == if ty * grid + tx < k {
            tiles[ty * grid + tx][at(1650, r, q)]
        } else {
            0u8
        },
    decreases k,
{
    let g = grid as int;
    let zeros = Seq::new(550 * grid * (550 * grid) * 3, |i: int| 0u8);
    let stride = 1650 * g;
    let height = 550 * g;
    let line = 550 * ty + r;
    let col = 1650 * tx + q;
    assert(zeros.len() == stride * height) by (nonlinear_arith)
        requires
            zeros.len() == 550 * grid * (550 * grid) * 3,
            stride == 1650 * grid,
            height == 550 * grid,
    ;
    lemma_at_bound(stride, height, line, col);
    if k > 0 {
        let t = k - 1;
        let prev = laid_tiles(zeros, tiles, grid, (k - 1) as nat);
        lemma_laid_tiles_len(zeros, tiles, grid, (k - 1) as nat);
        lemma_laid_tiles_pointwise(tiles, grid, (k - 1) as nat, ty, r, tx, q);
        let x = t % g;
        let y = t / g;
        vstd::arithmetic::div_mod::lemma_fundamental_div_mod(t, g);
        vstd::arithmetic::div_mod::lemma_mod_bound(t, g);
        vstd::arithmetic::div_mod::lemma_div_pos_is_pos(t, g);
        assert(y < g) by {
            if y >= g {
                assert(g * y >= g * g) by (nonlinear_arith)
                    requires
                        y >= g,
                        g >= 1,
                ;
            }
        }
        assert(tiles[t].len() == 550 * 1650);
        lemma_fill_block_places_tile(prev, tiles[t], 550 * g, height, x, y, line, col);
        if ty == y && tx == x {
            assert(ty * g + tx == t) by (nonlinear_arith)
                requires
                    t == g * y + x,
                    ty == y,
                    tx == x,
            ;
        } else if ty * g + tx == t {
            vstd::arithmetic::div_mod::lemma_fundamental_div_mod_converse(t, g, ty, tx);
        }
    }
}

/// Joining a `grid` x `grid` split whose tiles are all complete (550 lines
/// of 1650 bytes) puts byte `q` of line `r` of the tile in column `tx` and
/// row `ty` at byte `1650 tx + q` of line `550 ty + r` of the joined picture.
pub proof fn lemma_combined_places_tiles(
    tiles: Seq<Seq<u8>>,
    grid: nat,
    ty: int,
    r: int,
    tx: int,
    q: int,
)
    requires
        1 <= grid,
        tiles.len() == grid * grid,
        forall|i: int| 0 <= i < tiles.len() ==> #[trigger] tiles[i].len() == 550 * 1650,
        0 <= ty < grid,
        0 <= tx < grid,
        0 <= r < 550,
        0 <= q < 1650,
    ensures
        combined(tiles, grid).len() == 1650 * grid * (550 * grid),
        combined(tiles, grid)[at(1650 * (grid as int), 550 * ty + r, 1650 * tx + q)] == tiles[ty * grid
            + tx][at(1650, r, q)],
{
    let zeros = Seq::new(550 * grid * (550 * grid) * 3, |i: int| 0u8);
    lemma_laid_tiles_len(zeros, tiles, grid, grid * grid);
    assert(zeros.len() == 1650 * grid * (550 * grid)) by (nonlinear_arith)
        requires
            zeros.len() == 550 * grid * (550 * grid) * 3,
    ;
    assert(ty * grid + tx < grid * grid) by (nonlinear_arith)
        requires
            0 <= ty < grid,
            0 <= tx < grid,
    ;
    lemma_laid_tiles_pointwise(tiles, grid, grid * grid, ty, r, tx, q);
}

pub(crate) fn join_grid(grid: usize, tiles: &Vec<Vec<u8>>) -> (img: RgbImage)
    requires
        1 <= grid <= 4,
        tiles.len() == grid * grid,
        tiles_fit(tiles.deep_view(), grid as nat),
    ensures
        img@ == (Picture {
            width: 550 * grid as nat,
            height: 550 * grid as nat,
            bytes: combined(tiles.deep_view(), grid as nat),
        }),
{
    let side = 550 * grid;
    let ghost tv = tiles.deep_view();
    let ghost zeros = Seq::new(550 * (grid as nat) * (550 * (grid as nat)) * 3, |i: int| 0u8);
    assert(side * side * 3 <= 2200 * 2200 * 3) by (nonlinear_arith)
        requires
            side == 550 * grid,
            grid <= 4,
    ;
    let canvas = RgbImage::new(side as u32, side as u32);
    let mut data = canvas.into_raw();
    assert(data@ =~= zeros);
    let n = grid * grid;
    let mut k: usize = 0;
    while k < n
        invariant
            1 <= grid <= 4,
            side == 550 * grid,
            n == grid * grid,
            tiles.len() == n,
            tv == tiles.deep_view(),
            tiles_fit(tv, grid as nat),
            k <= n,
            data@ == laid_tiles(zeros, tv, grid as nat, k as nat),
        decreases n - k,
    {
        let x = k % grid;
        let y = k / grid;
        assert(fill_block_fits(550 * grid, tv[k as int].len() as int, x as int, y as int));
        assert(tv[k as int] == tiles[k as int]@);
        fill_block(side, &mut data, &tiles[k], x, y);
        k = k + 1;
    }
    proof {
        lemma_laid_tiles_len(zeros, tv, grid as nat, n as nat);
    }
    let res = RgbImage::from_raw(side as u32, side as u32, data);
    match res {
        Some(img) => img,
        None => {
            assert(false);
            RgbImage::new(0, 0)
        },
    }
}

/// Joins the 16 tiles of a 4x4 split (given in reading order: row by row,
/// left to right, each 550 lines of 1650 bytes) into one 2200x2200 picture.
pub fn join_4x4(tiles: &Vec<Vec<u8>>) -> (img: RgbImage)
    requires
        tiles.len() == 16,
        tiles_fit(tiles.deep_view(), 4),
    ensures
        img@ == (Picture { width: 2200, height: 2200, bytes: combined(tiles.deep_view(), 4) }),
{
    join_grid(4, tiles)
}

/// Joins the 4 tiles of a 2x2 split (given in reading order) into one
/// 1100x1100 picture.
pub fn join_2x2(tiles: &Vec<Vec<u8>>) -> (img: RgbImage)
    requires
        tiles.len() == 4,
        tiles_fit(tiles.deep_view(), 2),
    ensures
        img@ == (Picture { width: 1100, height: 1100, bytes: combined(tiles.deep_view(), 2) }),
{
    join_grid(2, tiles)
}

/// How finely the picture is split for download: the whole earth on a
/// desktop of fewer pixels than 1920x1200 needs only the 2x2 split (a
/// 1100x1100 picture, quicker to fetch); everything else uses the 4x4 split
/// (2200x2200).
pub open spec fn grid_for(kind: Wallpaper, width: nat, height: nat) -> u32 {
    if kind == Wallpaper::Full && width * height < 1920 * 1200 {
        2
    } else {
        4
    }
}

/// Chooses the split to download for a desktop of the given size.
pub fn tile_grid(kind: Wallpaper, width: u32, height: u32) -> (grid: u32)
    ensures
        grid == grid_for(kind, width as nat, height as nat),
{
    assert((width as int) * (height as int) <= 0xffff_ffff_ffff_ffff) by (nonlinear_arith)
        requires
            width <= 0xffff_ffff,
            height <= 0xffff_ffff,
    ;
    let pixels = width as u64 * height as u64;
    match kind {
        Wallpaper::Full => if pixels < 1920 * 1200 {
            2
        } else {
            4
        },
        Wallpaper::Half => 4,
    }
}

/// The upper half is always fetched as the 4x4 split; the whole earth uses
/// the 2x2 split exactly when the desktop has fewer pixels than 1920x1200,
/// and the 4x4 split otherwise.
pub proof fn lemma_grid_choice(width: nat, height: nat)
    ensures
        grid_for(Wallpaper::Half, width, height) == 4,
        width * height < 1920 * 1200 ==> grid_for(Wallpaper::Full, width, height) == 2,
        width * height >= 1920 * 1200 ==> grid_for(Wallpaper::Full, width, height) == 4,
{
}

} // verus!
