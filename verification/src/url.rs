use vstd::prelude::*;
use crate::decimal::{decimal_int, decimal_pad2, push_int, push_pad2};

verus! {

/// The address of one 550x550 tile of the full-disk picture.
///
/// The picture is split into `d` x `d` tiles; `(x, y)` is the tile's column and
/// row. The time stamp is written as `HH` followed by the ten-minute digit
/// `ten_minute / 10`, then `000`.
pub open spec fn tile_url(
    year: int,
    month: nat,
    day: nat,
    hour: nat,
    ten_minute: nat,
    d: nat,
    x: nat,
    y: nat,
) -> Seq<char> {
    "http://himawari8-dl.nict.go.jp/himawari8/img/D531106/"@ + decimal_int(d as int) + "d/550/"@
        + decimal_int(year) + "/"@ + decimal_pad2(month) + "/"@ + decimal_pad2(day) + "/"@
        + decimal_pad2(hour) + decimal_int((ten_minute / 10) as int) + "000_"@ + decimal_int(
        x as int,
    ) + "_"@ + decimal_int(y as int) + ".png"@
}

/// Formats the address of tile `(x, y)` of a `d` x `d` split picture taken at
/// the given UTC time.
pub fn format_url(
    year: i32,
    month: u32,
    day: u32,
    hour: u32,
    ten_minute: u32,
    d: u32,
    x: u32,
    y: u32,
) -> (url: String)
    ensures
        url@ == tile_url(
            year as int,
            month as nat,
            day as nat,
            hour as nat,
            ten_minute as nat,
            d as nat,
            x as nat,
            y as nat,
        ),
{
    let mut s = String::new();
    s.append("http://himawari8-dl.nict.go.jp/himawari8/img/D531106/");
    push_int(&mut s, d as i64);
    s.append("d/550/");
    push_int(&mut s, year as i64);
    s.append("/");
    push_pad2(&mut s, month as u64);
    s.append("/");
    push_pad2(&mut s, day as u64);
    s.append("/");
    push_pad2(&mut s, hour as u64);
    push_int(&mut s, (ten_minute / 10) as i64);
    s.append("000_");
    push_int(&mut s, x as i64);
    s.append("_");
    push_int(&mut s, y as i64);
    s.append(".png");
    s
}

/// The addresses of all tiles of a `grid` x `grid` split taken at the given
/// hour and minute, in the order they are fetched and joined: row by row,
/// left to right. The time stamp carries the minute's ten-minute digit, so
/// 14:10 up to 14:19 is asked for as `141000`.
pub fn tile_urls(year: i32, month: u32, day: u32, hour: u32, ten_minute: u32, grid: u32) -> (urls:
    Vec<String>)
    requires
        grid * grid <= usize::MAX,
    ensures
        urls.len() == grid * grid,
        forall|k: int|
            0 <= k < urls.len() ==> #[trigger] urls[k]@ == tile_url(
                year as int,
                month as nat,
                day as nat,
                hour as nat,
                ten_minute as nat,
                grid as nat,
                (k % (grid as int)) as nat,
                (k / (grid as int)) as nat,
            ),
{
    let mut urls: Vec<String> = Vec::new();
    let g = grid as usize;
    let mut y: usize = 0;
    while y < g
        invariant
            g == grid,
            g * g <= usize::MAX,
            y <= g,
            urls.len() == y * g,
            forall|k: int|
                0 <= k < urls.len() ==> #[trigger] urls[k]@ == tile_url(
                    year as int,
                    month as nat,
                    day as nat,
                    hour as nat,
                    ten_minute as nat,
                    grid as nat,
                    (k % (grid as int)) as nat,
                    (k / (grid as int)) as nat,
                ),
        decreases g - y,
    {
        let mut x: usize = 0;
        while x < g
            invariant
                g == grid,
                g * g <= usize::MAX,
                y < g,
                x <= g,
                urls.len() == y * g + x,
                forall|k: int|
                    0 <= k < urls.len() ==> #[trigger] urls[k]@ == tile_url(
                        year as int,
                        month as nat,
                        day as nat,
                        hour as nat,
                        ten_minute as nat,
                        grid as nat,
                        (k % (grid as int)) as nat,
                        (k / (grid as int)) as nat,
                    ),
            decreases g - x,
        {
            proof {
                assert(y * g + x < g * g) by (nonlinear_arith)
                    requires
                        y < g,
                        x < g,
                ;
                vstd::arithmetic::div_mod::lemma_fundamental_div_mod_converse(
                    (y * g + x) as int,
                    g as int,
                    y as int,
                    x as int,
                );
            }
            let url = format_url(year, month, day, hour, ten_minute, grid, x as u32, y as u32);
            urls.push(url);
            x = x + 1;
        }
        proof {
            assert(y * g + g == (y + 1) * g) by (nonlinear_arith);
        }
        y = y + 1;
    }
    urls
}

} // verus!
