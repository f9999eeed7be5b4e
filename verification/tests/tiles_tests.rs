use himawari8::tiles::{fill_block, join_2x2, join_4x4, tile_grid};
use himawari8::tray::Wallpaper;
use himawari8::url::{format_url, tile_urls};

fn tile(seed: u8) -> Vec<u8> {
    let mut v: Vec<u8> = Vec::with_capacity(550 * 1650);
    for r in 0..550usize {
        for q in 0..1650usize {
            v.push(seed.wrapping_mul(31).wrapping_add((r * 7 + q * 3) as u8));
        }
    }
    v
}

#[test]
fn format_url_whole_disk() {
    assert_eq!(
        format_url(2019, 2, 27, 14, 0, 1, 0, 0),
        "http://himawari8-dl.nict.go.jp/himawari8/img/D531106/1d/550/2019/02/27/140000_0_0.png"
    );
}

#[test]
fn format_url_two_by_two_corners() {
    assert_eq!(
        format_url(2019, 2, 27, 14, 0, 2, 0, 0),
        "http://himawari8-dl.nict.go.jp/himawari8/img/D531106/2d/550/2019/02/27/140000_0_0.png"
    );
    assert_eq!(
        format_url(2019, 2, 27, 14, 0, 2, 1, 0),
        "http://himawari8-dl.nict.go.jp/himawari8/img/D531106/2d/550/2019/02/27/140000_1_0.png"
    );
}

#[test]
fn format_url_ten_minute_digit() {
    assert_eq!(
        format_url(2019, 2, 27, 14, 10, 4, 3, 2),
        "http://himawari8-dl.nict.go.jp/himawari8/img/D531106/4d/550/2019/02/27/141000_3_2.png"
    );
    assert_eq!(
        format_url(2020, 11, 5, 3, 59, 4, 0, 3),
        "http://himawari8-dl.nict.go.jp/himawari8/img/D531106/4d/550/2020/11/05/035000_0_3.png"
    );
}

#[test]
fn format_url_wide_and_negative_fields() {
    assert_eq!(
        format_url(-5, 123, 0, 7, 100, 10, 12, 0),
        "http://himawari8-dl.nict.go.jp/himawari8/img/D531106/10d/550/-5/123/00/0710000_12_0.png"
    );
}

#[test]
fn tile_urls_reading_order() {
    let urls = tile_urls(2019, 2, 27, 14, 10, 4);
    assert_eq!(urls.len(), 16);
    // 14:10 is asked for as 141000.
    assert_eq!(urls[0], format_url(2019, 2, 27, 14, 10, 4, 0, 0));
    assert_eq!(
        urls[0],
        "http://himawari8-dl.nict.go.jp/himawari8/img/D531106/4d/550/2019/02/27/141000_0_0.png"
    );
    assert_eq!(urls[1], format_url(2019, 2, 27, 14, 10, 4, 1, 0));
    assert_eq!(urls[3], format_url(2019, 2, 27, 14, 10, 4, 3, 0));
    assert_eq!(urls[4], format_url(2019, 2, 27, 14, 10, 4, 0, 1));
    assert_eq!(urls[15], format_url(2019, 2, 27, 14, 10, 4, 3, 3));
    assert!(urls[5].ends_with("/141000_1_1.png"));
    let small = tile_urls(2019, 2, 27, 14, 45, 2);
    assert_eq!(small.len(), 4);
    assert!(small[0].ends_with("2d/550/2019/02/27/144000_0_0.png"));
    assert!(small[1].ends_with("2d/550/2019/02/27/144000_1_0.png"));
    assert!(small[2].ends_with("2d/550/2019/02/27/144000_0_1.png"));
    assert!(small[3].ends_with("2d/550/2019/02/27/144000_1_1.png"));
    let on_the_hour = tile_urls(2019, 2, 27, 14, 0, 2);
    assert!(on_the_hour[0].ends_with("/140000_0_0.png"));
}

#[test]
fn fill_block_places_rows() {
    // A picture 1100 pixels wide and 1100 lines high; tile (1, 1).
    let mut target: Vec<u8> = vec![9u8; 1100 * 1100 * 3];
    let src = tile(3);
    fill_block(1100, &mut target, &src, 1, 1);
    let stride: usize = 3300;
    for r in [0usize, 1, 274, 549] {
        for q in [0usize, 1, 800, 1649] {
            assert_eq!(target[stride * (550 + r) + 1650 + q], src[1650 * r + q]);
        }
    }
    assert_eq!(target[0], 9);
    assert_eq!(target[stride * 550 + 1649], 9);
    assert_eq!(target[stride * 549 + 1650], 9);
}

#[test]
fn fill_block_skips_partial_and_outside_rows() {
    // Three full rows and a partial one.
    let src: Vec<u8> = (0..(1650 * 3 + 10)).map(|i: usize| (i % 251) as u8).collect();
    // Room for two rows of tile (0, 0) in a 550-pixel-wide picture.
    let mut target: Vec<u8> = vec![7u8; 1650 * 2];
    fill_block(550, &mut target, &src, 0, 0);
    assert_eq!(&target[..], &src[..3300]);
    let mut small: Vec<u8> = vec![7u8; 100];
    fill_block(550, &mut small, &src, 0, 0);
    assert_eq!(small, vec![7u8; 100]);
    let mut empty_src_target: Vec<u8> = vec![1u8; 10];
    fill_block(550, &mut empty_src_target, &Vec::new(), 3, 3);
    assert_eq!(empty_src_target, vec![1u8; 10]);
}

#[test]
fn join_2x2_puts_tiles_in_reading_order() {
    let tiles: Vec<Vec<u8>> = (0..4u8).map(tile).collect();
    let img = join_2x2(&tiles);
    assert_eq!(img.width(), 1100);
    assert_eq!(img.height(), 1100);
    let data = img.as_raw();
    assert_eq!(data.len(), 1100 * 1100 * 3);
    let stride: usize = 3300;
    for ty in 0..2usize {
        for tx in 0..2usize {
            for r in [0usize, 13, 549] {
                for q in [0usize, 2, 1649] {
                    assert_eq!(
                        data[stride * (550 * ty + r) + 1650 * tx + q],
                        tiles[ty * 2 + tx][1650 * r + q]
                    );
                }
            }
        }
    }
}

#[test]
fn join_4x4_puts_tiles_in_reading_order() {
    let tiles: Vec<Vec<u8>> = (0..16u8).map(tile).collect();
    let img = join_4x4(&tiles);
    assert_eq!(img.width(), 2200);
    assert_eq!(img.height(), 2200);
    let data = img.as_raw();
    let stride: usize = 6600;
    for ty in 0..4usize {
        for tx in 0..4usize {
            for r in [0usize, 300, 549] {
                for q in [0usize, 1000, 1649] {
                    assert_eq!(
                        data[stride * (550 * ty + r) + 1650 * tx + q],
                        tiles[ty * 4 + tx][1650 * r + q]
                    );
                }
            }
        }
    }
}

#[test]
fn join_2x2_leaves_missing_parts_black() {
    let mut tiles: Vec<Vec<u8>> = (0..4u8).map(tile).collect();
    tiles[3] = Vec::new();
    tiles[1].truncate(1650 * 2);
    let img = join_2x2(&tiles);
    let data = img.as_raw();
    let stride: usize = 3300;
    assert_eq!(data[stride * 551 + 1650 + 5], 0);
    assert_eq!(data[stride + 1650 + 5], tiles[1][1650 + 5]);
    assert_eq!(data[stride * 2 + 1650 + 5], 0);
    assert_eq!(data[stride * 2 + 5], tiles[0][1650 * 2 + 5]);
}

#[test]
fn small_desktops_use_the_coarse_split_for_the_whole_earth() {
    assert_eq!(tile_grid(Wallpaper::Full, 1366, 768), 2);
    assert_eq!(tile_grid(Wallpaper::Full, 1920, 1080), 2);
    assert_eq!(tile_grid(Wallpaper::Full, 1920, 1200), 4);
    assert_eq!(tile_grid(Wallpaper::Full, 2560, 1440), 4);
    assert_eq!(tile_grid(Wallpaper::Half, 1366, 768), 4);
    assert_eq!(tile_grid(Wallpaper::Full, u32::MAX, u32::MAX), 4);
}

#[test]
fn tile_fills_commute_on_different_blocks() {
    // Two neighbouring tiles, and a short one that ends in a partial row,
    // laid down in either order on the same non-black start.
    let start: Vec<u8> = (0..(1100 * 1100 * 3)).map(|i: usize| (i % 13) as u8).collect();
    let a = tile(5);
    let b: Vec<u8> = (0..(1650 * 200 + 77)).map(|i: usize| (i % 241) as u8).collect();
    let mut first = start.clone();
    fill_block(1100, &mut first, &a, 1, 0);
    fill_block(1100, &mut first, &b, 0, 1);
    let mut second = start.clone();
    fill_block(1100, &mut second, &b, 0, 1);
    fill_block(1100, &mut second, &a, 1, 0);
    assert_eq!(first, second);
    assert_ne!(first, start);
}
