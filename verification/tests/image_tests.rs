use himawari8::image::RgbImage;
use himawari8::wallpaper::{compose_full, compose_half, full_wallpaper, half_wallpaper};

fn numbered(width: u32, height: u32) -> RgbImage {
    let n: usize = (width * height * 3) as usize;
    let data: Vec<u8> = (0..n).map(|i: usize| (i % 250 + 1) as u8).collect();
    RgbImage::from_raw(width, height, data).unwrap()
}

#[test]
fn new_is_black() {
    let img = RgbImage::new(3, 2);
    assert_eq!(img.width(), 3);
    assert_eq!(img.height(), 2);
    assert_eq!(img.into_raw(), vec![0u8; 18]);
}

#[test]
fn from_raw_checks_the_length() {
    assert!(RgbImage::from_raw(2, 2, vec![0u8; 12]).is_some());
    assert!(RgbImage::from_raw(2, 2, vec![0u8; 11]).is_none());
    assert!(RgbImage::from_raw(2, 2, vec![0u8; 13]).is_none());
    assert!(RgbImage::from_raw(0, 5, Vec::new()).is_some());
}

#[test]
fn paste_copies_inside_and_clips_at_bottom() {
    let mut canvas = RgbImage::new(4, 3);
    let img = numbered(2, 2);
    canvas.paste(&img, 1, 2);
    let data = canvas.as_raw();
    // Line 2, pixels 1 and 2 get the first line of the picture.
    assert_eq!(&data[2 * 12 + 3..2 * 12 + 9], &img.as_raw()[0..6]);
    // Everything else is still black.
    assert!(data[..2 * 12 + 3].iter().all(|b| *b == 0));
    assert!(data[2 * 12 + 9..].iter().all(|b| *b == 0));
}

#[test]
fn compose_full_centres_the_earth() {
    let earth = numbered(4, 4);
    let wp = compose_full(10, 8, &earth);
    assert_eq!(wp.width(), 10);
    assert_eq!(wp.height(), 8);
    let data = wp.as_raw();
    // offset x = (10 - 4) / 2 = 3, offset y = (8 - 4) / 4 = 1.
    for line in 0..8usize {
        for col in 0..30usize {
            let b = data[30 * line + col];
            if (1..5).contains(&line) && (9..21).contains(&col) {
                assert_eq!(b, earth.as_raw()[12 * (line - 1) + col - 9]);
            } else {
                assert_eq!(b, 0);
            }
        }
    }
}

#[test]
fn compose_half_cuts_at_the_bottom() {
    let earth = numbered(6, 6);
    let wp = compose_half(6, 4, &earth, 1);
    let data = wp.as_raw();
    assert!(data[..18].iter().all(|b| *b == 0));
    assert_eq!(&data[18..], &earth.as_raw()[..54]);
}

#[test]
fn scaling_uses_nearest_neighbour() {
    // A 1x1 picture scaled up is the same colour everywhere.
    let one = RgbImage::from_raw(1, 1, vec![10, 20, 30]).unwrap();
    let big = half_wallpaper(3, 3, 0, &one);
    assert_eq!(big.into_raw(), [10u8, 20, 30].repeat(9));
    // Scaling to the same size keeps the picture.
    let src = numbered(4, 4);
    let same = half_wallpaper(4, 4, 0, &src);
    assert_eq!(same.as_raw(), src.as_raw());
    // Halving keeps one pixel of each 2x2 block.
    let halved = half_wallpaper(2, 2, 0, &src);
    let data = halved.as_raw();
    let from = src.as_raw();
    for y in 0..2usize {
        for x in 0..2usize {
            let px = &data[(y * 2 + x) * 3..(y * 2 + x) * 3 + 3];
            let candidates: Vec<&[u8]> = (0..2usize)
                .flat_map(|dy: usize| (0..2usize).map(move |dx: usize| (dy, dx)))
                .map(|(dy, dx): (usize, usize)| {
                    let i: usize = ((2 * y + dy) * 4 + 2 * x + dx) * 3;
                    &from[i..i + 3]
                })
                .collect();
            assert!(candidates.contains(&px));
        }
    }
}

#[test]
fn full_and_half_wallpapers_have_the_desktop_size() {
    let picture = numbered(8, 8);
    let full = full_wallpaper(12, 6, 5, &picture);
    assert_eq!((full.width(), full.height()), (12, 6));
    assert_eq!(full.as_raw().len(), 12 * 6 * 3);
    // Left of the earth is black; the earth starts at x = (12 - 5) / 2 = 3.
    assert_eq!(&full.as_raw()[..9], &[0u8; 9]);
    let half = half_wallpaper(6, 4, 1, &picture);
    assert_eq!((half.width(), half.height()), (6, 4));
    assert!(half.as_raw()[..18].iter().all(|b| *b == 0));
    let scaled = half_wallpaper(6, 6, 0, &picture);
    assert_eq!(&half.as_raw()[18..], &scaled.as_raw()[..54]);
}
