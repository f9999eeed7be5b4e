use himawari8::fetch::{combine_2x2, combine_4x4, fetch_step, FetchAction, FetchError, FetchEvent};

fn png_bytes(width: u32, height: u32, color: png::ColorType, data: &[u8]) -> Vec<u8> {
    let mut out: Vec<u8> = Vec::new();
    {
        let mut encoder = png::Encoder::new(&mut out, width, height);
        encoder.set_color(color);
        encoder.set_depth(png::BitDepth::Eight);
        let mut writer = encoder.write_header().unwrap();
        writer.write_image_data(data).unwrap();
        writer.finish().unwrap();
    }
    out
}

/// A grey 550x550 tile file whose every pixel has the level `level`.
fn grey_tile_file(level: u8) -> Vec<u8> {
    png_bytes(550, 550, png::ColorType::Grayscale, &vec![level; 550 * 550])
}

#[test]
fn combine_4x4_first_asks_for_the_top_left_tile() {
    let (_, action) = fetch_step(combine_4x4(2019, 2, 27, 14, 10), FetchEvent::Begin);
    match action {
        FetchAction::Request { current, total, url } => {
            assert_eq!((current, total), (1, 16));
            assert_eq!(
                url,
                "http://himawari8-dl.nict.go.jp/himawari8/img/D531106/4d/550/2019/02/27/141000_0_0.png"
            );
        }
        _ => panic!("expected a request"),
    }
}

#[test]
fn combine_2x2_fetches_in_reading_order_and_joins() {
    let mut fetch = combine_2x2(2019, 2, 27, 14, 0);
    let mut event = FetchEvent::Begin;
    let mut requests: Vec<(i32, i32, String)> = Vec::new();
    let levels = [10u8, 20, 30, 40];
    let image = loop {
        let (next, action) = fetch_step(fetch, event);
        fetch = next;
        match action {
            FetchAction::Request { current, total, url } => {
                requests.push((current, total, url));
                event = FetchEvent::Downloaded(grey_tile_file(levels[requests.len() - 1]));
            }
            FetchAction::Done(image) => break image,
            _ => panic!("unexpected end"),
        }
    };
    let base = "http://himawari8-dl.nict.go.jp/himawari8/img/D531106/2d/550/2019/02/27/140000_";
    assert_eq!(
        requests,
        vec![
            (1, 4, format!("{}0_0.png", base)),
            (2, 4, format!("{}1_0.png", base)),
            (3, 4, format!("{}0_1.png", base)),
            (4, 4, format!("{}1_1.png", base)),
        ]
    );
    assert_eq!((image.width(), image.height()), (1100, 1100));
    let raw = image.as_raw();
    let stride = 3300;
    assert_eq!(raw[0], 10);
    assert_eq!(raw[1650], 20);
    assert_eq!(raw[stride * 550], 30);
    assert_eq!(raw[stride * 1099 + 3299], 40);
    // After the end every event is answered with `Ended`.
    let (_, action) = fetch_step(fetch, FetchEvent::Begin);
    assert!(matches!(action, FetchAction::Ended));
}

#[test]
fn a_failed_download_stops_the_fetch() {
    let fetch = combine_4x4(2019, 2, 27, 14, 10);
    let (fetch, _) = fetch_step(fetch, FetchEvent::Begin);
    let (fetch, action) = fetch_step(fetch, FetchEvent::Downloaded(grey_tile_file(1)));
    match action {
        FetchAction::Request { current, total, url } => {
            assert_eq!((current, total), (2, 16));
            assert!(url.ends_with("/141000_1_0.png"));
        }
        _ => panic!("expected a request"),
    }
    let (fetch, action) = fetch_step(fetch, FetchEvent::DownloadFailed);
    assert!(matches!(action, FetchAction::Stop(FetchError::DownloadFailed)));
    let (fetch, action) = fetch_step(fetch, FetchEvent::Begin);
    assert!(matches!(action, FetchAction::Ended));
    let (_, action) = fetch_step(fetch, FetchEvent::Downloaded(grey_tile_file(1)));
    assert!(matches!(action, FetchAction::Ended));
}

#[test]
fn an_unreadable_tile_stops_the_fetch() {
    let (fetch, _) = fetch_step(combine_2x2(2019, 2, 27, 14, 0), FetchEvent::Begin);
    let (fetch, action) = fetch_step(fetch, FetchEvent::Downloaded(b"<html>busy</html>".to_vec()));
    assert!(matches!(action, FetchAction::Stop(FetchError::UnreadableTile)));
    let (_, action) = fetch_step(fetch, FetchEvent::Begin);
    assert!(matches!(action, FetchAction::Ended));
}
