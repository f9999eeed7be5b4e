use vstd::prelude::*;
use crate::codec::{decode_tile, tile_frame};
use crate::image::{Picture, RgbImage};
use crate::tiles::{combined, fill_block_fits, join_grid, tiles_fit};
use crate::url::{format_url, tile_url};

verus! {

/// Why fetching the tiles stopped.
#[derive(Clone, Copy, Debug, PartialEq, Eq, Structural)]
pub enum FetchError {
    /// A tile could not be downloaded.
    DownloadFailed,
    /// A downloaded tile is not a PNG picture the decoder reads.
    UnreadableTile,
    /// A tile has so many rows that placing it would leave `usize`.
    TileTooLarge,
}

/// What the caller reports after doing what the fetch asked.
pub enum FetchEvent {
    /// Ask for the first step.
    Begin,
    /// The bytes of the tile requested last.
    Downloaded(Vec<u8>),
    /// The tile requested last could not be downloaded.
    DownloadFailed,
}

/// What the caller is to do next.
pub enum FetchAction {
    /// Report progress (`current` of `total`), then download `url`.
    Request { current: i32, total: i32, url: String },
    /// Every tile is in: the joined picture.
    Done(RgbImage),
    /// Stop with this error.
    Stop(FetchError),
    /// The fetch had already ended; there is nothing to do.
    Ended,
}

/// The content of a `FetchEvent`.
pub ghost enum FetchInput {
    Begin,
    Downloaded(Seq<u8>),
    DownloadFailed,
}

/// The content of a `FetchAction`: progress, total and address of a
/// request, the joined picture, or the reason to stop.
pub ghost enum FetchStep {
    Request(int, int, Seq<char>),
    Done(Picture),
    Stop(FetchError),
    Ended,
}

impl View for FetchEvent {
    type V = FetchInput;

    open spec fn view(&self) -> FetchInput {
        match self {
            FetchEvent::Begin => FetchInput::Begin,
            FetchEvent::Downloaded(data) => FetchInput::Downloaded(data@),
            FetchEvent::DownloadFailed => FetchInput::DownloadFailed,
        }
    }
}

impl View for FetchAction {
    type V = FetchStep;

    open spec fn view(&self) -> FetchStep {
        match self {
            FetchAction::Request { current, total, url } => FetchStep::Request(
                *current as int,
                *total as int,
                url@,
            ),
            FetchAction::Done(img) => FetchStep::Done(img@),
            FetchAction::Stop(e) => FetchStep::Stop(*e),
            FetchAction::Ended => FetchStep::Ended,
        }
    }
}

/// Where a fetch stands: the picture time and split it is for, the tiles
/// (decoded, in reading order) it holds, and whether it has failed.
pub ghost struct FetchState {
    pub year: int,
    pub month: nat,
    pub day: nat,
    pub hour: nat,
    pub ten_minute: nat,
    pub grid: nat,
    pub tiles: Seq<Seq<u8>>,
    pub failed: bool,
}

impl FetchState {
    /// Number of tiles of the split.
    pub open spec fn total(self) -> nat {
        self.grid * self.grid
    }

    /// The fetch has failed or holds every tile.
    pub open spec fn ended(self) -> bool {
        self.failed || self.tiles.len() >= self.total()
    }

    /// The address of tile `k` (in reading order).
    pub open spec fn url_of(self, k: int) -> Seq<char> {
        tile_url(
            self.year,
            self.month,
            self.day,
            self.hour,
            self.ten_minute,
            self.grid,
            (k % (self.grid as int)) as nat,
            (k / (self.grid as int)) as nat,
        )
    }

    /// The state with one more tile.
    pub open spec fn with_tile(self, tile: Seq<u8>) -> FetchState {
        FetchState { tiles: self.tiles.push(tile), ..self }
    }

    /// The state after a failure.
    pub open spec fn failing(self) -> FetchState {
        FetchState { failed: true, ..self }
    }
}

/// The state at the start of a fetch: no tile yet, no failure.
pub open spec fn fetch_start(
    year: int,
    month: nat,
    day: nat,
    hour: nat,
    ten_minute: nat,
    grid: nat,
) -> FetchState {
    FetchState { year, month, day, hour, ten_minute, grid, tiles: Seq::empty(), failed: false }
}

/// One step of a fetch. While it has not ended:
/// - `Begin` asks for tile `k` (the next one): progress `k + 1` of the total,
///   then its address;
/// - a failed download stops it;
/// - downloaded bytes are decoded as a tile (grey levels turned into RGB);
///   unreadable bytes, or a tile too large to place, stop it; otherwise the
///   tile is kept and the next tile is asked for, or, after the last one,
///   all tiles are joined.
/// Once it has ended every event gives `Ended` and changes nothing.
pub open spec fn fetch_next(s: FetchState, e: FetchInput) -> (FetchState, FetchStep) {
    let k = s.tiles.len() as int;
    let g = s.grid as int;
    if s.ended() {
        (s, FetchStep::Ended)
    } else {
        match e {
            FetchInput::Begin => (s, FetchStep::Request(k + 1, s.total() as int, s.url_of(k))),
            FetchInput::DownloadFailed => (s.failing(), FetchStep::Stop(FetchError::DownloadFailed)),
            FetchInput::Downloaded(data) => match tile_frame(data) {
                None => (s.failing(), FetchStep::Stop(FetchError::UnreadableTile)),
                Some((w, h, f, bytes)) => if !fill_block_fits(
                    550 * g,
                    bytes.len() as int,
                    k % g,
                    k / g,
                ) {
                    (s.failing(), FetchStep::Stop(FetchError::TileTooLarge))
                } else if k + 1 < s.total() {
                    (
                        s.with_tile(bytes),
                        FetchStep::Request(k + 2, s.total() as int, s.url_of(k + 1)),
                    )
                } else {
                    (
                        s.with_tile(bytes),
                        FetchStep::Done(
                            Picture {
                                width: 550 * s.grid,
                                height: 550 * s.grid,
                                bytes: combined(s.tiles.push(bytes), s.grid),
                            },
                        ),
                    )
                },
            },
        }
    }
}

/// The state and the steps after the events, taken in order.
pub open spec fn fetch_run(s: FetchState, events: Seq<FetchInput>) -> (FetchState, Seq<FetchStep>)
    decreases events.len(),
{
    if events.len() == 0 {
        (s, Seq::empty())
    } else {
        let (mid, steps) = fetch_run(s, events.drop_last());
        let (next, step) = fetch_next(mid, events.last());
        (next, steps.push(step))
    }
}

/// `Begin`, then the downloads in order.
pub open spec fn download_events(downloads: Seq<Seq<u8>>) -> Seq<FetchInput> {
    seq![FetchInput::Begin] + Seq::new(
        downloads.len(),
        |i: int| FetchInput::Downloaded(downloads[i]),
    )
}

/// The tile bytes that each download decodes to.
pub open spec fn decoded_tiles(downloads: Seq<Seq<u8>>) -> Seq<Seq<u8>> {
    Seq::new(downloads.len(), |i: int| tile_frame(downloads[i]).unwrap().3)
}

/// Every download is a readable tile that can be placed where it belongs in
/// a `grid` x `grid` split.
pub open spec fn all_readable(downloads: Seq<Seq<u8>>, grid: nat) -> bool {
    forall|i: int|
        0 <= i < downloads.len() ==> #[trigger] tile_frame(downloads[i]) is Some && fill_block_fits(
            550 * (grid as int),
            tile_frame(downloads[i]).unwrap().3.len() as int,
            i % (grid as int),
            i / (grid as int),
        )
}

/// Once a fetch has ended, every further event gives `Ended` and changes
/// nothing: after a failed or unreadable download no tile is asked for.
pub proof fn lemma_ended_stays(s: FetchState, events: Seq<FetchInput>)
    requires
        s.ended(),
    ensures
        fetch_run(s, events).0 == s,
        fetch_run(s, events).1 == Seq::new(events.len(), |i: int| FetchStep::Ended),
    decreases events.len(),
{
    if events.len() > 0 {
        lemma_ended_stays(s, events.drop_last());
    }
    assert(fetch_run(s, events).1 =~= Seq::new(events.len(), |i: int| FetchStep::Ended));
}

/// A fetch of a 2x2 or 4x4 split, begun and then given `m` readable
/// downloads (no more than there are tiles), asks for tile `j` (in reading
/// order: row by row, left to right) at step `j`, reporting progress `j + 1`
/// of the number of tiles, for as long as tiles are missing; it then holds
/// the decoded tiles, and when the last one is in, its last step is the
/// joined picture.
pub proof fn lemma_fetch_in_order(
    year: int,
    month: nat,
    day: nat,
    hour: nat,
    ten_minute: nat,
    grid: nat,
    downloads: Seq<Seq<u8>>,
)
    requires
        grid == 2 || grid == 4,
        downloads.len() <= grid * grid,
        all_readable(downloads, grid),
    ensures
        ({
            let start = fetch_start(year, month, day, hour, ten_minute, grid);
            let (end, steps) = fetch_run(start, download_events(downloads));
            &&& end == FetchState { tiles: decoded_tiles(downloads), ..start }
            &&& steps.len() == downloads.len() + 1
            &&& forall|j: int|
                0 <= j <= downloads.len() && j < grid * grid ==> #[trigger] steps[j]
                    == FetchStep::Request(j + 1, (grid * grid) as int, start.url_of(j))
            &&& downloads.len() == grid * grid ==> steps[(grid * grid) as int] == FetchStep::Done(
                Picture {
                    width: 550 * grid,
                    height: 550 * grid,
                    bytes: combined(decoded_tiles(downloads), grid),
                },
            )
        }),
    decreases downloads.len(),
{
    let start = fetch_start(year, month, day, hour, ten_minute, grid);
    let n = grid * grid;
    assert(n >= 4) by (nonlinear_arith)
        requires
            grid == 2 || grid == 4,
            n == grid * grid,
    ;
    let events = download_events(downloads);
    if downloads.len() == 0 {
        assert(events.drop_last() =~= Seq::<FetchInput>::empty());
        assert(events.last() == FetchInput::Begin);
        assert(decoded_tiles(downloads) =~= Seq::<Seq<u8>>::empty());
        assert(fetch_run(start, events.drop_last()) == (start, Seq::<FetchStep>::empty()));
        assert(!start.ended());
        assert(fetch_next(start, FetchInput::Begin) == (
            start,
            FetchStep::Request(1, n as int, start.url_of(0)),
        ));
        assert(fetch_run(start, events).1 =~= seq![FetchStep::Request(1, n as int, start.url_of(0))]);
    } else {
        let m = downloads.len() - 1;
        let prev = downloads.drop_last();
        assert(all_readable(prev, grid)) by {
            assert forall|i: int| 0 <= i < prev.len() implies #[trigger] tile_frame(prev[i]) is Some
                && fill_block_fits(
                550 * (grid as int),
                tile_frame(prev[i]).unwrap().3.len() as int,
                i % (grid as int),
                i / (grid as int),
            ) by {
                assert(prev[i] == downloads[i]);
                assert(tile_frame(downloads[i]) is Some);
            }
        }
        lemma_fetch_in_order(year, month, day, hour, ten_minute, grid, prev);
        assert(events.drop_last() =~= download_events(prev));
        assert(events.last() == FetchInput::Downloaded(downloads[m]));
        let (mid, steps) = fetch_run(start, download_events(prev));
        assert(tile_frame(downloads[m]) is Some);
        let bytes = tile_frame(downloads[m]).unwrap().3;
        assert(decoded_tiles(prev).push(bytes) =~= decoded_tiles(downloads));
        assert(mid.tiles.len() == m);
        let (end, last) = fetch_next(mid, FetchInput::Downloaded(downloads[m]));
        assert(end == FetchState { tiles: decoded_tiles(downloads), ..start });
        assert forall|j: int|
            0 <= j <= downloads.len() && j < n implies #[trigger] fetch_run(start, events).1[j]
                == FetchStep::Request(j + 1, n as int, start.url_of(j)) by {
            if j < downloads.len() {
                assert(fetch_run(start, events).1[j] == steps[j]);
            }
        }
    }
}

/// The download and joining of the tiles of one picture, driven by the
/// caller: it downloads what each step asks for and reports back.
pub struct TileFetch {
    year: i32,
    month: u32,
    day: u32,
    hour: u32,
    ten_minute: u32,
    grid: u32,
    tiles: Vec<Vec<u8>>,
    failed: bool,
}

impl View for TileFetch {
    type V = FetchState;

    closed spec fn view(&self) -> FetchState {
        FetchState {
            year: self.year as int,
            month: self.month as nat,
            day: self.day as nat,
            hour: self.hour as nat,
            ten_minute: self.ten_minute as nat,
            grid: self.grid as nat,
            tiles: self.tiles.deep_view(),
            failed: self.failed,
        }
    }
}

impl TileFetch {
    /// The split is 2x2 or 4x4, no more tiles than it has are held, and each
    /// held tile can be placed.
    #[verifier::type_invariant]
    closed spec fn inv(self) -> bool {
        &&& (self.grid == 2 || self.grid == 4)
        &&& self.tiles.len() <= self.grid * self.grid
        &&& tiles_fit(self.tiles.deep_view(), self.grid as nat)
    }
}

/// Whether a tile of `len` bytes can be laid down as tile `k` of a
/// `grid` x `grid` split.
fn tile_fits(grid: usize, k: usize, len: usize) -> (b: bool)
    requires
        grid == 2 || grid == 4,
        k < grid * grid,
    ensures
        b == fill_block_fits(550 * grid as int, len as int, (k % grid) as int, (k / grid) as int),
{
    if len == 0 {
        return true;
    }
    let x = k % grid;
    let y = k / grid;
    assert(y < grid) by (nonlinear_arith)
        requires
            y == k / grid,
            k < grid * grid,
            grid > 0,
    ;
    let tw3 = 550 * grid * 3;
    let rows = (len - 1) / 1650;
    match rows.checked_add(550 * y) {
        None => false,
        Some(line) => match tw3.checked_mul(line) {
            None => {
                assert(tw3 * line + 1650 * x + 1650 > usize::MAX) by (nonlinear_arith)
                    requires
                        tw3 * line > usize::MAX,
                        x >= 0,
                ;
                false
            },
            Some(a) => match a.checked_add(1650 * x) {
                None => false,
                Some(b) => b.checked_add(1650).is_some(),
            },
        },
    }
}

/// The fetch of the tiles of a `grid` x `grid` split.
fn start_fetch(year: i32, month: u32, day: u32, hour: u32, ten_minute: u32, grid: u32) -> (fetch:
    TileFetch)
    requires
        grid == 2 || grid == 4,
    ensures
        fetch@ == fetch_start(
            year as int,
            month as nat,
            day as nat,
            hour as nat,
            ten_minute as nat,
            grid as nat,
        ),
{
    let tiles: Vec<Vec<u8>> = Vec::new();
    assert(tiles.deep_view() =~= Seq::<Seq<u8>>::empty());
    TileFetch { year, month, day, hour, ten_minute, grid, tiles, failed: false }
}

/// Downloading the 16 tiles of the 4x4 split of the picture taken at the
/// given UTC hour and minute, and joining them into one 2200x2200 picture.
/// Each step is taken by `fetch_step`.
pub fn combine_4x4(year: i32, month: u32, day: u32, hour: u32, ten_minute: u32) -> (fetch:
    TileFetch)
    ensures
        fetch@ == fetch_start(year as int, month as nat, day as nat, hour as nat, ten_minute as nat, 4),
{
    start_fetch(year, month, day, hour, ten_minute, 4)
}

/// Downloading the 4 tiles of the 2x2 split of the picture taken at the
/// given UTC hour and minute, and joining them into one 1100x1100 picture.
/// Each step is taken by `fetch_step`.
pub fn combine_2x2(year: i32, month: u32, day: u32, hour: u32, ten_minute: u32) -> (fetch:
    TileFetch)
    ensures
        fetch@ == fetch_start(year as int, month as nat, day as nat, hour as nat, ten_minute as nat, 2),
{
    start_fetch(year, month, day, hour, ten_minute, 2)
}

/// Takes one step of a fetch: given what the caller reports, the next state
/// and what to do next, as `fetch_next` says.
#[verifier::spinoff_prover]
pub fn fetch_step(fetch: TileFetch, event: FetchEvent) -> (res: (TileFetch, FetchAction))
    ensures
        (res.0@, res.1@) == fetch_next(fetch@, event@),
{
    proof {
        use_type_invariant(&fetch);
    }
    let ghost s = fetch@;
    let TileFetch { year, month, day, hour, ten_minute, grid, tiles, failed } = fetch;
    let g = grid as usize;
    let n = g * g;
    let k = tiles.len();
    if failed || k >= n {
        let same = TileFetch { year, month, day, hour, ten_minute, grid, tiles, failed };
        return (same, FetchAction::Ended);
    }
    proof {
        vstd::arithmetic::div_mod::lemma_fundamental_div_mod(k as int, g as int);
        assert(k / g < g) by (nonlinear_arith)
            requires
                k < g * g,
                g > 0,
        ;
    }
    match event {
        FetchEvent::Begin => {
            let url = format_url(
                year,
                month,
                day,
                hour,
                ten_minute,
                grid,
                (k % g) as u32,
                (k / g) as u32,
            );
            let same = TileFetch { year, month, day, hour, ten_minute, grid, tiles, failed };
            (same, FetchAction::Request { current: (k + 1) as i32, total: n as i32, url })
        },
        FetchEvent::DownloadFailed => {
            let next = TileFetch { year, month, day, hour, ten_minute, grid, tiles, failed: true };
            (next, FetchAction::Stop(FetchError::DownloadFailed))
        },
        FetchEvent::Downloaded(data) => {
            match decode_tile(data.as_slice()) {
                Err(_) => {
                    let next = TileFetch {
                        year,
                        month,
                        day,
                        hour,
                        ten_minute,
                        grid,
                        tiles,
                        failed: true,
                    };
                    (next, FetchAction::Stop(FetchError::UnreadableTile))
                },
                Ok(frame) => {
                    let bytes = frame.bytes;
                    if !tile_fits(g, k, bytes.len()) {
                        let next = TileFetch {
                            year,
                            month,
                            day,
                            hour,
                            ten_minute,
                            grid,
                            tiles,
                            failed: true,
                        };
                        return (next, FetchAction::Stop(FetchError::TileTooLarge));
                    }
                    let ghost before = tiles.deep_view();
                    let ghost old_v = tiles@;
                    let ghost tile = bytes@;
                    let mut tiles = tiles;
                    tiles.push(bytes);
                    proof {
                        assert(tiles.deep_view() =~= before.push(tile)) by {
                            assert forall|i: int| 0 <= i < tiles.len() implies tiles.deep_view()[i]
                                == before.push(tile)[i] by {
                                if i < k {
                                    assert(tiles@[i] == old_v[i]);
                                }
                            }
                        }
                        assert forall|i: int| 0 <= i < tiles.deep_view().len() implies #[trigger] fill_block_fits(
                            550 * (grid as nat as int),
                            tiles.deep_view()[i].len() as int,
                            i % (grid as nat as int),
                            i / (grid as nat as int),
                        ) by {
                            if i < k {
                                assert(tiles.deep_view()[i] == before[i]);
                            }
                        }
                    }
                    if k + 1 < n {
                        proof {
                            assert((k + 1) / (g as int) < g) by (nonlinear_arith)
                                requires
                                    k + 1 < g * g,
                                    g > 0,
                            ;
                        }
                        let url = format_url(
                            year,
                            month,
                            day,
                            hour,
                            ten_minute,
                            grid,
                            ((k + 1) % g) as u32,
                            ((k + 1) / g) as u32,
                        );
                        let next = TileFetch {
                            year,
                            month,
                            day,
                            hour,
                            ten_minute,
                            grid,
                            tiles,
                            failed,
                        };
                        (
                            next,
                            FetchAction::Request { current: (k + 2) as i32, total: n as i32, url },
                        )
                    } else {
                        let img = join_grid(g, &tiles);
                        let next = TileFetch {
                            year,
                            month,
                            day,
                            hour,
                            ten_minute,
                            grid,
                            tiles,
                            failed,
                        };
                        (next, FetchAction::Done(img))
                    }
                },
            }
        },
    }
}

} // verus!
