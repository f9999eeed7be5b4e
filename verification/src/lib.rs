//! Himawari-8 wallpaper: the verified core of a program that downloads the
//! satellite's full-disk picture as 550x550 tiles, joins them into one
//! picture of the earth and lays that picture out on a desktop-sized canvas.
//!
//! - `decimal`: writing numbers as `{}` and `{:02}` write them.
//! - `url`: the addresses of the tiles.
//! - `tiles`: placing tiles into the joined picture.
//! - `fetch`: the steps of downloading the tiles of one picture and joining them.
//! - `image`: RGB pictures, pasting, scaling.
//! - `wallpaper`: the two desktop layouts (whole earth, upper half).
//! - `codec`: reading and writing PNG and other picture files.
//! - `clock`: which picture time to ask for, and its cache file name.
//! - `config`: the settings, their file and the command line.
//! - `text`: small text operations (comparison, splitting, UTF-16).
//! - `screen`: the screen size reported by `xdpyinfo`.
//! - `tray`: the decisions of the tray menu and the refresh timer.

pub mod decimal;
pub mod url;
pub mod tiles;
pub mod fetch;
pub mod image;
pub mod wallpaper;
pub mod codec;
pub mod clock;
pub mod config;
pub mod text;
pub mod screen;
pub mod tray;
