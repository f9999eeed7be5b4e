# himawari8

Keeps the desktop wallpaper showing the newest full-disk picture of the
earth taken by the Himawari-8 weather satellite. The server cuts each picture
into 550x550 PNG tiles (a 4x4 or 2x2 split); the program fetches them, joins
them, scales the earth and lays it out on a black desktop-sized picture,
either whole (centred) or as its upper half.

Layout:

- `src/` — the library, written in Verus: every function carries a
  contract, and the laws of the library (tile placement, the order in which
  tiles are fetched and when fetching stops, layout, settings read back
  after a write, number parsing after writing, tray menu decisions) are
  proved there.
- `app/` — the program around it: the HTTP requests that the library's
  fetch steps ask for, files, the command line,
  setting the wallpaper, the Windows tray window and the Android entry
  points, plus the two layout sizes that are computed in floating point.
- `tests/` — tests of the library on concrete values.
