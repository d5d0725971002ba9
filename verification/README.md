# media_decode

Verified core of a media decoding and thumbnail library.

- `src/` (Verus): BMP header repair (`bmp`), the first-frame search and
  RGB24 packing for video (`video`), seek planning (`seek`), subtitle
  track selection (`subtitle`), timeline sprites (`timeline`), waveform
  bars (`waveform`), the pdfium binding discipline (`pdf`), an RGBA pixel
  grid (`raster`), errors (`errors`) and the calls into `image` (`imaging`).
- `app/` (plain Rust): file and process I/O, FFmpeg, pdfium and resvg
  calls, and the floating-point work (peak scaling, seek times, SVG scale).
- `tests/`: tests of the library.
