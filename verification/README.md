# clipboard_formats

Decodes the formats found on the Windows clipboard into blocks ready for
display, and renders them as text. The library in `src/` is verified with
Verus; `app/` reads the clipboard and prints what the library makes of it.

- `clipboard`: clipboard entries and format names.
- `parser`: per-format decoding, preview detection, `detect_and_parse`.
- `decode`, `dib`, `xml`: the decoders (text encodings, FileMaker bodies,
  bitmaps as BMP data URLs, XML re-indentation).
- `hexdump`, `digits`, `formatter`: hex dumps and text rendering.
- `unicode`, `base64_text`: UTF-8, UTF-16, Latin-1, trimming, base64.
- `laws`: properties proved across these modules.
