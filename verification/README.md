# avify

Batch conversion of images to AVIF, with the decisions proved in Verus.

- `src/` is the verified library:
  - `xmp`: Lightroom XMP sidecars (which attribute sets which develop
    setting, the last one winning; where the sidecar is looked for), parsed
    with `roxmltree`.
  - `format`: recognising a format from a file's first bytes and its
    extension; the extensions searched for.
  - `standard`: decoding JPEG, PNG, GIF, WebP, BMP, TIFF and TGA from a
    file's bytes with `image`, into 8-bit samples.
  - `listing`: choosing and ordering the images of a directory.
  - `job`: the conversion of one file as a state machine (announce, sniff,
    decode, encode, measure, write, move or trash, finish).
  - `progress`: the progress display (finished files printed once, files in
    progress redrawn) and the closing summary.
  - `trash`: the AppleScript that moves a file to the trash.
  - `paths`, `text`: path operations of `std::path` and character helpers.
- `app/` is the command-line program: arguments, file and terminal I/O,
  threads, the RAW, JPEG XL and PSD decoders and the encoder, and the
  floating-point tone curve.
- `tests/` runs the library on concrete values.
