# flag_processor

A procedural flag generator, verified with Verus.

- `src/rng.rs`: the xorshift32 generator; a seed's bit pattern is hashed into
  a state that is never zero.
- `src/palette.rs`: the metal and colour pools and the palette draw that keeps
  the rule of tincture (neighbouring entries alternate between metal and
  colour), with the law proved over the draw's specification.
- `src/layout.rs`: the seven layouts, their seeded draw, and `build_flag_spec`,
  which fixes everything a seed decides of a flag.
- `src/texture.rs`: averaging of 2x2 supersampled colours into opaque RGBA.
- `src/filter.rs`: the filter names and the colour inversion.
- `src/describe.rs`: the JSON descriptor used for SVG export.

`app/lib.rs` holds the WebAssembly entry points and the floating-point parts
(geometry of the zones, fabric shading, grayscale and vignette filters,
four-decimal printing of random fractions), which call into the library.
