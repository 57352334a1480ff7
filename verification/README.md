# tectonic (verified parts)

Parts of the Tectonic typesetting engine's font and special handling, written in Verus with
their behaviour stated in contracts and proved.

- `src/agl.rs`, `src/agl_list.rs`: Adobe Glyph List names (suffixes, small caps, `uniXXXX` and
  `uXXXX` names), the glyph-list table and its loading, and the conversion of glyph names to
  UTF-16BE.
- `src/specials.rs`, `src/specials/`: reading `\special`s: the dispatch to the module that takes
  a special and the run of its handler, and the `x:`, `dvipdfmx:`, dvips and miscellaneous specials; lengths, colours and
  dimension specifications.
- `src/font_mgr.rs`, `src/font_mgr_fc.rs`: the font manager: its maps of fonts and families,
  the search of the platform's font database, the lookup of a font by name and the choice of
  bold and italic faces.
- `src/ot_math.rs`: the TeX math font parameters and their OpenType `MATH` constants.
- `src/font_inst.rs`, `src/pdfparse.rs`, `src/dpxutil.rs`, `src/text.rs`: small byte-string
  helpers.

`app/` holds what touches the outside world (files, the terminal, the user's directories) and
the floating-point arithmetic, which is not verified.
