# baras_frontend

Verified core of the BARAS combat-overlay frontend, written in Verus.

`src/` is the library, verified end to end:

- `types`, `display_targets`: the metric, timer, alert and condition
  vocabulary of the settings UI, with labels, config keys and the rules for
  timer display targets.
- `map_overlay`, `overlay`: the map overlay's state (sources, generation,
  raster in flight) and the per-frame decision of what to draw and when to
  rasterize.
- `text_cache`, `renderer`: the shaped-text cache with least-recently-used
  eviction, invalidated when the font family changes.
- `glyph`: compositing of glyph coverage masks onto RGBA pixel buffers.
- `fonts`: Latin-support probing of font faces (through `ttf-parser`) and the
  list of selectable font families.
- `ui_rules`, `file_browser`, `session_view`, `import_flow`, `records`: the
  decisions of the settings and session views (input limits, file filtering,
  upload replies, profile names, the StarParse import steps) and the records
  they show.

`app/` holds what cannot be verified: font database loading, text shaping
with `cosmic-text`, floating-point drawing with `tiny-skia`, SVG parsing and
rasterization with `usvg`/`resvg`, the rasterization worker thread, and serde
copies of the records exchanged with the backend.

`tests/` runs the library on concrete values.
