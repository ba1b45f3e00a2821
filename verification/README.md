# plotkit-core

The exact core of the plotkit plotting library, verified with Verus.

- `src/` is the verified library: colors and hex parsing, super/subscript
  text markup, legend entries and which swatch a chart gets, error messages,
  categories (including Polars string columns), chart settings and their
  builders, the figure's subplot and twin-axes bookkeeping and the order in
  which a render draws its axes, chart validation and the color cycle, and
  the integer side of the charts: histogram bin counting, hexagonal cell
  counting, marching-squares cases and the cell walk, and LTTB / min-max
  decimation buckets and index selection.
- `app/` holds floating-point code around the library: geometry, the
  renderer trait, numeric series (including ndarray and Polars columns),
  colormap evaluation, axis scales, a concrete axes type, and the numeric
  parts of the hexbin, polar, waterfall, contour and histogram charts and of
  decimation. It checks the library's preconditions before calling it. It
  does not render: the drawing pipeline, layout, ticks, legend and colorbar
  drawing, and the other chart types (line, scatter, bar, step, stem,
  fill-between, box plot, error bars, heatmap, pie, violin) are not part of
  this crate.
- `tests/` exercises the library on concrete values.
