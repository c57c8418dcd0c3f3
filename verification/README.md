# cadrum

Rust bindings for the OpenCASCADE CAD kernel, split in two:

- `src/` — the verified core (Verus): hex colour parsing, the HSV hue-sector
  table, per-face colour maps and how colours follow faces through copies,
  transforms and same-domain cleaning, mesh index bookkeeping when meshes are
  combined (with a checked constructor that establishes well-formed triangle
  data), selection of tool faces after boolean operations, and the step
  function that decides how swept tool faces are folded into one result. Every
  public function carries a contract proved by Verus; no item is trusted.
- `app/` — the kernel bridge (cxx) and the shape types that own kernel
  handles, floating-point geometry (glam), colours with `f32` channels, and
  stream I/O. It calls the verified core for all of the logic above.
- `tests/` — tests of the verified core on concrete values.
