# myocyte

Soft volumetric cells rendered with wgpu: the four breathing spheres of v1,
and the tier-2 grid of splat cells driven by influencers (Gray-Scott
reaction-diffusion, authored patterns).

## Layout

- `src/` — the verified library (Verus):
  - `cell.rs` — the cell grid: flat layout (`z` fastest), exact lattice
    positions in half-spacing units, index/coordinate bijection lemmas.
  - `grid.rs` — placing every cell at its lattice point; switching on the
    center cell.
  - `influencer/authored.rs` — authored patterns (sphere, shell, letter A),
    written once.
  - `influencer/gray_scott.rs` — field indexing, periodic Laplacian stencil,
    seed block, noise hash.
  - `sphere.rs` — index buffer of the UV sphere mesh.
  - `sort.rs` — back-to-front merge sort of splats by depth key, and the
    order-preserving key of an `f32` depth.
  - `window.rs` — drag tracking for the orbit camera; surface extent;
    what to do when a frame fails.
  - `uniform.rs` — four-lane packing of per-cell data for uniform buffers.
- `app/` — the program: window and event loop (winit), GPU rendering (wgpu),
  and everything that is `f32` geometry (camera, v1 cells and crowding,
  splat projection, Gray-Scott field arithmetic, sphere vertices).
- `tests/` — tests of the library.

The WGSL shaders are read at run time from `src/shaders/` of the project
directory the program was built in.
