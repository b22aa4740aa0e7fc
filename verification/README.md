# voxrs

The bookkeeping of a small voxel renderer and its widget
toolkit, written in Verus with machine-checked contracts.

## Layout

- `src/render/`: the caches that keep GPU resources alive only while they are
  used (`cache`, `chunk_cache`), the index data of a chunk and the grouping of
  its blocks by material (`chunk`), the font atlas that places glyphs in
  textures (`font_atlas`), uniform buffer offsets (`uniforms`), and the
  decisions of the rendering loop (`commands`).
- `src/rhi/`: CPU sides of GPU resources: equally sized buffers that slices are
  appended to (`dynamic_buffer`) and textures written at run time
  (`dynamic_texture`).
- `src/types/`: copy-on-write handles (`safecloner`), world and chunk sizes
  (`chunk`), and a frame time counter (`fps`).
- `src/ui/`: widget placement and clipping (`rect`, `region`, `anchor`),
  hit testing, focus and depth ordering of root widgets (`system`, `res`),
  widgets and their keyboard and text input (`widget`, `terminal`, `text`,
  `input`), and the construction of widget trees (`builder`).
- `tests/`: executable tests of the library.
- `app/`: the parts that need the GPU, the window system, the file system,
  threads, floating point or the ECS: they call the library for every decision
  and do the input and output around it.

Laws of the library are public proof functions named `law_*`.
