# Round Cat

The decisions of a small Vulkan renderer, verified with Verus.

- `src/` is the library. Its heart is the resource synchronisation in
  `src/vulkan/sync_manager/`: range maps over bytes and mip levels, the record of the
  last writes of each buffer and image and of the reads since, the layout of each mip
  level, and the pipeline
  barriers a new access needs (`SyncManagerInternal::add_accesses`). Around it stand the
  accesses that copies, blits and acceleration structure builds announce, mip chain
  arithmetic and the texture upload plan, memory type and physical device selection, the
  shader binding table layout, the Vulkan values of formats and sampler settings, the glTF
  sampler and pixel format conversions, asset ids and the held keys, the sharing of
  assets a scene names more than once, the draw commands of the geometry pass and of the
  scene renderer, and the decisions of the window's event loop and of drawing a frame.
  `src/vulkan/sync_manager/laws.rs` states what holds across the operations.
- `app/` is the program around it: loading a glTF scene, the configuration file, the
  shared synchronisation behind a mutex, the camera and animation (floating point), the
  window that runs the event loop, and the conversions between the library's values and
  glTF's and Vulkan's. It makes no GPU resources: it prints the plans the library makes for
  a scene (formats, mip chains, upload barriers, draw commands) and can fly the camera in a
  window.
- `tests/` runs the library on concrete values.
