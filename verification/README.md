# rend_vk

A Vulkan renderer driven by a Java client, whose bookkeeping and planning
logic is written in Verus and proved against its contracts.

- `src/` is the verified library: the device memory allocator, the image
  barrier generator and the initial layout transitions of the render
  pipeline, the pipeline file's descriptions, how their named values resolve and
  which of them can be built (the stages and sampler positions of a plan), descriptor slot tracking, texture uploads, sampler keys, task
  batching, device and swapchain choices, and the client's views of meshes
  and textures.
- `app/` is the Rust around it: Vulkan calls through `ash`, the pipeline
  file read with `serde`, the window, and the JNI entry points.
- `tests/` runs the library on concrete values.

The bit set that tracks descriptor slots and mesh ids is `bitvec`'s; the
library reaches it through a few trusted wrappers in
`src/pipeline/descriptor.rs`.
