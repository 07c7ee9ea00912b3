# neuclidio

The decision-making core of the Neuclidio Vulkan engine, verified with Verus.

- `src/ecs`: the entity pool (slots, generations, free list) and the paged sparse set.
- `src/entity`: the components of a scene entity.
- `src/engine`: the main thread's registry of entities and their windows.
- `src/render`: instance and device selection, swap chain settings, and the standard
  pipeline's bookkeeping: which renderables are shown where, render buffer occupancy,
  copy batches, draw commands, frame counters and deallocation.
- `src/builder.rs`, `src/render/builder.rs`: engine and render engine configuration.

`app/` is a thin runtime layer, not a whole engine: it asks Vulkan what the devices and
surfaces offer and creates the instance from the library's decisions, loads Wavefront
meshes, and holds the floating-point cameras and transforms. The engine loop, the Vulkan
pipelines and the render-buffer allocator are not part of this repository.
