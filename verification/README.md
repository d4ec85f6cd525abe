# engine

The core of a small entity-component-system game engine, verified with Verus.

`src/` is the library. Every function in it carries a contract that Verus
proves:

- `ecs/`: entity identifiers, sparse-set component pools (viewed as maps from
  entity to component) and the registry that owns the entities and one pool per
  component type.
- `component/`: the component types (names, tags, scene ownership, visibility,
  materials, mesh renderers).
- `resources.rs`, `handles.rs`, `name_map.rs`: mesh assets with reference
  counts, named models and textures, built-in shapes.
- `primitive.rs`: the index buffers of the built-in shapes and ear-clipping
  triangulation of polygons.
- `input.rs`: key and mouse button state, with its transitions.
- `scene.rs`, `scene_manager.rs`: scenes, their entities, and which scene is
  current.
- `system/`: the per-frame systems (key bindings, commands, update systems,
  render command planning) and the context they work on.
- `runner.rs`: the decisions of the window's event loop.

`app/` holds what is not verified: the winit event loop, keyboard and mouse
events, frame timing, and everything that computes with floating-point
numbers (transforms, cameras, vertex positions, the ear test of the polygon
triangulation), together with the interface of the renderer.

`tests/` exercises the library on concrete values.
