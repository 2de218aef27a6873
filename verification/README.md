# art3m1s_core

The core of a visual novel runtime, verified with Verus: what a host is told and
asked, which file serves a path, what a script event means for sound, text and
saves, how modes such as skipping and auto-advance depend on each other, and how
text appears.

- `src/` is the verified library. Every function states in its contract what it
  returns or changes. The properties that span functions stand as public proof
  functions whose names begin with `law_`.
- `tests/` runs the library on concrete values.
- `app/` is ordinary Rust around the library: disk, threads, the C interface,
  serialization and floating point.

## Modules

| Module | What it decides |
| --- | --- |
| `paths`, `project` | clean paths, `system.ini`, paths inside a project |
| `host` | the queue of events for the host; mounted directories, archives, overrides and saves |
| `ffi`, `ffi_callbacks` | what the arguments of the C interfaces mean; log filters, font overrides, file requests, text replacement |
| `host_media`, `audio`, `runtime::media`, `runtime::finish` | sound and video: commands to the host, finish handlers, snapshots |
| `runtime::modes`, `hiding`, `control`, `read_lines`, `keymap` | skipping, auto-advance, hiding, keys and read lines |
| `runtime::input`, `handlers`, `wait` | pointer and keys, handlers of layers, what a script waits for |
| `runtime::text`, `translation`, `backlog`, `text` | message layers, fonts, how characters appear, lines, translations |
| `runtime::save_io`, `save_plan`, `save` | where saves go, what is done to save and load, thumbnails |
| `runtime::emote`, `dxt5`, `uploads` | figures, their textures and how these reach the device |
| `render_pipeline`, `runtime::render` | stencil groups, transitions, what of a frame is drawn again |
| `profiler` | sums over frames |
| `strs`, `codec`, `json`, `name_map`, `text_order` | text, bytes and maps by name |

## What is trusted

A few functions call outside code and are believed: they are marked
`#[verifier::external_body]`, and a comment above each says what is claimed of
the call. They stand in `strs`, `codec`, `json`, `project`, `runtime::save_io`
and `ffi::font_override`.
