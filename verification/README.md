# openengine

The logic of a small game engine, verified with Verus: a structure-of-arrays
world that changes only through deltas, the wire format of those deltas, scene
files, the headless editor, proposals and conversations with language models,
and the pictures they are shown.

## Layout

| Path | What it holds |
|------|---------------|
| `src/contracts` | Plain data shared by all parts: components, deltas, their bytes |
| `src/ecs` | Column storage, the world, scenes |
| `src/runtime` | Movement, frames for guest logic, keyboard, meshes |
| `src/editor` | Edit and play, commands with undo and redo, selection |
| `src/shell` | The editor's state around its panels, and model proposals |
| `src/ai` | Configuration, `.env` files, conversations, servers, command line |
| `src/capture.rs` | Read-back buffers, straight alpha, PNG |
| `src/bytes.rs`, `src/fx.rs`, `src/text.rs` | Words, fixed-point numbers, texts |
| `tests` | Tests of the compiled library |
| `app` | The programs: windows, graphics, files, network, floating point |

## Reading the contracts

Every type has a model: `World` is seen as a `WorldModel` of six columns and a
number of live rows, a `WorldDelta` as a `DeltaModel`, and so on. Functions are
stated over those models. What holds of several functions together stands in
proof functions whose names start with `law_`.

The functions marked `external_body` call other crates (`bytemuck`, `fixed`,
`postcard`, `serde_json`, `base64`, `png`) or the standard library; what they are
trusted to do is said above each of them.
