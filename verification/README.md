# rime-poc

A pinyin input tool that lives beside an ordinary keyboard layout. A trigger such as `;;` opens
a session; pinyin typed in it is converted by the Rime engine, run by run or, in `rime-auto` mode,
as a whole, and the tool rewrites the text in the host application. Everything that the tool decides is a library verified with
Verus; the program around it talks to the engine, the platform and the file system.

## Layout

- `src/` is the library.
  - `chars`, `text`, `bytes`: characters, strings, and text handed over as bytes.
  - `config`, `validation`, `options`, `data_dirs`, `permissions`: settings and the rules they
    obey.
  - `triggers`, `tokens`, `separators`: what a body is made of.
  - `engine`, `segments`, `conversion`, `rime_auto`, `candidates`, `candidate_session`,
    `rime_table`: conversations with the engine. Each is a state machine: `request` says what
    to ask, `advance` takes the answer.
  - `actions`, `capture`: the capture state; `session` and `host` state what holds of it.
  - `platform`, `win`, `mac`, `sources`, `failures`, `rewrite`, `reactions`, `listener`: events of
    the host and the commands that answer them; `listening`, `listener_state` and `listener_host`
    state what holds of the listener, and `clear_reasons` says why it forgets.
  - `report`: what the program prints.
- `tests/` runs the library, with engines and hosts made for the purpose.
- `app/` is the program: arguments, files, the engine, and the native layers.

## How contracts are written

Each type that holds strings or vectors has a view, a type of the same shape over mathematical
sequences. A function says in its contract how the views of its results follow from the views of
its arguments, by a spec function on the view. Laws that relate several functions are public
proof functions whose names begin with `law_`.

The native layer is a C library that `app/mac.rs` and `app/win.rs` declare; it is linked by the
platform's build.
