# priklady

Verified logic of the example programs of a Rust book for systems programmers.

- `src/` is the verified library: the IPv4 header parser, the length-prefixed frame
  parser and the wire encoder; the Game of Life board; the Mandelbrot palette and the
  assembly of an image rendered in bands; and the state machines and texts behind the
  interactive screens (ownership walkthrough, type table and enum layout, pattern matching,
  traits walkthrough, iterator pipeline, mutex animation, memory dump, asteroid shooter rules).
- `tests/` runs the library on concrete values.
- `app/` holds the programs themselves: windows (macroquad, bevy), terminal screens
  (ratatui, crossterm), threads and tokio tasks, PNG output, and the floating-point parts
  (escape iterations, particle motion, drawing). `app/main.rs` takes the name of the example
  as its first argument.
