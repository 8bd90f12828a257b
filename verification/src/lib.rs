//! Verified logic of the examples of a Rust book for systems programmers: parsers and
//! encoders, the Game of Life, the Mandelbrot renderer's colouring and band assembly, and the
//! state machines behind the interactive demos.
pub mod basics;
pub mod frame;
pub mod ip;
pub mod life;
pub mod lifetimes_viz;
pub mod mandelbrot;
pub mod match_viz;
pub mod memory_map;
pub mod mutex_sim;
pub mod ownership_viz;
pub mod particles;
pub mod pipeline;
pub mod shooter;
pub mod text;
pub mod traits_viz;
pub mod types_viz;
pub mod wire;
