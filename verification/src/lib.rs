//! The drawing decisions of a terminal window.
//!
//! A [`window::TermWindow`] holds what decides how its next frame is drawn, as plain
//! values, and hands out a plan: the commands for WebGPU, or the steps for OpenGL.
//! Whoever holds the GPU performs them, in order.
//!
//! * [`window`] puts a frame's plan together and keeps count of frames.
//! * [`webgpu`] and [`opengl`] list what is to be done with each backend.
//! * [`ping_pong`] says how a chain of shaders alternates between two textures.
//! * [`prevcursor`] tracks where the cursor is and where it came from.
//! * [`layers`] describes the vertex buffers, [`clock`] the readings of the clock.
//!
//! The remaining modules state what plans amount to: [`picture`] which picture a
//! frame shows, [`sequence`] which commands it consists of and in what order, [`turns`]
//! which of the vertex buffers that take turns it draws, [`textures`] which textures
//! it needs, and [`backends`] in what the two backends agree.
pub mod backends;
pub mod clock;
pub mod layers;
pub mod opengl;
pub mod picture;
pub mod ping_pong;
pub mod prevcursor;
pub mod sequence;
pub mod textures;
pub mod turns;
pub mod webgpu;
pub mod window;
