//! The part of a Minecraft renderer's native interface that can be reasoned about: the commands
//! recorded for the graphics card, the images of textures, the turns of the event loop, the
//! blocks and resources that come in, and the configuration of shader packs.
//!
//! Everything that needs the virtual machine, a window or a graphics card is left to the caller.
//! Floating-point numbers are carried as their bits.

pub mod blit;
pub mod chunk;
pub mod event;
pub mod gl;
pub mod jvalue;
pub mod matrix;
pub mod registry;
pub mod shaderpack;
pub mod startup;
pub mod stream;
pub mod texture;
pub mod words;
