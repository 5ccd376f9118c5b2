//! A multi-input audio mixing router with speech recognition and text
//! fan-out: the verified core.
//!
//! Samples and gains travel through the library as the `u32` bit
//! patterns of `f32` values, with their arithmetic defined and proved in
//! [`fbits`]. The audio plane is the bounded FIFO [`ring`], the callback
//! edges in [`frames`], and the drain/sum/push cycle in [`mixer`],
//! steered by the shared atomic [`controls`]. The recognition plane is
//! the engines and per-input worker steps of [`engine`], the destination
//! fan-out of [`route`], and the bounded UI buffers of [`logbuf`]. The
//! control plane is the declarative [`config`] with its reload diff and
//! the key-driven view state of [`ui`].

pub mod config;
pub mod controls;
pub mod engine;
pub mod fbits;
pub mod frames;
pub mod logbuf;
pub mod mixer;
pub mod ring;
pub mod route;
pub mod tomlval;
pub mod types;
pub mod ui;
pub mod util;

