//! Explains manual pages with the help of a language model: how the manual
//! viewer is invoked and its outcome read, how the request to the backend is
//! put together, and how the answer is decoded as it streams in.
//!
//! The heart of the crate is the [`decoder`]: it reassembles the chunks of a
//! response body into logical lines, reads each line in one of two wire
//! formats ([`wire`]), and accumulates the fragments of text that the lines
//! carry. What holds of it for every body and every way of cutting the body
//! into chunks is proved in [`laws`].

pub mod config;
pub mod decoder;
pub mod json;
pub mod laws;
pub mod request;
pub mod source;
pub mod text;
pub mod wire;
