//! Turns an annotated text into the plan of a narrated video: the text is cut
//! into sentences, the markup of each sentence becomes subtitle styling, each
//! sentence gets a subtitle document and the arguments that render its clip,
//! and a run decides step by step what is rendered, joined and merged.
//!
//! The library computes and decides; running the outside programs and
//! touching files is left to its caller.

pub mod chars;
pub mod desktop;
pub mod document;
pub mod error;
pub mod image;
pub mod markup;
pub mod matcher;
pub mod naming;
pub mod pipeline;
pub mod plan;
pub mod render;
pub mod scan;
pub mod segment;
pub mod subtitle;
pub mod text;
