//! A small scripting language for plotting implicit equations in one free
//! variable as raster images.
//!
//! A script holds layout directives (`#frame`, `#resolution`, `#export`,
//! `#print_now`) and equation lines. The pipeline is: lexer (text to tokens),
//! parser (tokens to syntax trees), interpreter (trees to a layout
//! configuration plus equations), and renderer (layout to a pixel grid).
//! Arithmetic is exact fixed-point with a scale of one million, so every
//! stage is a deterministic function of its inputs, and each stage is proved
//! equal to the spec model that defines it.

pub mod data;
pub mod exceptions;
pub mod fixed;
pub mod interpreter;
pub mod laws;
pub mod lexer;
pub mod nodes;
pub mod parser;
pub mod renderer;
pub mod run;
pub mod tokens;
pub mod values;
