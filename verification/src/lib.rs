//! Core of the resume compiler: the resume and theme models, their
//! validation rules, the text layout of a resume, and the decisions of the
//! command-line and MCP front ends.

pub mod text;
pub mod util;
pub mod error;
pub mod constants;
pub mod model;
pub mod render;
pub mod paths;
pub mod resume_io;
pub mod theme_io;
pub mod builder;
pub mod cli;
pub mod commands;
pub mod mcp;
pub mod output;
