//! A workflow helper for cargo projects: it composes the fixed pipeline of
//! cargo invocations for a project and renders that pipeline as a
//! continuous-integration job definition.

pub mod cargo;
pub mod cli;
pub mod command;
pub mod generate;
pub mod layout;
pub mod outline;
pub mod parse;
pub mod pretty;
pub mod roundtrip;
pub mod text;
pub mod workflow;
pub mod yaml;
