//! The protocol side of a FreeSWITCH event socket connection, without any
//! input or output of its own.

pub mod answer_laws;
pub mod code;
pub mod codec;
pub mod command;
pub mod command_laws;
pub mod connection;
pub mod error;
pub mod event;
pub mod frame_laws;
pub mod handshake;
pub mod laws;
pub mod outside;
pub mod reader;
pub mod response;
pub mod step_laws;
pub mod string_map;
pub mod text;
pub mod view_laws;
