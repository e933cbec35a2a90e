//! A small service supervisor: a daemon that starts the services registered in
//! its configuration, and a command line tool that talks to it over a socket.
//! This library holds their decisions and text handling, verified; processes,
//! files and sockets are the caller's.
pub mod control;
pub mod laws;
pub mod maintainer;
pub mod paths;
pub mod service;
pub mod startup;
pub mod text;
pub mod yaml;
