//! Verified core of the Megaton build tool: source classification, compiler
//! flag resolution, profile configuration, compile database handling and the
//! decisions taken while building a module.
pub mod flags;
pub mod env;
pub mod hex;
pub mod outmap;
pub mod path;
pub mod print;
pub mod source;
pub mod text;
pub mod builder;
pub mod compdb;
pub mod config;
pub mod depfile;
pub mod order;
pub mod checker;
pub mod project;
pub mod utf8;
pub mod cli;
pub mod build_options;
pub mod clean;
pub mod install;
pub mod hammer;
pub mod executor;
pub mod checkenv;
pub mod init;
pub mod libbuild;
pub mod ninjafile;
