//! aurek checks AUR packages before yay installs them: it reads the
//! PKGBUILD, applies pattern rules or reads the concerns of a local language
//! model, reports what it found and asks before going on.
//!
//! This crate holds the logic, with its contracts:
//! - `text`: trimming, searching and line splitting over character sequences;
//! - `args`: the command line and the arguments handed on to yay;
//! - `config`: the settings file and how its text is read;
//! - `scanner`: pattern rules, the model's findings, the report and the answer;
//! - `llm`: the request to the model and how its answer is read;
//! - `aur`: AUR addresses and the reading of an AUR answer;
//! - `yay`: the yay command lines;
//! - `flow`: whether to scan and what follows a scan.
pub mod text;
pub mod args;
pub mod config;
pub mod scanner;
pub mod llm;
pub mod aur;
pub mod yay;
pub mod flow;
