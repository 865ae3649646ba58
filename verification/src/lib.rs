//! Planning logic for saving and restoring the third-party packages of an
//! Android device through the `adb` bridge.
//!
//! Nothing in this crate touches the device, the file system, the clock or
//! the terminal. A run of the program is a `session::Session`: it hands out
//! requests, takes replies, and decides what comes next. `model` states
//! every decision as mathematics, and Verus proves that the session decides
//! as the model says.
//!
//! The other modules hold what the decisions are made of:
//! - `text` and `decimal`: characters, lines and numbers;
//! - `names`: file names, and names for copies that collide with nothing;
//! - `bridge`: the arguments for `adb`, and what its output says;
//! - `choice` and `plan`: what the user asks for, and what a backup holds;
//! - `notice` and `failure`: the words for the user;
//! - `protocol`: requests and replies;
//! - `decode`: the conversions that are left to the standard library.

pub mod bridge;
pub mod choice;
pub mod decimal;
pub mod decode;
pub mod failure;
pub mod model;
pub mod names;
pub mod notice;
pub mod plan;
pub mod protocol;
pub mod session;
pub mod text;
