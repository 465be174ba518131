//! Core of a hotkey-driven soundboard.
//!
//! A soundboard plays a sound when its hotkey is pressed, and meanwhile
//! relays the microphone to a second output device with a fixed delay. This
//! crate holds the rules of such a program and proves them with Verus:
//!
//! - [`ring`]: the bounded queue of samples between the input and the
//!   output stream, over `ringbuf`;
//! - [`bridge`]: the latency of the relay, what comes in and what goes out;
//! - [`sound`]: a named sound, and the report of a playback that failed;
//! - [`hotkey`]: hotkeys of `livesplit_hotkey`, read from text and written
//!   as text;
//! - [`board`]: the table that binds hotkeys to sounds, and what the
//!   platform's hotkey hook must do to stay in line with it;
//! - [`cli`]: the command line, and what each command does to the table.
//!
//! Devices, files and the hotkey hook itself are left to the program that
//! embeds the crate: it hands in plain values and carries out what the crate
//! answers with.
//!
//! What the crate takes on trust are the contracts that [`ring`], [`hotkey`]
//! and [`sound`] state of the functions that they call of `ringbuf`, of
//! `livesplit_hotkey` and of std's `PathBuf`. Everything else is proved from
//! those.

pub mod board;
pub mod bridge;
pub mod cli;
pub mod hotkey;
pub mod ring;
pub mod sound;
