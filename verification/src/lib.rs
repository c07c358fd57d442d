//! A live radio receiver's core: stream metadata, buffering, drift control and
//! the decisions of the playback engine.
//!
//! - [`text`], [`number`] and [`codec`] read text, decimal numbers, base64url
//!   and percent escapes; see [`text_laws`].
//! - [`icy`] reads the metadata blocks of a stream; [`icy_laws`] states what a
//!   station can rely on, and [`reading_laws`] what is made of anything else.
//! - [`stream`] is the byte pipe between network and decoder, and takes the
//!   metadata out of the stream; see [`stream_laws`] and [`pipe_laws`].
//! - [`sync`] keeps the listener near the live edge; see [`sync_laws`].
//! - [`deck`] keeps the books of one connection and its decoder, [`switch`]
//!   moves from one deck to another without a gap, [`playback`] decides what
//!   follows each chunk of audio, and [`attempt`] puts them together; see
//!   [`deck_laws`], [`switch_laws`], [`playback_laws`], [`turn_laws`] for its
//!   single steps and [`attempt_laws`] for its runs.
//! - [`engine`] holds the session that reconnects, [`audio`] the layout of
//!   samples, [`events`] what the display is told, and [`fault`] what can go
//!   wrong; see [`engine_laws`], [`audio_laws`], [`events_laws`] and
//!   [`fault_laws`].
//! - [`update`] finds out about newer versions; see [`update_laws`].

pub mod attempt;
pub mod attempt_laws;
pub mod audio;
pub mod audio_laws;
pub mod codec;
pub mod deck;
pub mod deck_laws;
pub mod engine;
pub mod engine_laws;
pub mod events;
pub mod events_laws;
pub mod fault;
pub mod fault_laws;
pub mod icy;
pub mod icy_laws;
pub mod number;
pub mod pipe_laws;
pub mod playback;
pub mod playback_laws;
pub mod reading_laws;
pub mod stream;
pub mod stream_laws;
pub mod switch;
pub mod switch_laws;
pub mod sync;
pub mod sync_laws;
pub mod text;
pub mod text_laws;
pub mod turn_laws;
pub mod update;
pub mod update_laws;
