//! The language-server client engine of a terminal editor: request ids, the
//! JSON-RPC message model, the `Content-Length` framing codec, the table that
//! routes responses to their callers, pollable request handles, the client's
//! handshake and reader decisions, and the editor-side pieces that sit on
//! them: hover and completion results, change notifications, key decoding,
//! insert-mode input, and the terminal's escape sequences.
pub mod id;
pub mod framing;
pub mod msg;
pub mod table;
pub mod fetch;
pub mod client;
pub mod hover;
pub mod completion;
pub mod change;
pub mod key;
pub mod terminal;
pub mod viewer;
pub mod editor;
