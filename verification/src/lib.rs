//! What the SAFE Authenticator daemon decides, and what it says.
//!
//! - `request`: what a client asks for; `request_laws`: clients are understood.
//! - `exchange`: the course of one request, from reading it to closing its stream;
//!   `exchange_laws`: each is answered once, and errors are marked.
//! - `daemon`: the course of the commands that start, stop and restart the daemon or update the
//!   program; `daemon_laws`: what these commands do and do not do.
//! - `tls`: the certificate and the endpoint of the daemon.
//! - `error`: errors, shown with their causes.
//! - `text`: splitting, joining and escaping text.
//!
//! None of this reads, writes, prints or waits, except that `tls`, where the logging of TLS keys is
//! asked for, has quinn open the file for them. `exchange` and `daemon` say step by step what is to
//! be done, and are told what came of it.

pub mod daemon;
pub mod daemon_laws;
pub mod error;
pub mod exchange;
pub mod exchange_laws;
pub mod request;
pub mod request_laws;
pub mod text;
pub mod tls;
