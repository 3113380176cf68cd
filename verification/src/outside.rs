//! The library's trusted boundary: declarations for the outside crates and
//! the few std calls that vstd gives no specification. Everything else in
//! the crate is verified against the contracts stated here.

use std::io::Write;
use vstd::prelude::*;

use crate::records::WireRecord;

verus! {

/// What snap's raw encoder produces for a byte sequence. The output is a
/// function of the input bytes alone, so it only gets a name; nothing else
/// is assumed of it.
pub uninterp spec fn snap_compressed(input: Seq<u8>) -> Seq<u8>;

/// Relies on `snap::raw::Encoder::compress_vec`: it compresses the whole
/// input as one Snappy block, deterministically from the input bytes, and
/// errors only when the input is longer than snappy's four-gigabyte limit,
/// which the precondition rules out.
#[verifier::external_body]
pub(crate) fn snap_compress(input: &Vec<u8>) -> (r: Vec<u8>)
    requires
        input@.len() < 0x8000_0000,
    ensures
        r@ == snap_compressed(input@),
{
    snap::raw::Encoder::new().compress_vec(input.as_slice()).unwrap()
}

/// Relies on `String::from_utf8`: valid UTF-8 bytes decode to the unique
/// string whose encoding they are, and invalid bytes are rejected.
#[verifier::external_body]
pub(crate) fn string_from_utf8(bytes: Vec<u8>) -> (r: Option<String>)
    ensures
        match r {
            Some(s) => vstd::utf8::valid_utf8(bytes@) && s@ == vstd::utf8::decode_utf8(bytes@),
            None => !vstd::utf8::valid_utf8(bytes@),
        },
{
    match String::from_utf8(bytes) {
        Ok(s) => Some(s),
        Err(_) => None,
    }
}

/// Relies on `str`'s `PartialEq`: two string slices are equal exactly when
/// their character sequences are.
#[verifier::external_body]
pub(crate) fn str_eq(a: &str, b: &str) -> (r: bool)
    ensures
        r == (a@ == b@),
{
    a == b
}

#[verifier::external_type_specification]
#[verifier::external_body]
#[verifier::reject_recursive_types(T)]
pub struct ExSender<T>(crossbeam_channel::Sender<T>);

#[verifier::external_type_specification]
#[verifier::external_body]
#[verifier::reject_recursive_types(T)]
pub struct ExReceiver<T>(crossbeam_channel::Receiver<T>);

/// Relies on `crossbeam_channel::bounded`: it creates a channel that holds
/// at most `cap` messages at a time. The transport thread drains the
/// receiving side concurrently, so nothing is stated about the channel's
/// contents: every verified caller handles every outcome of the operations
/// below.
#[verifier::external_body]
pub(crate) fn channel_bounded(cap: usize) -> (r: (
    crossbeam_channel::Sender<WireRecord>,
    crossbeam_channel::Receiver<WireRecord>,
)) {
    crossbeam_channel::bounded(cap)
}

/// Relies on `crossbeam_channel::Sender::try_send`: it either enqueues the
/// message or fails without blocking. Which happens depends on the racing
/// consumer, so the result is unconstrained.
#[verifier::external_body]
pub(crate) fn channel_try_send(s: &crossbeam_channel::Sender<WireRecord>, rec: WireRecord) -> (ok: bool) {
    s.try_send(rec).is_ok()
}

/// Relies on `crossbeam_channel::Sender::is_full`: a momentary observation
/// racing the consumer, so the result is unconstrained.
#[verifier::external_body]
pub(crate) fn channel_is_full(s: &crossbeam_channel::Sender<WireRecord>) -> (full: bool) {
    s.is_full()
}

/// Relies on `crossbeam_channel::Receiver::try_recv`: it removes and returns
/// the oldest pending message, if one is pending at that moment.
#[verifier::external_body]
pub(crate) fn channel_try_recv(r: &crossbeam_channel::Receiver<WireRecord>) -> (rec: Option<WireRecord>) {
    r.try_recv().ok()
}

/// Relies on `crossbeam_channel::Receiver::clone`: the clone receives from
/// the same channel.
#[verifier::external_body]
pub(crate) fn receiver_clone(r: &crossbeam_channel::Receiver<WireRecord>) -> (r2:
    crossbeam_channel::Receiver<WireRecord>) {
    r.clone()
}

/// Relies on `std::io::Write` for standard output: writes one ANSI-colored
/// console line tagged with the sink's name and, if given, a channel name.
/// The console is a side channel; nothing about the sink's state depends on
/// this call.
#[verifier::external_body]
pub(crate) fn console_line(color: (u8, u8, u8), name: &str, channel: Option<&str>, text: &str) {
    let tag = format!("\x1b[38;2;{};{};{}m[{}]\x1b[0m", color.0, color.1, color.2, name);
    let out = match channel {
        Some(c) => format!("{}[{}]: {}", tag, c, text),
        None => format!("{}: {}", tag, text),
    };
    let _ = writeln!(std::io::stdout(), "{}", out);
}

/// Relies on `std::io::Write` for standard output: writes the one-per-episode
/// warning that the channel is full and a record is being dropped, in the
/// sink's color.
#[verifier::external_body]
pub(crate) fn console_warn(color: (u8, u8, u8), name: &str, text: &str) {
    let _ = writeln!(
        std::io::stdout(),
        "\x1b[38;2;{};{};{}m[{}]\x1b[0m: \x1b[38;5;11m{}\x1b[0m",
        color.0,
        color.1,
        color.2,
        name,
        text,
    );
}

} // verus!
