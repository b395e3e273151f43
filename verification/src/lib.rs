//! A bidirectional text / Morse-code transcoder for callers that exchange
//! raw, fixed-capacity, zero-terminated byte buffers.
//!
//! The alphabet table and the timing-threshold signal classifier come from
//! the `morse_codec` crate, behind the trusted items in [`alphabet`] and
//! [`signal`]; the tokenizing, event synthesis, input validation and
//! capacity-bounded marshalling are verified here.
//!
//! The two entry points at the root mirror a foreign-function boundary:
//! the caller hands over its input bytes (or nothing, for an absent
//! pointer), a destination buffer and the buffer's capacity. On success
//! they write the truncated result and one zero terminator in place and
//! report how many bytes were written; on any guard failure, on input that
//! is not valid text, and on an empty result they leave the destination
//! untouched.

use vstd::prelude::*;

pub mod alphabet;
pub mod buffer;
pub mod morse;
pub mod signal;

verus! {

pub uninterp spec fn is_utf8(bytes: Seq<u8>) -> bool;

/// Relies on `core::str::from_utf8`: whether the bytes are well-formed
/// UTF-8 text.
#[verifier::external_body]
fn utf8_valid(bytes: &Vec<u8>) -> (r: bool)
    ensures
        r == is_utf8(bytes@),
{
    core::str::from_utf8(bytes).is_ok()
}

/// When the boundary leaves the destination untouched: an absent input, a
/// non-positive capacity, input that is not valid text, or an engine
/// result with nothing in it.
pub open spec fn boundary_rejects(
    input: Option<Seq<u8>>,
    capacity: i32,
    result: Seq<u8>,
) -> bool {
    ||| input is None
    ||| capacity <= 0
    ||| !is_utf8(input->0)
    ||| result.len() == 0
}

/// The destination contents after a successful boundary call: the copied
/// prefix of the result, one zero terminator, and the untouched tail.
pub open spec fn marshalled(result: Seq<u8>, dest0: Seq<u8>) -> Seq<u8> {
    let copy_len = buffer::copy_len_spec(result.len() as int, dest0.len() as int);
    result.take(copy_len) + seq![0u8] + dest0.skip(copy_len + 1)
}

/// Encode the text in `input` as a Morse symbol string and write it,
/// truncated and zero-terminated, into `dest`, whose length is the
/// caller's capacity. Returns how many bytes were written, the terminator
/// included, or `None` when nothing was written at all.
pub fn encode_morse(input: Option<&Vec<u8>>, dest: &mut Vec<u8>, capacity: i32) -> (written: Option<
    usize,
>)
    requires
        capacity > 0 ==> old(dest)@.len() == capacity as int,
    ensures
        final(dest)@.len() == old(dest)@.len(),
        written is None <==> boundary_rejects(
            if input is Some { Some(input->0@) } else { None },
            capacity,
            encode_spec_of(input),
        ),
        written is None ==> final(dest)@ == old(dest)@,
        written matches Some(n) ==> {
            let result = morse::encode_spec(input->0@);
            let copy_len = buffer::copy_len_spec(result.len() as int, old(dest)@.len() as int);
            &&& n == copy_len + 1
            &&& final(dest)@ == marshalled(result, old(dest)@)
        },
{
    if capacity <= 0 {
        return None;
    }
    let inp = match input {
        Some(v) => v,
        None => { return None; },
    };
    if !utf8_valid(inp) {
        return None;
    }
    let result = morse::encode_morse(inp);
    if result.len() == 0 {
        return None;
    }
    let copy_len = buffer::write_truncated(&result, dest);
    assert(dest@ =~= marshalled(result@, old(dest)@));
    Some(copy_len + 1)
}

/// The encoding the boundary owes for its input, empty when the input is
/// absent.
pub open spec fn encode_spec_of(input: Option<&Vec<u8>>) -> Seq<u8> {
    if input is Some {
        morse::encode_spec(input->0@)
    } else {
        Seq::empty()
    }
}

/// The decoding the boundary owes for its input, empty when the input is
/// absent.
pub open spec fn decode_spec_of(input: Option<&Vec<u8>>) -> Seq<u8> {
    if input is Some {
        morse::decode_spec(input->0@)
    } else {
        Seq::empty()
    }
}

/// Decode the Morse symbol string in `input` and write the recovered text,
/// truncated and zero-terminated, into `dest`, whose length is the
/// caller's capacity. Returns how many bytes were written, the terminator
/// included, or `None` when nothing was written at all.
pub fn decode_morse(input: Option<&Vec<u8>>, dest: &mut Vec<u8>, capacity: i32) -> (written: Option<
    usize,
>)
    requires
        capacity > 0 ==> old(dest)@.len() == capacity as int,
    ensures
        final(dest)@.len() == old(dest)@.len(),
        written is None <==> boundary_rejects(
            if input is Some { Some(input->0@) } else { None },
            capacity,
            decode_spec_of(input),
        ),
        written is None ==> final(dest)@ == old(dest)@,
        written matches Some(n) ==> {
            let result = morse::decode_spec(input->0@);
            let copy_len = buffer::copy_len_spec(result.len() as int, old(dest)@.len() as int);
            &&& n == copy_len + 1
            &&& final(dest)@ == marshalled(result, old(dest)@)
        },
{
    if capacity <= 0 {
        return None;
    }
    let inp = match input {
        Some(v) => v,
        None => { return None; },
    };
    if !utf8_valid(inp) {
        return None;
    }
    let result = morse::decode_morse(inp);
    if result.len() == 0 {
        return None;
    }
    let copy_len = buffer::write_truncated(&result, dest);
    assert(dest@ =~= marshalled(result@, old(dest)@));
    Some(copy_len + 1)
}

} // verus!
