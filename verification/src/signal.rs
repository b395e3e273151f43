//! The timing-threshold signal classifier, taken from the `morse_codec`
//! crate.
//!
//! A decoder consumes timed on/off signal events and accumulates a text
//! message; the classification thresholds (about one reference unit for a
//! dit or an intra-character gap, three for a dah or a character gap, seven
//! or more for a word gap) are owned by that crate. An event is a pair of
//! a duration in milliseconds and a tone flag (`true` for an active tone,
//! `false` for silence).
//!
//! The concrete decoder keeps no record of the events it consumed (some
//! change none of its fields), so [`SignalDecoder`] carries that history
//! beside it as a ghost sequence, written only by the functions of this
//! module. The decoder is built with a 100 ms reference unit and consults
//! no time, randomness or environment, so its accumulated message is a
//! function of the ordered event history alone, named
//! `classified_message`.

use vstd::prelude::*;

verus! {

#[verifier::external_type_specification]
#[verifier::external_body]
pub struct ExMorseDecoder<const MSG_MAX: usize>(
    morse_codec::decoder::MorseDecoder<MSG_MAX>,
);

/// A signal classifier together with the ghost history of the events fed
/// to it, in order.
pub struct SignalDecoder {
    inner: morse_codec::decoder::MorseDecoder<70000>,
    history: Ghost<Seq<(u16, bool)>>,
}

/// The ordered sequence of signal events fed to the decoder so far.
pub closed spec fn decoder_events(d: SignalDecoder) -> Seq<(u16, bool)> {
    d.history@
}

/// The text that the signal classifier accumulates after consuming the
/// given events, with a 100 ms reference unit.
pub uninterp spec fn classified_message(events: Seq<(u16, bool)>) -> Seq<u8>;

/// Relies on `morse_codec::decoder::Decoder`'s builder: builds a fresh
/// decoder with a 100 ms reference short duration; cannot fail.
#[verifier::external_body]
fn raw_decoder() -> morse_codec::decoder::MorseDecoder<70000> {
    morse_codec::decoder::Decoder::<70000>::new()
        .with_reference_short_ms(100)
        .build()
}

/// Relies on `MorseDecoder::signal_event`: consumes one timed signal; a
/// tone extends the pending character, a long enough silence closes it.
/// The duration bound keeps the crate's internal `u16` band arithmetic,
/// fed from durations and a learned reference of at most this size, away
/// from overflow.
#[verifier::external_body]
fn raw_signal_event(
    d: &mut morse_codec::decoder::MorseDecoder<70000>,
    duration_ms: u16,
    is_tone: bool,
)
    requires
        duration_ms <= 1000,
{
    d.signal_event(duration_ms, is_tone);
}

/// A fresh decoder, with no events fed to it yet.
pub(crate) fn decoder_new() -> (d: SignalDecoder)
    ensures
        decoder_events(d) == Seq::<(u16, bool)>::empty(),
{
    SignalDecoder { inner: raw_decoder(), history: Ghost(Seq::empty()) }
}

/// Feed one timed signal event to the decoder and record it in the
/// history.
pub(crate) fn decoder_signal(d: &mut SignalDecoder, duration_ms: u16, is_tone: bool)
    requires
        duration_ms <= 1000,
    ensures
        decoder_events(*final(d)) == decoder_events(*old(d)).push((duration_ms, is_tone)),
{
    raw_signal_event(&mut d.inner, duration_ms, is_tone);
    d.history = Ghost(d.history@.push((duration_ms, is_tone)));
}

/// Relies on `MorseDecoder::message` and `Message::as_str`: the accumulated
/// message. Its bytes come from the ASCII character set, so the internal
/// UTF-8 conversion cannot fail. The inner decoder of every
/// [`SignalDecoder`] has consumed exactly the events of its history — the
/// fields are private and written only by this module — and the decoder is
/// deterministic, so the message is `classified_message` of that history.
#[verifier::external_body]
pub(crate) fn decoder_message(d: &SignalDecoder) -> (r: Vec<u8>)
    ensures
        r@ == classified_message(decoder_events(*d)),
{
    d.inner.message.as_str().as_bytes().to_vec()
}

/// Classification keeps no state across runs: the text decoded from a
/// sequence of signal events depends on that ordered sequence alone, so
/// feeding the same events twice yields the same text both times.
pub proof fn lemma_classification_idempotent(first: Seq<(u16, bool)>, second: Seq<(u16, bool)>)
    requires
        first == second,
    ensures
        classified_message(first) == classified_message(second),
{
}

} // verus!
