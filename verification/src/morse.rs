//! The transcoding engine: text to Morse symbol strings, and Morse symbol
//! strings back to text through synthesized timed signal events.

use vstd::prelude::*;
use crate::alphabet::{lookup, token_of, DASH, DOT, SPACE};
use crate::signal::{
    classified_message, decoder_events, decoder_message, decoder_new, decoder_signal,
};

verus! {

/// Maximum number of message units the engine accepts in one call; input
/// beyond this bound is truncated before encoding.
pub const MSG_MAX: usize = 70000;

/// Whether the alphabet maps `b` to a token with at least one signal in
/// it. The space maps to the empty token, so it has no symbol; an unmapped
/// byte has none either.
pub open spec fn has_symbol(b: u8) -> bool {
    match token_of(b) {
        Some(t) => t.len() > 0,
        None => false,
    }
}

/// The joined encoding of the first `n` bytes of `s`: each byte with a
/// non-empty token appends that token, separated from what stands before
/// it by one space; every other byte contributes nothing.
pub open spec fn joined_up_to(s: Seq<u8>, n: int) -> Seq<u8>
    decreases n,
{
    if n <= 0 {
        Seq::empty()
    } else {
        let prev = joined_up_to(s, n - 1);
        match token_of(s[n - 1]) {
            Some(tok) => if tok.len() == 0 {
                prev
            } else if prev.len() == 0 {
                tok
            } else {
                prev + seq![SPACE] + tok
            },
            None => prev,
        }
    }
}

/// The engine's input after truncation to its capacity.
pub open spec fn truncated_input(s: Seq<u8>) -> Seq<u8> {
    if s.len() <= MSG_MAX {
        s
    } else {
        s.take(MSG_MAX as int)
    }
}

/// The Morse encoding of `s`: the tokens of its mapped bytes in order,
/// joined by single spaces; bytes without a token and bytes whose token is
/// empty (the space) are skipped.
pub open spec fn encode_spec(s: Seq<u8>) -> Seq<u8> {
    joined_up_to(truncated_input(s), truncated_input(s).len() as int)
}

/// A well-formed Morse string: empty, or dit/dah tokens joined by single
/// spaces — every byte a dot, a dash or a separator, no leading or
/// trailing space, and no two spaces in a row.
pub open spec fn morse_normal_form(s: Seq<u8>) -> bool {
    &&& forall|i: int| 0 <= i < s.len() ==> (s[i] == DOT || s[i] == DASH || s[i] == SPACE)
    &&& s.len() > 0 ==> s[0] != SPACE && s[s.len() - 1] != SPACE
    &&& forall|i: int| 0 <= i < s.len() - 1 ==> !((#[trigger] s[i]) == SPACE && s[i + 1] == SPACE)
}

/// Encode text into a Morse symbol string: for each input byte that the
/// alphabet maps, its dit/dah token, successive tokens joined by exactly
/// one space. A byte the alphabet does not map is skipped, and so is the
/// space, whose token is empty — no leading, trailing or doubled
/// separator ever appears. The result is empty exactly when no input byte
/// within the engine's capacity carries a symbol. Never fails.
pub fn encode_morse(input: &Vec<u8>) -> (r: Vec<u8>)
    ensures
        r@ == encode_spec(input@),
        morse_normal_form(r@),
        r@.len() == 0 <==> (forall|i: int|
            0 <= i < truncated_input(input@).len() ==> !has_symbol(truncated_input(input@)[i])),
{
    let limit: usize = if input.len() <= MSG_MAX {
        input.len()
    } else {
        MSG_MAX
    };
    let ghost t = truncated_input(input@);
    assert(t.len() == limit);
    assert(forall|k: int| 0 <= k < limit ==> t[k] == input@[k]);

    let mut out: Vec<u8> = Vec::new();
    let mut j: usize = 0;
    while j < limit
        invariant
            j <= limit,
            limit <= input@.len(),
            t == truncated_input(input@),
            t.len() == limit,
            forall|k: int| 0 <= k < limit ==> t[k] == input@[k],
            out@ == joined_up_to(t, j as int),
            morse_normal_form(out@),
            out@.len() == 0 <==> (forall|i: int| 0 <= i < j ==> !has_symbol(t[i])),
        decreases limit - j,
    {
        match lookup(input[j]) {
            Some(token) => {
                if token.len() > 0 {
                    let ghost token_view = token@;
                    let ghost prev = out@;
                    let mut token = token;
                    if out.len() > 0 {
                        out.push(SPACE);
                    }
                    out.append(&mut token);
                    proof {
                        if prev.len() == 0 {
                            assert(out@ =~= token_view);
                        } else {
                            assert(out@ =~= prev + seq![SPACE] + token_view);
                        }
                        assert(out@ == joined_up_to(t, j + 1));
                        lemma_join_normal_form(prev, token_view);
                        assert(has_symbol(t[j as int]));
                    }
                }
            },
            None => {},
        }
        j = j + 1;
    }
    out
}

/// Joining a non-empty token of dots and dashes onto a well-formed Morse
/// string, with one separator when something already stands there, keeps
/// the string well formed.
proof fn lemma_join_normal_form(prev: Seq<u8>, tok: Seq<u8>)
    requires
        morse_normal_form(prev),
        tok.len() > 0,
        forall|k: int| 0 <= k < tok.len() ==> (tok[k] == DOT || tok[k] == DASH),
    ensures
        morse_normal_form(
            if prev.len() == 0 {
                tok
            } else {
                prev + seq![SPACE] + tok
            },
        ),
{
    if prev.len() == 0 {
        assert(morse_normal_form(tok));
    } else {
        let joined = prev + seq![SPACE] + tok;
        assert forall|i: int| 0 <= i < joined.len() implies (joined[i] == DOT || joined[i] == DASH
            || joined[i] == SPACE) by {
            if i < prev.len() {
                assert(joined[i] == prev[i]);
            } else if i == prev.len() {
                assert(joined[i] == SPACE);
            } else {
                assert(joined[i] == tok[i - prev.len() - 1]);
            }
        }
        assert(joined[0] == prev[0]);
        assert(joined[joined.len() - 1] == tok[tok.len() - 1]);
        assert forall|i: int| 0 <= i < joined.len() - 1 implies !((#[trigger] joined[i]) == SPACE
            && joined[i + 1] == SPACE) by {
            if i + 1 < prev.len() {
                assert(joined[i] == prev[i] && joined[i + 1] == prev[i + 1]);
            } else if i + 1 == prev.len() {
                assert(joined[i] == prev[i]);
            } else if i == prev.len() {
                assert(joined[i + 1] == tok[0]);
            } else {
                assert(joined[i] == tok[i - prev.len() - 1]);
            }
        }
    }
}

/// The tokens of the first `n` bytes of `s` in order, joined by single
/// spaces; meaningful when every byte of `s` carries a symbol.
pub open spec fn interleaved_tokens(s: Seq<u8>, n: int) -> Seq<u8>
    decreases n,
{
    if n <= 0 {
        Seq::empty()
    } else if n == 1 {
        token_of(s[0])->0
    } else {
        interleaved_tokens(s, n - 1) + seq![SPACE] + token_of(s[n - 1])->0
    }
}

proof fn lemma_joined_fully_mapped(s: Seq<u8>, n: int)
    requires
        0 <= n <= s.len(),
        forall|i: int| 0 <= i < s.len() ==> has_symbol(s[i]),
    ensures
        joined_up_to(s, n) == interleaved_tokens(s, n),
        n >= 1 ==> joined_up_to(s, n).len() > 0,
    decreases n,
{
    if n > 0 {
        lemma_joined_fully_mapped(s, n - 1);
        assert(has_symbol(s[n - 1]));
    }
}

/// For input within the engine's capacity whose every byte the alphabet
/// maps to a token with at least one signal, the encoding is exactly
/// those tokens in input order, joined by single spaces.
pub proof fn lemma_encode_fully_mapped(s: Seq<u8>)
    requires
        s.len() <= MSG_MAX,
        forall|i: int| 0 <= i < s.len() ==> has_symbol(s[i]),
    ensures
        encode_spec(s) == interleaved_tokens(s, s.len() as int),
{
    lemma_joined_fully_mapped(s, s.len() as int);
}

/// The silence event that closes the current token: a character gap after a
/// non-empty token, a word gap otherwise.
pub open spec fn gap_event(in_token: bool) -> (u16, bool) {
    if in_token {
        (300u16, false)
    } else {
        (700u16, false)
    }
}

/// Whether, after reading `n` bytes of `s`, the reader stands inside a
/// token: the last byte read exists and is not a space.
pub open spec fn in_token_after(s: Seq<u8>, n: int) -> bool {
    n > 0 && s[n - 1] != SPACE
}

/// The signal events one byte synthesizes: a dot is a short tone and a
/// short silence, a dash a long tone and a short silence, a space the gap
/// that closes the token before it, and any other byte nothing at all.
pub open spec fn step_events(b: u8, in_token: bool) -> Seq<(u16, bool)> {
    if b == SPACE {
        seq![gap_event(in_token)]
    } else if b == DOT {
        seq![(100u16, true), (100u16, false)]
    } else if b == DASH {
        seq![(300u16, true), (100u16, false)]
    } else {
        Seq::empty()
    }
}

/// The events synthesized from the first `n` bytes of `s`.
pub open spec fn events_up_to(s: Seq<u8>, n: int) -> Seq<(u16, bool)>
    decreases n,
{
    if n <= 0 {
        Seq::empty()
    } else {
        events_up_to(s, n - 1) + step_events(s[n - 1], in_token_after(s, n - 1))
    }
}

/// All events synthesized from `s`: its bytes in order, then the closing
/// gap for the final token.
pub open spec fn events_of(s: Seq<u8>) -> Seq<(u16, bool)> {
    events_up_to(s, s.len() as int) + seq![gap_event(in_token_after(s, s.len() as int))]
}

/// The text decoded from the Morse string `s`: what the signal classifier
/// accumulates over the events `s` synthesizes.
pub open spec fn decode_spec(s: Seq<u8>) -> Seq<u8> {
    classified_message(events_of(s))
}

/// Decode a Morse symbol string into text. Dots and dashes synthesize
/// timed tone events, spaces close the running token (two consecutive
/// spaces synthesize a word gap), and any other byte is ignored; the
/// classifier turns the event stream into text. Never fails.
pub fn decode_morse(input: &Vec<u8>) -> (r: Vec<u8>)
    ensures
        r@ == decode_spec(input@),
{
    let mut dec = decoder_new();
    let mut j: usize = 0;
    while j < input.len()
        invariant
            j <= input@.len(),
            decoder_events(dec) == events_up_to(input@, j as int),
        decreases input@.len() - j,
    {
        let b = input[j];
        let in_tok = j > 0 && input[j - 1] != SPACE;
        let ghost before = decoder_events(dec);
        if b == SPACE {
            if in_tok {
                decoder_signal(&mut dec, 300, false);
            } else {
                decoder_signal(&mut dec, 700, false);
            }
            assert(decoder_events(dec) =~= before + step_events(b, in_tok));
        } else if b == DOT {
            decoder_signal(&mut dec, 100, true);
            decoder_signal(&mut dec, 100, false);
            assert(decoder_events(dec) =~= before + step_events(b, in_tok));
        } else if b == DASH {
            decoder_signal(&mut dec, 300, true);
            decoder_signal(&mut dec, 100, false);
            assert(decoder_events(dec) =~= before + step_events(b, in_tok));
        } else {
            assert(decoder_events(dec) =~= before + step_events(b, in_tok));
        }
        j = j + 1;
    }
    let in_tok_end = input.len() > 0 && input[input.len() - 1] != SPACE;
    if in_tok_end {
        decoder_signal(&mut dec, 300, false);
    } else {
        decoder_signal(&mut dec, 700, false);
    }
    assert(decoder_events(dec) =~= events_of(input@));
    decoder_message(&dec)
}

/// The dot and dash bytes of `s`, in order.
pub open spec fn supported_symbols(s: Seq<u8>) -> Seq<u8>
    decreases s.len(),
{
    if s.len() == 0 {
        Seq::empty()
    } else if s.last() == DOT || s.last() == DASH {
        supported_symbols(s.drop_last()).push(s.last())
    } else {
        supported_symbols(s.drop_last())
    }
}

/// The events synthesized from a prefix depend on that prefix alone.
proof fn lemma_events_prefix(s1: Seq<u8>, s2: Seq<u8>, n: int)
    requires
        n <= s1.len(),
        n <= s2.len(),
        forall|i: int| 0 <= i < n ==> s1[i] == s2[i],
    ensures
        events_up_to(s1, n) == events_up_to(s2, n),
    decreases n,
{
    if n > 0 {
        lemma_events_prefix(s1, s2, n - 1);
    }
}

/// Every byte kept by `supported_symbols` is a dot or a dash, and none are
/// added.
proof fn lemma_supported_all(s: Seq<u8>)
    ensures
        forall|i: int|
            0 <= i < supported_symbols(s).len() ==> (supported_symbols(s)[i] == DOT
                || supported_symbols(s)[i] == DASH),
        supported_symbols(s).len() <= s.len(),
    decreases s.len(),
{
    if s.len() > 0 {
        lemma_supported_all(s.drop_last());
    }
}

/// Inside one token, bytes that are neither dots nor dashes synthesize no
/// events.
proof fn lemma_token_events(t: Seq<u8>)
    requires
        forall|i: int| 0 <= i < t.len() ==> t[i] != SPACE,
    ensures
        events_up_to(t, t.len() as int) == events_up_to(
            supported_symbols(t),
            supported_symbols(t).len() as int,
        ),
    decreases t.len(),
{
    if t.len() > 0 {
        let t0 = t.drop_last();
        let b = t.last();
        assert(forall|i: int| 0 <= i < t0.len() ==> t0[i] == t[i]);
        lemma_token_events(t0);
        lemma_events_prefix(t, t0, t0.len() as int);
        let f0 = supported_symbols(t0);
        if b == DOT || b == DASH {
            assert(supported_symbols(t) == f0.push(b));
            lemma_events_prefix(supported_symbols(t), f0, f0.len() as int);
            assert(supported_symbols(t)[f0.len() as int] == b);
            assert(events_up_to(supported_symbols(t), f0.len() as int + 1) == events_up_to(
                f0,
                f0.len() as int,
            ) + step_events(b, in_token_after(supported_symbols(t), f0.len() as int)));
        } else {
            assert(supported_symbols(t) == f0);
            assert(step_events(b, in_token_after(t, t.len() - 1)) == Seq::<(u16, bool)>::empty());
            assert(events_up_to(t, t.len() as int) =~= events_up_to(t, t.len() - 1));
        }
    }
}

/// A Morse token holding a byte that is neither a dot nor a dash decodes
/// exactly as if that byte were absent, so long as a dot or a dash
/// remains: the unsupported bytes synthesize no events at all.
pub proof fn lemma_permissive_decode(t: Seq<u8>)
    requires
        forall|i: int| 0 <= i < t.len() ==> t[i] != SPACE,
        supported_symbols(t).len() > 0,
    ensures
        events_of(t) == events_of(supported_symbols(t)),
        decode_spec(t) == decode_spec(supported_symbols(t)),
{
    lemma_token_events(t);
    lemma_supported_all(t);
    let f = supported_symbols(t);
    assert(t.len() > 0);
    assert(in_token_after(t, t.len() as int));
    assert(f[f.len() - 1] != SPACE);
    assert(in_token_after(f, f.len() as int));
    assert(events_of(t) =~= events_of(f));
}

} // verus!
