//! The wire codec.
//!
//! A command line goes out as its whitespace tokens, each token's UTF-8
//! bytes followed by a single zero byte.  A reply comes back as raw bytes
//! read until the manager closes the stream: a first byte equal to the
//! failure sentinel marks the rest as an error message, anything else is
//! the success payload.

use vstd::prelude::*;

use crate::MessageError;
use crate::text::{bytes_to_text, lossy_text};
use vstd::utf8::{char_is_scalar, encode_scalar, encode_utf8, is_scalar};

verus! {

/// Capacity of the transmission buffer: an encoded command longer than this
/// is refused rather than truncated.
pub const BUFSIZ: usize = 8192;

/// The byte value that prefixes a failure reply.
pub const FAILURE_SENTINEL: u8 = 7;

/// The token separators of a command line: the Unicode `White_Space`
/// characters, the set the standard library's whitespace splitting uses.
pub open spec fn is_ws_char(c: char) -> bool {
    let u = c as u32;
    ||| u == 0x20
    ||| (0x09 <= u && u <= 0x0D)
    ||| u == 0x85
    ||| u == 0xA0
    ||| u == 0x1680
    ||| (0x2000 <= u && u <= 0x200A)
    ||| u == 0x2028
    ||| u == 0x2029
    ||| u == 0x202F
    ||| u == 0x205F
    ||| u == 0x3000
}

/// No zero byte anywhere in `s`.
pub open spec fn zero_free(s: Seq<u8>) -> bool {
    forall|i: int| 0 <= i < s.len() ==> s[i] != 0
}

/// No NUL character anywhere in `s`.
pub open spec fn nul_free(s: Seq<char>) -> bool {
    forall|i: int| 0 <= i < s.len() ==> (#[trigger] s[i]) as u32 != 0
}

/// The encoded form of the rest of a command, given whether a token is
/// currently open (and hence owed a terminator).
pub open spec fn enc(s: Seq<char>, in_token: bool) -> Seq<u8>
    decreases s.len(),
{
    if s.len() == 0 {
        if in_token {
            seq![0u8]
        } else {
            Seq::empty()
        }
    } else if is_ws_char(s[0]) {
        if in_token {
            seq![0u8] + enc(s.drop_first(), false)
        } else {
            enc(s.drop_first(), false)
        }
    } else {
        encode_scalar(s[0] as u32) + enc(s.drop_first(), true)
    }
}

/// The full wire encoding of a command: each whitespace token's UTF-8
/// bytes followed by one zero byte.
pub open spec fn encoded_bytes(s: Seq<char>) -> Seq<u8> {
    enc(s, false)
}

/// The whitespace tokens of the rest of a command, with `cur` the token
/// collected so far.
pub open spec fn wt(s: Seq<char>, cur: Seq<char>) -> Seq<Seq<char>>
    decreases s.len(),
{
    if s.len() == 0 {
        if cur.len() == 0 {
            Seq::empty()
        } else {
            seq![cur]
        }
    } else if is_ws_char(s[0]) {
        if cur.len() == 0 {
            wt(s.drop_first(), Seq::empty())
        } else {
            seq![cur] + wt(s.drop_first(), Seq::empty())
        }
    } else {
        wt(s.drop_first(), cur.push(s[0]))
    }
}

/// The whitespace-split tokens of a command, empty tokens left out.
pub open spec fn ws_tokens(s: Seq<char>) -> Seq<Seq<char>> {
    wt(s, Seq::empty())
}

/// Each token as its UTF-8 bytes.
pub open spec fn token_bytes(tokens: Seq<Seq<char>>) -> Seq<Seq<u8>> {
    tokens.map_values(|t: Seq<char>| encode_utf8(t))
}

/// Byte tokens laid out on the wire: each followed by a single zero byte.
pub open spec fn terminated(tokens: Seq<Seq<u8>>) -> Seq<u8>
    decreases tokens.len(),
{
    if tokens.len() == 0 {
        Seq::empty()
    } else {
        tokens[0] + seq![0u8] + terminated(tokens.drop_first())
    }
}

/// Splitting on zero bytes: the segments between zeros, with `cur` the
/// segment collected so far; a trailing segment is kept only if nonempty.
pub open spec fn sz(s: Seq<u8>, cur: Seq<u8>) -> Seq<Seq<u8>>
    decreases s.len(),
{
    if s.len() == 0 {
        if cur.len() == 0 {
            Seq::empty()
        } else {
            seq![cur]
        }
    } else if s[0] == 0 {
        seq![cur] + sz(s.drop_first(), Seq::empty())
    } else {
        sz(s.drop_first(), cur.push(s[0]))
    }
}

/// The zero-separated segments of a wire payload.
pub open spec fn zero_split(s: Seq<u8>) -> Seq<Seq<u8>> {
    sz(s, Seq::empty())
}

/// Every byte token is nonempty and free of zero bytes.
pub open spec fn tokens_wf(tokens: Seq<Seq<u8>>) -> bool {
    forall|k: int|
        0 <= k < tokens.len() ==> (#[trigger] tokens[k]).len() > 0 && zero_free(tokens[k])
}

/// Every char token is nonempty and free of NUL characters.
pub open spec fn char_tokens_wf(tokens: Seq<Seq<char>>) -> bool {
    forall|k: int|
        0 <= k < tokens.len() ==> (#[trigger] tokens[k]).len() > 0 && nul_free(tokens[k])
}

/// Whether a character separates command tokens.
fn is_whitespace_char(c: char) -> (r: bool)
    ensures
        r == is_ws_char(c),
{
    let u = c as u32;
    u == 0x20 || (0x09 <= u && u <= 0x0D) || u == 0x85 || u == 0xA0 || u == 0x1680 || (0x2000 <= u
        && u <= 0x200A) || u == 0x2028 || u == 0x2029 || u == 0x202F || u == 0x205F || u == 0x3000
}

/// The UTF-8 bytes of one character, laid out as vstd's `encode_scalar`
/// describes them.
fn char_utf8(c: char) -> (r: Vec<u8>)
    ensures
        r@ == encode_scalar(c as u32),
{
    proof {
        char_is_scalar(c);
    }
    let v = c as u32;
    let mut out: Vec<u8> = Vec::new();
    if v < 0x80 {
        out.push((v & 0x7F) as u8);
    } else if v < 0x800 {
        out.push(0xC0u8 | (((v >> 6) & 0x1F) as u8));
        out.push(0x80u8 | ((v & 0x3F) as u8));
    } else if v < 0x10000 {
        out.push(0xE0u8 | (((v >> 12) & 0x0F) as u8));
        out.push(0x80u8 | (((v >> 6) & 0x3F) as u8));
        out.push(0x80u8 | ((v & 0x3F) as u8));
    } else {
        out.push(0xF0u8 | (((v >> 18) & 0x7) as u8));
        out.push(0x80u8 | (((v >> 12) & 0x3F) as u8));
        out.push(0x80u8 | (((v >> 6) & 0x3F) as u8));
        out.push(0x80u8 | ((v & 0x3F) as u8));
    }
    proof {
        assert(out@ =~= encode_scalar(v));
    }
    out
}

/// Encodes a command line for the socket: each whitespace token's UTF-8
/// bytes followed by a zero byte, splitting on Unicode whitespace.  An
/// encoding that would not fit the transmission buffer is refused as
/// `CommandTooLarge`.
pub fn encode_command(message: &str) -> (r: Result<Vec<u8>, MessageError>)
    ensures
        encoded_bytes(message@).len() <= BUFSIZ ==> (r matches Ok(v) && v@ == encoded_bytes(
            message@,
        )),
        encoded_bytes(message@).len() > BUFSIZ ==> r == Err::<Vec<u8>, MessageError>(
            MessageError::CommandTooLarge,
        ),
{
    let n = message.unicode_len();
    let mut out: Vec<u8> = Vec::new();
    let mut in_token = false;
    proof {
        assert(message@.skip(0) =~= message@);
    }
    for i in 0..n
        invariant
            n == message@.len(),
            encoded_bytes(message@) == out@ + enc(message@.skip(i as int), in_token),
    {
        let c = message.get_char(i);
        proof {
            assert(message@.skip(i as int).drop_first() =~= message@.skip(i + 1));
        }
        if is_whitespace_char(c) {
            if in_token {
                out.push(0);
                in_token = false;
            }
        } else {
            let mut cb = char_utf8(c);
            out.append(&mut cb);
            in_token = true;
        }
    }
    proof {
        assert(message@.skip(n as int) =~= Seq::<char>::empty());
    }
    if in_token {
        out.push(0);
    }
    if out.len() > BUFSIZ {
        Err(MessageError::CommandTooLarge)
    } else {
        Ok(out)
    }
}

/// Interprets a raw reply buffer.  An empty buffer is an empty success; a
/// buffer led by the failure sentinel is a failure carrying the remaining
/// bytes as text; anything else is a success carrying all bytes as text.
pub fn decode_response(raw: &[u8]) -> (r: Result<String, String>)
    ensures
        raw@.len() == 0 ==> (r matches Ok(s) && s@ == Seq::<char>::empty()),
        raw@.len() > 0 && raw@[0] == FAILURE_SENTINEL ==> (r matches Err(m) && m@ == lossy_text(
            raw@.skip(1),
        )),
        raw@.len() > 0 && raw@[0] != FAILURE_SENTINEL ==> (r matches Ok(s) && s@ == lossy_text(
            raw@,
        )),
{
    if raw.len() == 0 {
        Ok(String::new())
    } else if raw[0] == FAILURE_SENTINEL {
        let rest = &raw[1..raw.len()];
        proof {
            assert(rest@ =~= raw@.skip(1));
        }
        Err(bytes_to_text(rest))
    } else {
        Ok(bytes_to_text(raw))
    }
}

/// Like `decode_response`, with a failure reply surfaced as
/// `MessageError::Status` carrying the manager's message.
pub fn interpret_reply(raw: &[u8]) -> (r: Result<String, MessageError>)
    ensures
        raw@.len() == 0 ==> (r matches Ok(s) && s@ == Seq::<char>::empty()),
        raw@.len() > 0 && raw@[0] == FAILURE_SENTINEL ==> (r matches Err(
            MessageError::Status(m),
        ) && m@ == lossy_text(raw@.skip(1))),
        raw@.len() > 0 && raw@[0] != FAILURE_SENTINEL ==> (r matches Ok(s) && s@ == lossy_text(
            raw@,
        )),
{
    match decode_response(raw) {
        Ok(s) => Ok(s),
        Err(m) => Err(MessageError::Status(m)),
    }
}

proof fn lemma_encode_scalar_nonzero(v: u32)
    requires
        is_scalar(v),
        v != 0,
    ensures
        encode_scalar(v).len() >= 1,
        zero_free(encode_scalar(v)),
{
    if v <= 0x7F {
        assert((v & 0x7F) as u8 != 0) by (bit_vector)
            requires
                v != 0 && v <= 0x7F,
        ;
    } else if v <= 0x7FF {
        assert((0xC0u8 | (((v >> 6) & 0x1F) as u8)) != 0) by (bit_vector);
        assert((0x80u8 | ((v & 0x3F) as u8)) != 0) by (bit_vector);
    } else if v <= 0xFFFF {
        assert((0xE0u8 | (((v >> 12) & 0x0F) as u8)) != 0) by (bit_vector);
        assert((0x80u8 | (((v >> 6) & 0x3F) as u8)) != 0) by (bit_vector);
        assert((0x80u8 | ((v & 0x3F) as u8)) != 0) by (bit_vector);
    } else {
        assert((0xF0u8 | (((v >> 18) & 0x7) as u8)) != 0) by (bit_vector);
        assert((0x80u8 | (((v >> 12) & 0x3F) as u8)) != 0) by (bit_vector);
        assert((0x80u8 | (((v >> 6) & 0x3F) as u8)) != 0) by (bit_vector);
        assert((0x80u8 | ((v & 0x3F) as u8)) != 0) by (bit_vector);
    }
}

proof fn lemma_encode_utf8_wf(t: Seq<char>)
    requires
        nul_free(t),
    ensures
        encode_utf8(t).len() >= t.len(),
        zero_free(encode_utf8(t)),
    decreases t.len(),
{
    if t.len() == 0 {
    } else {
        char_is_scalar(t[0]);
        lemma_encode_scalar_nonzero(t[0] as u32);
        assert(nul_free(t.drop_first()));
        lemma_encode_utf8_wf(t.drop_first());
    }
}

proof fn lemma_encode_utf8_push(t: Seq<char>, c: char)
    ensures
        encode_utf8(t.push(c)) == encode_utf8(t) + encode_scalar(c as u32),
    decreases t.len(),
{
    if t.len() == 0 {
        assert(t.push(c)[0] == c);
        assert(t.push(c).drop_first() =~= Seq::<char>::empty());
        assert(encode_utf8(t.push(c)) == encode_scalar(c as u32) + encode_utf8(
            t.push(c).drop_first(),
        ));
        assert(encode_utf8(Seq::<char>::empty()) == Seq::<u8>::empty());
        assert(encode_utf8(t.push(c)) =~= encode_utf8(t) + encode_scalar(c as u32));
    } else {
        assert(t.push(c)[0] == t[0]);
        assert(t.push(c).drop_first() =~= t.drop_first().push(c));
        lemma_encode_utf8_push(t.drop_first(), c);
        assert(encode_utf8(t.push(c)) == encode_scalar(t[0] as u32) + encode_utf8(
            t.drop_first().push(c),
        ));
        assert(encode_utf8(t) == encode_scalar(t[0] as u32) + encode_utf8(t.drop_first()));
        assert(encode_scalar(t[0] as u32) + (encode_utf8(t.drop_first()) + encode_scalar(
            c as u32,
        )) =~= encode_scalar(t[0] as u32) + encode_utf8(t.drop_first()) + encode_scalar(c as u32));
    }
}

proof fn lemma_terminated_wt(s: Seq<char>, cur: Seq<char>)
    ensures
        terminated(token_bytes(wt(s, cur))) == encode_utf8(cur) + enc(s, cur.len() > 0),
    decreases s.len(),
{
    if s.len() == 0 {
        if cur.len() == 0 {
            assert(token_bytes(wt(s, cur)) =~= Seq::<Seq<u8>>::empty());
            assert(terminated(token_bytes(wt(s, cur))) =~= encode_utf8(cur) + enc(s, false));
        } else {
            assert(wt(s, cur) == seq![cur]);
            assert(token_bytes(seq![cur]) =~= seq![encode_utf8(cur)]);
            assert(seq![encode_utf8(cur)].drop_first() =~= Seq::<Seq<u8>>::empty());
            assert(terminated(seq![encode_utf8(cur)]) == seq![encode_utf8(cur)][0] + seq![0u8]
                + terminated(seq![encode_utf8(cur)].drop_first()));
            assert(encode_utf8(cur) + seq![0u8] + terminated(Seq::<Seq<u8>>::empty())
                =~= encode_utf8(cur) + enc(s, true));
        }
    } else if is_ws_char(s[0]) {
        lemma_terminated_wt(s.drop_first(), Seq::empty());
        if cur.len() == 0 {
            assert(terminated(token_bytes(wt(s, cur))) =~= encode_utf8(cur) + enc(s, false));
        } else {
            let tail = wt(s.drop_first(), Seq::<char>::empty());
            assert(token_bytes(seq![cur] + tail) =~= seq![encode_utf8(cur)] + token_bytes(tail));
            assert((seq![encode_utf8(cur)] + token_bytes(tail))[0] == encode_utf8(cur));
            assert((seq![encode_utf8(cur)] + token_bytes(tail)).drop_first() =~= token_bytes(
                tail,
            ));
            assert(terminated(seq![encode_utf8(cur)] + token_bytes(tail)) == encode_utf8(cur)
                + seq![0u8] + terminated(token_bytes(tail)));
            assert(encode_utf8(cur) + seq![0u8] + (encode_utf8(Seq::<char>::empty()) + enc(
                s.drop_first(),
                false,
            )) =~= encode_utf8(cur) + enc(s, true));
        }
    } else {
        lemma_terminated_wt(s.drop_first(), cur.push(s[0]));
        lemma_encode_utf8_push(cur, s[0]);
        assert(encode_utf8(cur) + encode_scalar(s[0] as u32) + enc(s.drop_first(), true)
            =~= encode_utf8(cur) + enc(s, cur.len() > 0));
    }
}

proof fn lemma_wt_char_tokens_wf(s: Seq<char>, cur: Seq<char>)
    requires
        nul_free(s),
        nul_free(cur),
    ensures
        char_tokens_wf(wt(s, cur)),
    decreases s.len(),
{
    if s.len() == 0 {
    } else if is_ws_char(s[0]) {
        assert(nul_free(s.drop_first()));
        lemma_wt_char_tokens_wf(s.drop_first(), Seq::empty());
        if cur.len() > 0 {
            let tail = wt(s.drop_first(), Seq::<char>::empty());
            assert forall|k: int| 0 <= k < (seq![cur] + tail).len() implies (#[trigger] (seq![cur]
                + tail)[k]).len() > 0 && nul_free((seq![cur] + tail)[k]) by {
                if k > 0 {
                    assert((seq![cur] + tail)[k] == tail[k - 1]);
                }
            }
        }
    } else {
        assert(nul_free(s.drop_first()));
        assert(nul_free(cur.push(s[0]))) by {
            assert(forall|i: int| 0 <= i < cur.len() ==> cur.push(s[0])[i] == cur[i]);
            assert(cur.push(s[0]).last() == s[0]);
        }
        lemma_wt_char_tokens_wf(s.drop_first(), cur.push(s[0]));
    }
}

proof fn lemma_token_bytes_wf(tokens: Seq<Seq<char>>)
    requires
        char_tokens_wf(tokens),
    ensures
        tokens_wf(token_bytes(tokens)),
{
    assert forall|k: int| 0 <= k < token_bytes(tokens).len() implies (#[trigger] token_bytes(
        tokens,
    )[k]).len() > 0 && zero_free(token_bytes(tokens)[k]) by {
        assert(token_bytes(tokens)[k] == encode_utf8(tokens[k]));
        lemma_encode_utf8_wf(tokens[k]);
    }
}

proof fn lemma_sz_skips_token(t: Seq<u8>, u: Seq<u8>, cur: Seq<u8>)
    requires
        zero_free(t),
    ensures
        sz(t + u, cur) == sz(u, cur + t),
    decreases t.len(),
{
    if t.len() == 0 {
        assert(t + u =~= u);
        assert(cur + t =~= cur);
    } else {
        assert((t + u)[0] == t[0]);
        assert((t + u).drop_first() =~= t.drop_first() + u);
        assert(zero_free(t.drop_first()));
        lemma_sz_skips_token(t.drop_first(), u, cur.push(t[0]));
        assert(cur.push(t[0]) + t.drop_first() =~= cur + t);
    }
}

proof fn lemma_zero_split_terminated(tokens: Seq<Seq<u8>>)
    requires
        tokens_wf(tokens),
    ensures
        zero_split(terminated(tokens)) == tokens,
    decreases tokens.len(),
{
    if tokens.len() == 0 {
    } else {
        let head = tokens[0];
        let rest = terminated(tokens.drop_first());
        assert(terminated(tokens) =~= head + (seq![0u8] + rest));
        lemma_sz_skips_token(head, seq![0u8] + rest, Seq::empty());
        assert(Seq::<u8>::empty() + head =~= head);
        assert((seq![0u8] + rest)[0] == 0);
        assert((seq![0u8] + rest).drop_first() =~= rest);
        assert(tokens_wf(tokens.drop_first()));
        lemma_zero_split_terminated(tokens.drop_first());
        assert(zero_split(terminated(tokens)) =~= seq![head] + tokens.drop_first());
        assert(seq![head] + tokens.drop_first() =~= tokens);
    }
}

/// The token round trip of the wire format: a command's encoding is exactly
/// its whitespace tokens' UTF-8 bytes, each followed by one zero byte, and
/// splitting the encoding back on zero bytes reproduces those tokens.
/// Holds of every command free of NUL characters (a NUL cannot stand in a
/// token: its byte is the terminator itself).
pub proof fn lemma_encode_token_round_trip(s: Seq<char>)
    requires
        nul_free(s),
    ensures
        terminated(token_bytes(ws_tokens(s))) == encoded_bytes(s),
        zero_split(encoded_bytes(s)) == token_bytes(ws_tokens(s)),
{
    lemma_terminated_wt(s, Seq::empty());
    assert(encode_utf8(Seq::<char>::empty()) + enc(s, false) =~= enc(s, false));
    lemma_wt_char_tokens_wf(s, Seq::empty());
    lemma_token_bytes_wf(ws_tokens(s));
    lemma_zero_split_terminated(token_bytes(ws_tokens(s)));
}

} // verus!
