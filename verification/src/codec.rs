//! The wire protocol: one `Message` travels as a frame made of a 4-byte
//! big-endian length field followed by exactly that many bytes of body.
//! The body is a self-describing serialization of the message: each string
//! or byte-string field is written as an 8-byte little-endian length
//! followed by the field's bytes (UTF-8 for strings), and the payload
//! carries a 4-byte little-endian discriminant (0 = Text, 1 = Image,
//! 2 = File) ahead of its fields.
//!
//! Everything here is specified down to the byte: `spec_body` gives the
//! body bytes of a message, `spec_parse_body` gives the unique message a
//! body decodes to, and the round-trip lemmas relate the two.

use vstd::prelude::*;
use vstd::bytes::*;
use vstd::slice::{slice_subrange, slice_to_vec};
use vstd::string::StrSliceExecFns;
use vstd::utf8::*;

use crate::message::{Message, MessageType, MessageTypeView, MessageView};

verus! {

/// How reading one message from a peer can fail.
///
/// `GracefulDisconnect` is informational (the peer closed at a frame
/// boundary), the other two report a broken peer or link.
#[derive(Debug, Clone, Copy, PartialEq, Eq, Structural)]
pub enum MessageError {
    /// The peer closed the stream before a full length field arrived.
    GracefulDisconnect,
    /// The stream ended after a full length field but before the body did.
    TransportError,
    /// Length and body were read in full but the body does not decode.
    ProtocolError,
}

/// Body bytes of one string field: 8-byte little-endian byte length, then
/// the UTF-8 bytes of the string.
pub open spec fn spec_str_field(s: Seq<char>) -> Seq<u8> {
    spec_u64_to_le_bytes(encode_utf8(s).len() as u64) + encode_utf8(s)
}

/// Body bytes of one byte-string field: 8-byte little-endian length, then
/// the bytes themselves.
pub open spec fn spec_bytes_field(b: Seq<u8>) -> Seq<u8> {
    spec_u64_to_le_bytes(b.len() as u64) + b
}

/// Body bytes of a payload: a 4-byte little-endian discriminant, then the
/// payload's fields.
pub open spec fn spec_payload_bytes(p: MessageTypeView) -> Seq<u8> {
    match p {
        MessageTypeView::Text(t) => spec_u32_to_le_bytes(0u32) + spec_str_field(t),
        MessageTypeView::Image(d) => spec_u32_to_le_bytes(1u32) + spec_bytes_field(d),
        MessageTypeView::File { name, content } => spec_u32_to_le_bytes(2u32) + spec_str_field(
            name,
        ) + spec_bytes_field(content),
    }
}

/// Body bytes of a whole message: nickname field, then payload.
pub open spec fn spec_body(m: MessageView) -> Seq<u8> {
    spec_str_field(m.nickname) + spec_payload_bytes(m.message)
}

/// A string field whose byte length is representable in its length field.
pub open spec fn str_field_fits(s: Seq<char>) -> bool {
    encode_utf8(s).len() <= u64::MAX
}

/// A byte field whose length is representable in its length field.
pub open spec fn bytes_field_fits(b: Seq<u8>) -> bool {
    b.len() <= u64::MAX
}

/// Every length field of the message's body is representable.
pub open spec fn body_fits(m: MessageView) -> bool {
    str_field_fits(m.nickname) && match m.message {
        MessageTypeView::Text(t) => str_field_fits(t),
        MessageTypeView::Image(d) => bytes_field_fits(d),
        MessageTypeView::File { name, content } => str_field_fits(name) && bytes_field_fits(
            content,
        ),
    }
}

/// Reads one string field from the front of `b`: the decoded string and
/// the remaining bytes, or `None` if `b` does not start with a well-formed
/// string field.
pub open spec fn spec_parse_str_field(b: Seq<u8>) -> Option<(Seq<char>, Seq<u8>)> {
    if b.len() < 8 {
        None
    } else {
        let n = spec_u64_from_le_bytes(b.subrange(0, 8)) as int;
        if b.len() < 8 + n {
            None
        } else {
            let sb = b.subrange(8, 8 + n);
            if valid_utf8(sb) {
                Some((decode_utf8(sb), b.subrange(8 + n, b.len() as int)))
            } else {
                None
            }
        }
    }
}

/// Reads one byte-string field from the front of `b`.
pub open spec fn spec_parse_bytes_field(b: Seq<u8>) -> Option<(Seq<u8>, Seq<u8>)> {
    if b.len() < 8 {
        None
    } else {
        let n = spec_u64_from_le_bytes(b.subrange(0, 8)) as int;
        if b.len() < 8 + n {
            None
        } else {
            Some((b.subrange(8, 8 + n), b.subrange(8 + n, b.len() as int)))
        }
    }
}

/// The unique message whose body is exactly `b`, or `None` when `b` is not
/// the body of any message.
pub open spec fn spec_parse_body(b: Seq<u8>) -> Option<MessageView> {
    match spec_parse_str_field(b) {
        None => None,
        Some((nickname, rest)) => {
            if rest.len() < 4 {
                None
            } else {
                let d = spec_u32_from_le_bytes(rest.subrange(0, 4));
                let pb = rest.subrange(4, rest.len() as int);
                if d == 0 {
                    match spec_parse_str_field(pb) {
                        Some((t, tail)) => if tail.len() == 0 {
                            Some(MessageView { nickname, message: MessageTypeView::Text(t) })
                        } else {
                            None
                        },
                        None => None,
                    }
                } else if d == 1 {
                    match spec_parse_bytes_field(pb) {
                        Some((data, tail)) => if tail.len() == 0 {
                            Some(MessageView { nickname, message: MessageTypeView::Image(data) })
                        } else {
                            None
                        },
                        None => None,
                    }
                } else if d == 2 {
                    match spec_parse_str_field(pb) {
                        Some((name, rest2)) => match spec_parse_bytes_field(rest2) {
                            Some((content, tail)) => if tail.len() == 0 {
                                Some(
                                    MessageView {
                                        nickname,
                                        message: MessageTypeView::File { name, content },
                                    },
                                )
                            } else {
                                None
                            },
                            None => None,
                        },
                        None => None,
                    }
                } else {
                    None
                }
            }
        },
    }
}

/// Parsing undoes serializing for a single string field, whatever follows it.
proof fn lemma_parse_str_field(s: Seq<char>, rest: Seq<u8>)
    requires
        str_field_fits(s),
    ensures
        spec_parse_str_field(spec_str_field(s) + rest) == Some((s, rest)),
{
    lemma_auto_spec_u64_to_from_le_bytes();
    broadcast use encode_utf8_valid_utf8, encode_utf8_decode_utf8;

    let e = encode_utf8(s);
    let b = spec_str_field(s) + rest;
    assert(b.subrange(0, 8) =~= spec_u64_to_le_bytes(e.len() as u64));
    let n = spec_u64_from_le_bytes(b.subrange(0, 8)) as int;
    assert(n == e.len());
    assert(b.subrange(8, 8 + n) =~= e);
    assert(b.subrange(8 + n, b.len() as int) =~= rest);
}

/// Parsing undoes serializing for a single byte-string field.
proof fn lemma_parse_bytes_field(d: Seq<u8>, rest: Seq<u8>)
    requires
        bytes_field_fits(d),
    ensures
        spec_parse_bytes_field(spec_bytes_field(d) + rest) == Some((d, rest)),
{
    lemma_auto_spec_u64_to_from_le_bytes();
    let b = spec_bytes_field(d) + rest;
    assert(b.subrange(0, 8) =~= spec_u64_to_le_bytes(d.len() as u64));
    let n = spec_u64_from_le_bytes(b.subrange(0, 8)) as int;
    assert(n == d.len());
    assert(b.subrange(8, 8 + n) =~= d);
    assert(b.subrange(8 + n, b.len() as int) =~= rest);
}

/// Round trip, decode after encode: the body bytes of a message parse back
/// to exactly that message.
pub proof fn lemma_parse_body_of_message(m: MessageView)
    requires
        body_fits(m),
    ensures
        spec_parse_body(spec_body(m)) == Some(m),
{
    lemma_auto_spec_u32_to_from_le_bytes();
    let p = spec_payload_bytes(m.message);
    lemma_parse_str_field(m.nickname, p);
    assert(spec_body(m) =~= spec_str_field(m.nickname) + p);
    match m.message {
        MessageTypeView::Text(t) => {
            assert(p.subrange(0, 4) =~= spec_u32_to_le_bytes(0u32));
            let pb = p.subrange(4, p.len() as int);
            assert(pb =~= spec_str_field(t) + Seq::<u8>::empty());
            lemma_parse_str_field(t, Seq::<u8>::empty());
        },
        MessageTypeView::Image(d) => {
            assert(p.subrange(0, 4) =~= spec_u32_to_le_bytes(1u32));
            let pb = p.subrange(4, p.len() as int);
            assert(pb =~= spec_bytes_field(d) + Seq::<u8>::empty());
            lemma_parse_bytes_field(d, Seq::<u8>::empty());
        },
        MessageTypeView::File { name, content } => {
            assert(p.subrange(0, 4) =~= spec_u32_to_le_bytes(2u32));
            let pb = p.subrange(4, p.len() as int);
            assert(pb =~= spec_str_field(name) + spec_bytes_field(content));
            lemma_parse_str_field(name, spec_bytes_field(content));
            lemma_parse_bytes_field(content, Seq::<u8>::empty());
            assert(spec_bytes_field(content) =~= spec_bytes_field(content) + Seq::<u8>::empty());
        },
    }
}

/// Soundness of the field parser: a parsed string field came from exactly
/// the bytes that serializing it again would produce.
proof fn lemma_parse_str_field_inv(b: Seq<u8>)
    requires
        spec_parse_str_field(b) is Some,
    ensures
        ({
            let (s, rest) = spec_parse_str_field(b)->Some_0;
            &&& str_field_fits(s)
            &&& b == spec_str_field(s) + rest
            &&& rest.len() + 8 <= b.len()
        }),
{
    lemma_auto_spec_u64_to_from_le_bytes();
    broadcast use decode_utf8_encode_utf8;

    let n = spec_u64_from_le_bytes(b.subrange(0, 8)) as int;
    let sb = b.subrange(8, 8 + n);
    let s = decode_utf8(sb);
    let rest = b.subrange(8 + n, b.len() as int);
    assert(encode_utf8(s) == sb);
    assert(spec_u64_to_le_bytes(spec_u64_from_le_bytes(b.subrange(0, 8))) == b.subrange(0, 8));
    assert(b =~= spec_str_field(s) + rest);
}

/// Soundness of the field parser for byte-string fields.
proof fn lemma_parse_bytes_field_inv(b: Seq<u8>)
    requires
        spec_parse_bytes_field(b) is Some,
    ensures
        ({
            let (d, rest) = spec_parse_bytes_field(b)->Some_0;
            &&& bytes_field_fits(d)
            &&& b == spec_bytes_field(d) + rest
            &&& rest.len() + 8 <= b.len()
        }),
{
    lemma_auto_spec_u64_to_from_le_bytes();
    let n = spec_u64_from_le_bytes(b.subrange(0, 8)) as int;
    let d = b.subrange(8, 8 + n);
    let rest = b.subrange(8 + n, b.len() as int);
    assert(spec_u64_to_le_bytes(spec_u64_from_le_bytes(b.subrange(0, 8))) == b.subrange(0, 8));
    assert(b =~= spec_bytes_field(d) + rest);
}

/// Round trip, encode after decode: a body that parses came from exactly
/// the message it parses to. Together with `lemma_parse_body_of_message`
/// this makes the encoding a bijection between messages and their bodies.
pub proof fn lemma_body_of_parsed(b: Seq<u8>)
    requires
        spec_parse_body(b) is Some,
    ensures
        body_fits(spec_parse_body(b)->Some_0),
        spec_body(spec_parse_body(b)->Some_0) == b,
{
    lemma_auto_spec_u32_to_from_le_bytes();
    lemma_parse_str_field_inv(b);
    let (nickname, rest) = spec_parse_str_field(b)->Some_0;
    let d = spec_u32_from_le_bytes(rest.subrange(0, 4));
    let pb = rest.subrange(4, rest.len() as int);
    assert(spec_u32_to_le_bytes(spec_u32_from_le_bytes(rest.subrange(0, 4))) == rest.subrange(
        0,
        4,
    ));
    assert(rest =~= rest.subrange(0, 4) + pb);
    if d == 0 {
        lemma_parse_str_field_inv(pb);
        let (t, tail) = spec_parse_str_field(pb)->Some_0;
        assert(pb =~= spec_str_field(t));
        assert(b =~= spec_body(spec_parse_body(b)->Some_0));
    } else if d == 1 {
        lemma_parse_bytes_field_inv(pb);
        let (data, tail) = spec_parse_bytes_field(pb)->Some_0;
        assert(pb =~= spec_bytes_field(data));
        assert(b =~= spec_body(spec_parse_body(b)->Some_0));
    } else {
        lemma_parse_str_field_inv(pb);
        let (name, rest2) = spec_parse_str_field(pb)->Some_0;
        lemma_parse_bytes_field_inv(rest2);
        let (content, tail) = spec_parse_bytes_field(rest2)->Some_0;
        assert(rest2 =~= spec_bytes_field(content));
        assert(b =~= spec_body(spec_parse_body(b)->Some_0));
    }
}

/// The encoding is injective: two messages with the same body bytes are
/// the same message.
pub proof fn lemma_body_injective(m1: MessageView, m2: MessageView)
    requires
        body_fits(m1),
        body_fits(m2),
        spec_body(m1) == spec_body(m2),
    ensures
        m1 == m2,
{
    lemma_parse_body_of_message(m1);
    lemma_parse_body_of_message(m2);
}

/// Appends one serialized string field to `out`.
fn write_str_field(out: &mut Vec<u8>, s: &str)
    ensures
        final(out)@ == old(out)@ + spec_str_field(s@),
{
    let mut bytes = s.as_bytes_vec();
    let n = bytes.len();
    proof {
        assert(usize::MAX <= u64::MAX);
    }
    let mut len_bytes = u64_to_le_bytes(n as u64);
    out.append(&mut len_bytes);
    out.append(&mut bytes);
    proof {
        assert(out@ =~= old(out)@ + spec_str_field(s@));
    }
}

/// Appends one serialized byte-string field to `out`.
fn write_bytes_field(out: &mut Vec<u8>, d: &[u8])
    ensures
        final(out)@ == old(out)@ + spec_bytes_field(d@),
{
    let n = d.len();
    proof {
        assert(usize::MAX <= u64::MAX);
    }
    let mut len_bytes = u64_to_le_bytes(n as u64);
    out.append(&mut len_bytes);
    let mut bytes = slice_to_vec(d);
    out.append(&mut bytes);
    proof {
        assert(out@ =~= old(out)@ + spec_bytes_field(d@));
    }
}

/// Relies on String::from_utf8: it succeeds exactly when the bytes are a
/// valid UTF-8 encoding, and then returns the string those bytes encode.
#[verifier::external_body]
fn string_from_utf8(bytes: Vec<u8>) -> (r: Option<String>)
    ensures
        match r {
            Some(s) => valid_utf8(bytes@) && s@ == decode_utf8(bytes@),
            None => !valid_utf8(bytes@),
        },
{
    String::from_utf8(bytes).ok()
}

/// Reads one string field of the body starting at `pos`; on success
/// returns the string and the position just past the field.
fn parse_str_field(input: &[u8], pos: usize) -> (r: Result<(String, usize), MessageError>)
    requires
        pos <= input@.len(),
    ensures
        match r {
            Ok(p) => {
                &&& pos + 8 <= p.1 <= input@.len()
                &&& spec_parse_str_field(input@.subrange(pos as int, input@.len() as int)) == Some(
                    (p.0@, input@.subrange(p.1 as int, input@.len() as int)),
                )
            },
            Err(e) => {
                &&& e == MessageError::ProtocolError
                &&& spec_parse_str_field(
                    input@.subrange(pos as int, input@.len() as int),
                ) is None
            },
        },
{
    let len = input.len();
    let ghost b = input@.subrange(pos as int, input@.len() as int);
    if len - pos < 8 {
        return Err(MessageError::ProtocolError);
    }
    let n64 = u64_from_le_bytes(slice_subrange(input, pos, pos + 8));
    proof {
        assert(input@.subrange(pos as int, pos + 8) =~= b.subrange(0, 8));
        assert(usize::MAX <= u64::MAX);
    }
    let rem = (len - pos - 8) as u64;
    if n64 > rem {
        return Err(MessageError::ProtocolError);
    }
    let n = n64 as usize;
    let sb = slice_subrange(input, pos + 8, pos + 8 + n);
    proof {
        assert(sb@ =~= b.subrange(8, 8 + n64 as int));
    }
    let bytes = slice_to_vec(sb);
    match string_from_utf8(bytes) {
        Some(s) => {
            proof {
                assert(input@.subrange(pos + 8 + n64 as int, input@.len() as int) =~= b.subrange(
                    8 + n64 as int,
                    b.len() as int,
                ));
            }
            Ok((s, pos + 8 + n))
        },
        None => Err(MessageError::ProtocolError),
    }
}

/// Reads one byte-string field of the body starting at `pos`.
fn parse_bytes_field(input: &[u8], pos: usize) -> (r: Result<(Vec<u8>, usize), MessageError>)
    requires
        pos <= input@.len(),
    ensures
        match r {
            Ok(p) => {
                &&& pos + 8 <= p.1 <= input@.len()
                &&& spec_parse_bytes_field(input@.subrange(pos as int, input@.len() as int))
                    == Some((p.0@, input@.subrange(p.1 as int, input@.len() as int)))
            },
            Err(e) => {
                &&& e == MessageError::ProtocolError
                &&& spec_parse_bytes_field(
                    input@.subrange(pos as int, input@.len() as int),
                ) is None
            },
        },
{
    let len = input.len();
    let ghost b = input@.subrange(pos as int, input@.len() as int);
    if len - pos < 8 {
        return Err(MessageError::ProtocolError);
    }
    let n64 = u64_from_le_bytes(slice_subrange(input, pos, pos + 8));
    proof {
        assert(input@.subrange(pos as int, pos + 8) =~= b.subrange(0, 8));
        assert(usize::MAX <= u64::MAX);
    }
    let rem = (len - pos - 8) as u64;
    if n64 > rem {
        return Err(MessageError::ProtocolError);
    }
    let n = n64 as usize;
    let sb = slice_subrange(input, pos + 8, pos + 8 + n);
    proof {
        assert(sb@ =~= b.subrange(8, 8 + n64 as int));
        assert(input@.subrange(pos + 8 + n64 as int, input@.len() as int) =~= b.subrange(
            8 + n64 as int,
            b.len() as int,
        ));
    }
    let data = slice_to_vec(sb);
    Ok((data, pos + 8 + n))
}

impl Message {
    /// Serializes the message to the body bytes of its frame. Succeeds for
    /// every message value.
    pub fn serialized_message(&self) -> (r: Result<Vec<u8>, MessageError>)
        ensures
            r matches Ok(b) && b@ == spec_body(self@),
    {
        let mut out: Vec<u8> = Vec::new();
        write_str_field(&mut out, self.nickname.as_str());
        match &self.message {
            MessageType::Text(t) => {
                let mut disc = u32_to_le_bytes(0u32);
                out.append(&mut disc);
                write_str_field(&mut out, t.as_str());
            },
            MessageType::Image(d) => {
                let mut disc = u32_to_le_bytes(1u32);
                out.append(&mut disc);
                write_bytes_field(&mut out, d.as_slice());
            },
            MessageType::File { name, content } => {
                let mut disc = u32_to_le_bytes(2u32);
                out.append(&mut disc);
                write_str_field(&mut out, name.as_str());
                write_bytes_field(&mut out, content.as_slice());
            },
        }
        proof {
            assert(out@ =~= spec_body(self@));
        }
        Ok(out)
    }

    /// Deserializes body bytes to a Message. Fails exactly on byte
    /// sequences that are not the body of any message.
    pub fn deserialized_message(input: &[u8]) -> (r: Result<Message, MessageError>)
        ensures
            match r {
                Ok(m) => {
                    &&& spec_parse_body(input@) == Some(m@)
                    &&& spec_body(m@) == input@
                    &&& body_fits(m@)
                },
                Err(e) => {
                    &&& e == MessageError::ProtocolError
                    &&& spec_parse_body(input@) is None
                    &&& forall|mv: MessageView| spec_body(mv) != input@
                },
            },
    {
        let n = input.len();
        let r = Self::parse_body(input);
        proof {
            if r is Ok {
                lemma_body_of_parsed(input@);
            } else {
                assert(input@.len() == n <= usize::MAX <= u64::MAX);
                assert forall|mv: MessageView| spec_body(mv) != input@ by {
                    if spec_body(mv) == input@ {
                        lemma_body_len_fits(mv);
                        lemma_parse_body_of_message(mv);
                    }
                }
            }
        }
        r
    }

    /// Parses body bytes, mirroring `spec_parse_body` step by step.
    fn parse_body(input: &[u8]) -> (r: Result<Message, MessageError>)
        ensures
            match r {
                Ok(m) => spec_parse_body(input@) == Some(m@),
                Err(e) => e == MessageError::ProtocolError && spec_parse_body(input@) is None,
            },
    {
        let len = input.len();
        proof {
            assert(input@.subrange(0, input@.len() as int) =~= input@);
        }
        let (nickname, pos) = match parse_str_field(input, 0) {
            Ok(p) => p,
            Err(e) => {
                return Err(e);
            },
        };
        let ghost rest = input@.subrange(pos as int, input@.len() as int);
        if len - pos < 4 {
            return Err(MessageError::ProtocolError);
        }
        let d = u32_from_le_bytes(slice_subrange(input, pos, pos + 4));
        proof {
            assert(input@.subrange(pos as int, pos + 4) =~= rest.subrange(0, 4));
        }
        let pos = pos + 4;
        let ghost pb = input@.subrange(pos as int, input@.len() as int);
        proof {
            assert(pb =~= rest.subrange(4, rest.len() as int));
        }
        if d == 0 {
            let (t, end) = match parse_str_field(input, pos) {
                Ok(p) => p,
                Err(e) => {
                    return Err(e);
                },
            };
            if end != len {
                return Err(MessageError::ProtocolError);
            }
            Ok(Message { nickname, message: MessageType::Text(t) })
        } else if d == 1 {
            let (data, end) = match parse_bytes_field(input, pos) {
                Ok(p) => p,
                Err(e) => {
                    return Err(e);
                },
            };
            if end != len {
                return Err(MessageError::ProtocolError);
            }
            Ok(Message { nickname, message: MessageType::Image(data) })
        } else if d == 2 {
            let (name, mid) = match parse_str_field(input, pos) {
                Ok(p) => p,
                Err(e) => {
                    return Err(e);
                },
            };
            proof {
                assert(input@.subrange(mid as int, input@.len() as int) =~= pb.subrange(
                    mid - pos,
                    pb.len() as int,
                ));
            }
            let (content, end) = match parse_bytes_field(input, mid) {
                Ok(p) => p,
                Err(e) => {
                    return Err(e);
                },
            };
            if end != len {
                return Err(MessageError::ProtocolError);
            }
            Ok(Message { nickname, message: MessageType::File { name, content } })
        } else {
            Err(MessageError::ProtocolError)
        }
    }
}

/// The 4 bytes of a u32 in big-endian order.
pub open spec fn spec_u32_to_be_bytes(x: u32) -> Seq<u8> {
    seq![
        ((x >> 24) & 0xff) as u8,
        ((x >> 16) & 0xff) as u8,
        ((x >> 8) & 0xff) as u8,
        (x & 0xff) as u8,
    ]
}

/// The u32 whose big-endian bytes are the given 4 bytes.
pub open spec fn spec_u32_from_be_bytes(s: Seq<u8>) -> u32
    recommends
        s.len() == 4,
{
    ((s[0] as u32) << 24) | ((s[1] as u32) << 16) | ((s[2] as u32) << 8) | (s[3] as u32)
}

/// Reading back the big-endian bytes of a u32 yields the same u32.
pub proof fn lemma_u32_be_bytes_round_trip(x: u32)
    ensures
        spec_u32_from_be_bytes(spec_u32_to_be_bytes(x)) == x,
{
    let b0 = ((x >> 24) & 0xff) as u8;
    let b1 = ((x >> 16) & 0xff) as u8;
    let b2 = ((x >> 8) & 0xff) as u8;
    let b3 = (x & 0xff) as u8;
    assert(((b0 as u32) << 24) | ((b1 as u32) << 16) | ((b2 as u32) << 8) | (b3 as u32) == x)
        by (bit_vector)
        requires
            b0 == ((x >> 24) & 0xff) as u8,
            b1 == ((x >> 16) & 0xff) as u8,
            b2 == ((x >> 8) & 0xff) as u8,
            b3 == (x & 0xff) as u8,
    ;
}

/// Writes a u32 as 4 big-endian bytes.
fn u32_to_be_bytes_vec(x: u32) -> (r: Vec<u8>)
    ensures
        r@ == spec_u32_to_be_bytes(x),
{
    let mut v: Vec<u8> = Vec::new();
    v.push(((x >> 24) & 0xff) as u8);
    v.push(((x >> 16) & 0xff) as u8);
    v.push(((x >> 8) & 0xff) as u8);
    v.push((x & 0xff) as u8);
    proof {
        assert(v@ =~= spec_u32_to_be_bytes(x));
    }
    v
}

/// Reads a u32 from 4 big-endian bytes.
fn u32_from_be_bytes_slice(s: &[u8]) -> (x: u32)
    requires
        s@.len() == 4,
    ensures
        x == spec_u32_from_be_bytes(s@),
{
    let b0 = s[0];
    let b1 = s[1];
    let b2 = s[2];
    let b3 = s[3];
    ((b0 as u32) << 24) | ((b1 as u32) << 16) | ((b2 as u32) << 8) | (b3 as u32)
}

/// The full frame of a message: 4-byte big-endian body length, then the body.
pub open spec fn spec_frame(m: MessageView) -> Seq<u8> {
    spec_u32_to_be_bytes(spec_body(m).len() as u32) + spec_body(m)
}

/// The body length announced by a frame's first 4 bytes.
pub open spec fn spec_frame_len(b: Seq<u8>) -> int
    recommends
        b.len() >= 4,
{
    spec_u32_from_be_bytes(b.subrange(0, 4)) as int
}

/// What stepping the decoder over buffered input yields.
pub enum DecodeResult {
    /// The buffer does not yet hold a whole frame and the stream is open.
    NeedMore,
    /// One whole frame decoded; `consumed` bytes of the buffer are spent.
    Frame { message: Message, consumed: usize },
    /// The connection is over: cleanly, or by a transport or protocol fault.
    Failed(MessageError),
}

impl Message {
    /// Encodes the message as one frame: the serialized body prepended
    /// with its length as 4 big-endian bytes. Fails exactly when the body
    /// is too long for the 4-byte length field.
    pub fn encode(&self) -> (r: Result<Vec<u8>, MessageError>)
        ensures
            match r {
                Ok(f) => spec_body(self@).len() <= u32::MAX && f@ == spec_frame(self@),
                Err(e) => e == MessageError::ProtocolError && spec_body(self@).len() > u32::MAX,
            },
    {
        let mut body = match self.serialized_message() {
            Ok(b) => b,
            Err(e) => {
                return Err(e);
            },
        };
        let blen = body.len();
        if blen > (u32::MAX as usize) {
            return Err(MessageError::ProtocolError);
        }
        let mut out = u32_to_be_bytes_vec(blen as u32);
        out.append(&mut body);
        proof {
            assert(out@ =~= spec_frame(self@));
        }
        Ok(out)
    }
}

/// Steps the decoder over the bytes received so far. `closed` says whether
/// the peer has closed its half of the stream after those bytes.
///
/// The three failure modes of the protocol fall out of the contract:
/// fewer than 4 buffered bytes at close is a graceful disconnect, a
/// complete length field with an incomplete body at close is a transport
/// fault, and a complete frame whose body does not deserialize is a
/// protocol fault.
pub fn decode(buf: &[u8], closed: bool) -> (r: DecodeResult)
    ensures
        buf@.len() < 4 ==> r == (if closed {
            DecodeResult::Failed(MessageError::GracefulDisconnect)
        } else {
            DecodeResult::NeedMore
        }),
        buf@.len() >= 4 && buf@.len() < 4 + spec_frame_len(buf@) ==> r == (if closed {
            DecodeResult::Failed(MessageError::TransportError)
        } else {
            DecodeResult::NeedMore
        }),
        buf@.len() >= 4 && buf@.len() >= 4 + spec_frame_len(buf@) ==> (match spec_parse_body(
            buf@.subrange(4, 4 + spec_frame_len(buf@)),
        ) {
            Some(mv) => r matches DecodeResult::Frame { message, consumed } && message@ == mv
                && consumed == 4 + spec_frame_len(buf@),
            None => r == DecodeResult::Failed(MessageError::ProtocolError),
        }),
{
    let len = buf.len();
    if len < 4 {
        if closed {
            return DecodeResult::Failed(MessageError::GracefulDisconnect);
        } else {
            return DecodeResult::NeedMore;
        }
    }
    let header = slice_subrange(buf, 0, 4);
    let n = u32_from_be_bytes_slice(header);
    proof {
        assert(header@ =~= buf@.subrange(0, 4));
        assert(usize::MAX <= u64::MAX);
    }
    let rem = (len - 4) as u64;
    if (n as u64) > rem {
        if closed {
            return DecodeResult::Failed(MessageError::TransportError);
        } else {
            return DecodeResult::NeedMore;
        }
    }
    let nn = n as usize;
    let body = slice_subrange(buf, 4, 4 + nn);
    match Message::deserialized_message(body) {
        Ok(m) => DecodeResult::Frame { message: m, consumed: 4 + nn },
        Err(_) => DecodeResult::Failed(MessageError::ProtocolError),
    }
}

/// Round trip over the wire: the frame built from a message announces
/// exactly its body, and that body parses back to the same message.
pub proof fn lemma_frame_round_trip(m: MessageView)
    requires
        body_fits(m),
        spec_body(m).len() <= u32::MAX,
    ensures
        spec_frame(m).len() == 4 + spec_body(m).len(),
        spec_frame_len(spec_frame(m)) == spec_body(m).len(),
        spec_parse_body(spec_frame(m).subrange(4, 4 + spec_frame_len(spec_frame(m)))) == Some(m),
{
    lemma_u32_be_bytes_round_trip(spec_body(m).len() as u32);
    assert(spec_frame(m).subrange(0, 4) =~= spec_u32_to_be_bytes(spec_body(m).len() as u32));
    assert(spec_frame(m).subrange(4, 4 + spec_body(m).len() as int) =~= spec_body(m));
    lemma_parse_body_of_message(m);
}

/// A body that exists as finite bytes has every length field representable.
proof fn lemma_body_len_fits(mv: MessageView)
    requires
        spec_body(mv).len() <= u64::MAX,
    ensures
        body_fits(mv),
{
    lemma_auto_spec_u64_to_from_le_bytes();
    lemma_auto_spec_u32_to_from_le_bytes();
    assert(spec_u64_to_le_bytes(0u64).len() == 8);
    assert(spec_u32_to_le_bytes(0u32).len() == 4);
}

} // verus!
