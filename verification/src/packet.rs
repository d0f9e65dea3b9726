//! The wire-level packet codec.
//!
//! A frame is ASCII text of the shape `<event-name>:<base64(payload)>`.
//! Decoding splits on the single `:` separator, base64-decodes the second
//! segment into a UTF-8 payload, and dispatches on the event name; the only
//! event name known today is `nickname`. Encoding is the exact inverse, so
//! decoding an encoded packet always yields the packet back.

use vstd::prelude::*;

verus! {

#[derive(Debug, Clone)]
pub enum Event {
    Nickname(String),
}

/// The mathematical value of an [`Event`]: the payload as a character
/// sequence, under the event's name.
pub enum EventV {
    Nickname(Seq<char>),
}

/// Simple text based packet coder.
#[derive(Debug)]
pub struct Packet {
    pub event: Event,
}

/// Why a frame was refused; the connection stays open and later frames are
/// decoded independently.
#[derive(Debug, Copy, Clone, PartialEq, Eq, Structural)]
pub enum CodecError {
    /// The transport frame carries no text.
    InvalidMessage,
    /// The text does not have exactly one `:` separator.
    MalformedPacket,
    /// The second segment is not base64 of UTF-8 text.
    MalformedPayload,
    /// The event name is not a known event.
    UnknownEvent,
}

impl View for Event {
    type V = EventV;

    open spec fn view(&self) -> EventV {
        match self {
            Event::Nickname(n) => EventV::Nickname(n@),
        }
    }
}

impl View for Packet {
    type V = EventV;

    open spec fn view(&self) -> EventV {
        self.event@
    }
}

impl PartialEq for Event {
    fn eq(&self, other: &Event) -> bool {
        match (self, other) {
            (Event::Nickname(a), Event::Nickname(b)) => *a == *b,
        }
    }
}

impl vstd::std_specs::cmp::PartialEqSpecImpl for Event {
    open spec fn obeys_eq_spec() -> bool {
        true
    }

    open spec fn eq_spec(&self, other: &Event) -> bool {
        self@ == other@
    }
}

impl CodecError {
    /// The human-readable description of the refusal.
    pub fn message(&self) -> (r: &'static str)
        ensures
            r@ == match *self {
                CodecError::InvalidMessage => "invalid message"@,
                CodecError::MalformedPacket => "invalid packet parts"@,
                CodecError::MalformedPayload => "failed to decode payload"@,
                CodecError::UnknownEvent => "unknown event type"@,
            },
    {
        match *self {
            CodecError::InvalidMessage => "invalid message",
            CodecError::MalformedPacket => "invalid packet parts",
            CodecError::MalformedPayload => "failed to decode payload",
            CodecError::UnknownEvent => "unknown event type",
        }
    }
}

/// The base64 text that encoding a payload's UTF-8 bytes produces; a
/// function of the payload alone, pinned down only through the trusted
/// contracts of [`encode_payload`] and [`decode_payload`].
pub uninterp spec fn b64_of_utf8(payload: Seq<char>) -> Seq<char>;

/// Relies on base64::encode: with the standard alphabet (letters, digits,
/// `+`, `/`, padding `=`) the result is a function of the input bytes alone
/// and never contains `:`.
#[verifier::external_body]
fn encode_payload(payload: &str) -> (r: String)
    ensures
        r@ == b64_of_utf8(payload@),
        forall|i: int| 0 <= i < r@.len() ==> r@[i] != ':',
{
    base64::encode(payload)
}

/// The payload that base64-decoding a segment and reading the decoded
/// bytes as UTF-8 yields, if both steps succeed; a function of the segment
/// alone, pinned down only through the trusted contract of
/// [`decode_payload`].
pub uninterp spec fn utf8_payload_of_b64(seg: Seq<char>) -> Option<Seq<char>>;

/// Relies on base64::decode and String::from_utf8: their composition is a
/// function of the segment alone, named `utf8_payload_of_b64`, and it
/// inverts base64::encode on the UTF-8 bytes of a string, so any segment
/// that reads `b64_of_utf8(p)` decodes to the payload `p`.
#[verifier::external_body]
fn decode_payload(seg: &str) -> (r: Option<String>)
    ensures
        match r {
            Some(out) => utf8_payload_of_b64(seg@) == Some(out@) && forall|p: Seq<char>|
                seg@ == b64_of_utf8(p) ==> out@ == p,
            None => utf8_payload_of_b64(seg@) is None && forall|p: Seq<char>|
                seg@ != b64_of_utf8(p),
        },
{
    match base64::decode(seg) {
        Ok(bytes) => String::from_utf8(bytes).ok(),
        Err(_) => None,
    }
}

/// Relies on tungstenite::Message, the transport's frame type; its
/// contents stay opaque here.
#[verifier::external_type_specification]
#[verifier::external_body]
pub struct ExMessage(tungstenite::Message);

/// Relies on tungstenite::Message::to_text: the text a frame carries (a
/// text frame's string, another frame's payload read as UTF-8), and an
/// error when that payload is not valid UTF-8. Nothing is assumed of the
/// result.
#[verifier::external_body]
fn message_text(message: &tungstenite::Message) -> (r: Option<&str>) {
    message.to_text().ok()
}

/// Relies on tungstenite::Message::text: wraps text in a transport frame.
/// Nothing is assumed of the result.
#[verifier::external_body]
fn text_message(raw: String) -> (r: tungstenite::Message) {
    tungstenite::Message::text(raw)
}

/// The payload carried by an event.
pub open spec fn payload_of(e: EventV) -> Seq<char> {
    match e {
        EventV::Nickname(n) => n,
    }
}

/// The frame that encodes an event.
pub open spec fn frame_of(e: EventV) -> Seq<char> {
    "nickname"@ + seq![':'] + b64_of_utf8(payload_of(e))
}

/// `s` holds a `:` at position `k` and nowhere else.
pub open spec fn single_colon_at(s: Seq<char>, k: int) -> bool {
    &&& 0 <= k < s.len()
    &&& s[k] == ':'
    &&& forall|i: int| 0 <= i < s.len() && i != k ==> s[i] != ':'
}

/// What encoding promises: the frame is `frame_of` of the event, its only
/// `:` stands between the event name and the base64 payload segment.
pub open spec fn encode_post(e: EventV, s: Seq<char>) -> bool {
    &&& s == frame_of(e)
    &&& exists|k: int|
        single_colon_at(s, k) && s.subrange(0, k) == "nickname"@ && s.subrange(
            k + 1,
            s.len() as int,
        ) == b64_of_utf8(payload_of(e))
}

/// `r` is a decoded packet that carries the payload `p` under the
/// `nickname` event.
pub open spec fn decodes_to(r: Result<Packet, CodecError>, p: Seq<char>) -> bool {
    r matches Ok(pk) && pk@ == EventV::Nickname(p)
}

/// What decoding yields for a frame `s` with its single `:` at `k`: a
/// segment that is not base64 of UTF-8 text (per `utf8_payload_of_b64`) is
/// refused as a malformed payload; a segment that decodes is accepted with
/// exactly the decoded payload under the `nickname` name, and refused as an
/// unknown event under any other name.
pub open spec fn decode_resolves(s: Seq<char>, k: int, r: Result<Packet, CodecError>) -> bool {
    match utf8_payload_of_b64(s.subrange(k + 1, s.len() as int)) {
        Some(p) => if s.subrange(0, k) == "nickname"@ {
            decodes_to(r, p)
        } else {
            r == Err::<Packet, CodecError>(CodecError::UnknownEvent)
        },
        None => r == Err::<Packet, CodecError>(CodecError::MalformedPayload),
    }
}

/// What decoding promises for a text `s` yielding `r`: a frame without
/// exactly one `:` is refused as malformed, and otherwise the name and the
/// payload segment decide the outcome as [`decode_resolves`] says. The last
/// quantifier restates acceptance over the encoder's named result, so the
/// round trip holds of any encoded frame.
pub open spec fn decode_post(s: Seq<char>, r: Result<Packet, CodecError>) -> bool {
    &&& r == Err::<Packet, CodecError>(CodecError::MalformedPacket) <==> !(exists|k: int|
        single_colon_at(s, k))
    &&& forall|k: int| #[trigger] single_colon_at(s, k) ==> decode_resolves(s, k, r)
    &&& forall|k: int, p: Seq<char>|
        single_colon_at(s, k) && s.subrange(0, k) == "nickname"@ && s.subrange(
            k + 1,
            s.len() as int,
        ) == b64_of_utf8(p) ==> decodes_to(r, p)
    &&& forall|k: int, p: Seq<char>|
        single_colon_at(s, k) && s.subrange(0, k) != "nickname"@ && s.subrange(
            k + 1,
            s.len() as int,
        ) == b64_of_utf8(p) ==> r == Err::<Packet, CodecError>(CodecError::UnknownEvent)
    &&& r != Err::<Packet, CodecError>(CodecError::InvalidMessage)
}

/// Round trip: decoding any frame that encodes an event yields that event.
pub proof fn lemma_codec_round_trip(e: EventV, frame: Seq<char>, r: Result<Packet, CodecError>)
    requires
        encode_post(e, frame),
        decode_post(frame, r),
    ensures
        r matches Ok(pk) && pk@ == e,
{
    let k = choose|k: int|
        single_colon_at(frame, k) && frame.subrange(0, k) == "nickname"@ && frame.subrange(
            k + 1,
            frame.len() as int,
        ) == b64_of_utf8(payload_of(e));
    assert(decodes_to(r, payload_of(e)));
}

impl Packet {
    /// Decode the text of a transport frame; a frame without text is
    /// refused as invalid, any text is decoded as [`Packet::decode_raw`]
    /// does.
    pub fn decode_message(message: &tungstenite::Message) -> (r: Result<Packet, CodecError>)
        ensures
            r == Err::<Packet, CodecError>(CodecError::InvalidMessage) || exists|s: Seq<char>|
                decode_post(s, r),
    {
        match message_text(message) {
            Some(raw) => {
                let r = Self::decode_raw(raw);
                proof {
                    assert(decode_post(raw@, r));
                }
                r
            },
            None => Err(CodecError::InvalidMessage),
        }
    }

    /// Decode one text frame into a packet.
    pub fn decode_raw(raw: &str) -> (r: Result<Packet, CodecError>)
        ensures
            decode_post(raw@, r),
    {
        let n = raw.unicode_len();
        let mut i: usize = 0;
        let mut colons: usize = 0;
        let mut first: usize = 0;
        let mut second: usize = 0;
        while i < n
            invariant
                n == raw@.len(),
                i <= n,
                colons <= i,
                colons == 0 ==> forall|j: int| 0 <= j < i ==> raw@[j] != ':',
                colons == 1 ==> first < i && raw@[first as int] == ':' && forall|j: int|
                    0 <= j < i && j != first ==> raw@[j] != ':',
                colons >= 2 ==> first < second < i && raw@[first as int] == ':'
                    && raw@[second as int] == ':',
            decreases n - i,
        {
            if raw.get_char(i) == ':' {
                if colons == 0 {
                    first = i;
                } else if colons == 1 {
                    second = i;
                }
                colons = colons + 1;
            }
            i = i + 1;
        }
        if colons != 1 {
            proof {
                assert forall|k: int| !single_colon_at(raw@, k) by {
                    if single_colon_at(raw@, k) {
                        if colons == 0 {
                        } else {
                            assert(raw@[first as int] == ':' && raw@[second as int] == ':');
                        }
                    }
                }
            }
            return Err(CodecError::MalformedPacket);
        }
        assert(single_colon_at(raw@, first as int));
        let event_name = raw.substring_char(0, first);
        let payload_seg = raw.substring_char(first + 1, n);
        let payload = match decode_payload(payload_seg) {
            Some(p) => p,
            None => {
                return Err(CodecError::MalformedPayload);
            },
        };
        let name_owned = event_name.to_owned();
        if name_owned == String::from_str("nickname") {
            Ok(Packet { event: Event::Nickname(payload) })
        } else {
            Err(CodecError::UnknownEvent)
        }
    }

    /// Encode the packet's event as a text frame.
    pub fn encode_raw(&self) -> (r: String)
        ensures
            encode_post(self.event@, r@),
            r@ == frame_of(self.event@),
    {
        match &self.event {
            Event::Nickname(nickname) => {
                proof {
                    reveal_strlit("nickname");
                }
                let r = Self::encode_data("nickname", nickname.as_str());
                proof {
                    assert(r@.subrange(0, 8) =~= "nickname"@);
                    assert(r@.subrange(9, r@.len() as int) =~= b64_of_utf8(nickname@));
                    assert(single_colon_at(r@, 8) && r@.subrange(0, 8) == "nickname"@
                        && r@.subrange(9, r@.len() as int) == b64_of_utf8(payload_of(self.event@)));
                }
                r
            },
        }
    }

    /// Wrap the encoded frame in a transport text frame.
    pub fn encode_message(&self) -> tungstenite::Message {
        text_message(self.encode_raw())
    }

    /// The codec round trip, executable: encode this packet, decode the
    /// frame, and return the decoded packet, which carries the same event.
    pub fn encode_then_decode(&self) -> (r: Result<Packet, CodecError>)
        ensures
            r matches Ok(pk) && pk@ == self@,
    {
        let frame = self.encode_raw();
        let r = Self::decode_raw(frame.as_str());
        proof {
            lemma_codec_round_trip(self.event@, frame@, r);
        }
        r
    }

    /// Join an event name free of `:` with the base64 encoding of the
    /// payload.
    fn encode_data(event: &str, payload: &str) -> (r: String)
        requires
            forall|i: int| 0 <= i < event@.len() ==> event@[i] != ':',
        ensures
            r@ == event@ + seq![':'] + b64_of_utf8(payload@),
            single_colon_at(r@, event@.len() as int),
    {
        let encoded = encode_payload(payload);
        let mut out = event.to_owned();
        out.append(":");
        out.append(encoded.as_str());
        proof {
            reveal_strlit(":");
            assert(out@ =~= event@ + seq![':'] + b64_of_utf8(payload@));
        }
        out
    }
}

} // verus!
