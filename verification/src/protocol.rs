//! Text, binary data and topics in the form that the MQTT protocol can carry.
use rust_mqtt::types::{MqttBinary, MqttString, MqttStringError, TopicName};
use vstd::prelude::*;
use vstd::string::StringSliceAdditionalSpecFns;
use vstd::utf8::*;

verus! {

/// The longest text or binary field, in bytes, that a two byte length can announce.
pub const MAX_FIELD_LENGTH: usize = 65535;

/// Why a piece of text is no MQTT string.
#[derive(Clone, Copy, Debug, PartialEq, Eq, Structural)]
pub enum TextError {
    /// It holds a null character.
    NullCharacter,
    /// It is longer than a two byte length can announce.
    TooLarge,
    /// It is not valid UTF-8.
    Encoding,
}

/// Why a piece of text is no topic name.
#[derive(Clone, Copy, Debug, PartialEq, Eq, Structural)]
pub enum TopicError {
    /// It is no MQTT string.
    Text(TextError),
    /// It is empty or holds a wildcard.
    Syntax,
}

/// What becomes of a piece of text, given by its bytes, as an MQTT string.
pub open spec fn text_verdict(bytes: Seq<u8>) -> Result<(), TextError> {
    if bytes.contains(0u8) {
        Err(TextError::NullCharacter)
    } else if bytes.len() > MAX_FIELD_LENGTH {
        Err(TextError::TooLarge)
    } else {
        Ok(())
    }
}

/// Whether the bytes of an MQTT string name a topic: there is at least one, and none is a
/// wildcard (`+` or `#`).
pub open spec fn names_topic(bytes: Seq<u8>) -> bool {
    &&& bytes.len() > 0
    &&& !bytes.contains(0x2bu8)
    &&& !bytes.contains(0x23u8)
}

/// What becomes of a piece of text, given by its bytes, as a topic name.
pub open spec fn topic_verdict(bytes: Seq<u8>) -> Result<(), TopicError> {
    match text_verdict(bytes) {
        Err(e) => Err(TopicError::Text(e)),
        Ok(()) => if names_topic(bytes) {
            Ok(())
        } else {
            Err(TopicError::Syntax)
        },
    }
}

/// `rust_mqtt::types::MqttString::try_from(&str)`, and the text that its result holds.
///
/// Claimed: text with a null byte is refused first, then text of more than 65535 bytes; any
/// other is accepted and held unchanged.
#[verifier::external_body]
pub(crate) fn mqtt_string(text: &str) -> (r: Result<String, TextError>)
    ensures
        match r {
            Ok(held) => text_verdict(text.spec_bytes()) == Ok::<(), TextError>(()) && held@
                == text@,
            Err(e) => text_verdict(text.spec_bytes()) == Err::<(), TextError>(e),
        },
{
    match MqttString::try_from(text) {
        Ok(held) => Ok(held.as_str().to_owned()),
        Err(MqttStringError::NullCharacter) => Err(TextError::NullCharacter),
        Err(MqttStringError::TooLargeToEncode) => Err(TextError::TooLarge),
        Err(MqttStringError::Utf8Error(_)) => Err(TextError::Encoding),
    }
}

/// `rust_mqtt::types::MqttBinary::try_from(&[u8])`, and the bytes that its result holds.
///
/// Claimed: data of more than 65535 bytes is refused; any other is accepted and held unchanged.
#[verifier::external_body]
pub(crate) fn mqtt_binary(data: &[u8]) -> (r: Option<Vec<u8>>)
    ensures
        match r {
            Some(held) => data@.len() <= MAX_FIELD_LENGTH && held@ == data@,
            None => data@.len() > MAX_FIELD_LENGTH,
        },
{
    MqttBinary::try_from(data).ok().map(|held| held.as_bytes().to_vec())
}

/// `rust_mqtt::types::TopicName::new`, on text that is an MQTT string, and the name that its
/// result holds.
///
/// Claimed: the empty string and one with `+` or `#` are refused; any other is accepted and
/// held unchanged.
#[verifier::external_body]
fn topic_name(text: &str) -> (r: Option<String>)
    requires
        text_verdict(text.spec_bytes()) is Ok,
    ensures
        match r {
            Some(held) => names_topic(text.spec_bytes()) && held@ == text@,
            None => !names_topic(text.spec_bytes()),
        },
{
    let string = MqttString::try_from(text).unwrap();
    TopicName::new(string).map(|held| held.as_ref().as_str().to_owned())
}

/// ASCII text without null characters that fits is an MQTT string, and a topic name too if it
/// is not empty and holds no wildcard.
pub proof fn ascii_text_is_accepted(s: Seq<char>)
    requires
        s.len() <= MAX_FIELD_LENGTH,
        forall|i: int| 0 <= i < s.len() ==> '\0' < #[trigger] s[i] <= '\u{7f}',
    ensures
        text_verdict(encode_utf8(s)) is Ok,
        s.len() > 0 && !s.contains('+') && !s.contains('#') ==> topic_verdict(
            encode_utf8(s),
        ) is Ok,
{
    let bytes = encode_utf8(s);
    assert(is_ascii_chars(s));
    is_ascii_chars_encode_utf8(s);
    assert forall|i: int| 0 <= i < bytes.len() implies bytes[i] as int == s[i] as int by {
        assert(s[i] as u8 == bytes[i]);
    }
    assert forall|b: u8| bytes.contains(b) implies s.contains(b as char) by {
        let i = choose|i: int| 0 <= i < bytes.len() && bytes[i] == b;
        assert(s[i] == b as char);
    }
    assert(!bytes.contains(0u8)) by {
        if bytes.contains(0u8) {
            let i = choose|i: int| 0 <= i < bytes.len() && bytes[i] == 0u8;
            assert('\0' < s[i]);
        }
    }
}

/// A topic that messages can be published on.
#[derive(Debug, PartialEq, Eq)]
pub struct Topic {
    name: String,
}

impl View for Topic {
    type V = Seq<char>;

    closed spec fn view(&self) -> Seq<char> {
        self.name@
    }
}

impl Topic {
    /// Takes `name` as a topic, unless MQTT does not allow it.
    pub fn new(name: &str) -> (r: Result<Topic, TopicError>)
        ensures
            match r {
                Ok(topic) => topic_verdict(name.spec_bytes()) == Ok::<(), TopicError>(())
                    && topic@ == name@,
                Err(e) => topic_verdict(name.spec_bytes()) == Err::<(), TopicError>(e),
            },
            r is Ok <==> 0 < name.spec_bytes().len() <= 65535 && !name.spec_bytes().contains(0u8)
                && !name.spec_bytes().contains(0x2bu8) && !name.spec_bytes().contains(0x23u8),
            r == Err::<Topic, TopicError>(TopicError::Text(TextError::NullCharacter)) <==>
                name.spec_bytes().contains(0u8),
            r == Err::<Topic, TopicError>(TopicError::Text(TextError::TooLarge)) <==>
                !name.spec_bytes().contains(0u8) && name.spec_bytes().len() > 65535,
    {
        let text = match mqtt_string(name) {
            Ok(text) => text,
            Err(e) => return Err(TopicError::Text(e)),
        };
        match topic_name(text.as_str()) {
            Some(name) => Ok(Topic { name }),
            None => Err(TopicError::Syntax),
        }
    }

    /// The name of the topic.
    pub fn name(&self) -> (r: &str)
        ensures
            r@ == self@,
    {
        self.name.as_str()
    }
}

} // verus!
