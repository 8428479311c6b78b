//! How the device introduces itself to the broker.
use crate::protocol;
use crate::protocol::TextError;
use crate::text;
use vstd::prelude::*;
use vstd::string::StringSliceAdditionalSpecFns;
use vstd::utf8::*;

verus! {

/// The keep alive that is offered to the broker. It drops a client that stays silent for one
/// and a half times as long.
pub const MQTT_KEEPALIVE_SECS: u16 = 60;

/// The client id under which the device connects.
#[derive(Clone, Copy, Debug, PartialEq, Eq)]
pub enum ClientIdentity {
    /// The id `zappy`. The broker lets one connection hold it at a time: a new one takes over
    /// and ends the session before.
    Shared,
    /// An id of this device alone, made of the last three bytes of its MAC address, for brokers
    /// that several devices connect to.
    PerDevice([u8; 6]),
}

/// The client id as text.
pub open spec fn client_id_text(identity: ClientIdentity) -> Seq<char> {
    match identity {
        ClientIdentity::Shared => "zappy"@,
        ClientIdentity::PerDevice(mac) => "zappy-"@ + text::hex_byte(mac@[3]) + text::hex_byte(
            mac@[4],
        ) + text::hex_byte(mac@[5]),
    }
}

/// Writes the client id.
pub fn client_id(identity: &ClientIdentity) -> (r: String)
    ensures
        r@ == client_id_text(*identity),
{
    match identity {
        ClientIdentity::Shared => "zappy".to_owned(),
        ClientIdentity::PerDevice(mac) => {
            let mut id = "zappy-".to_owned();
            text::append_hex_byte(&mut id, mac[3]);
            text::append_hex_byte(&mut id, mac[4]);
            text::append_hex_byte(&mut id, mac[5]);
            id
        },
    }
}

/// The identity under which the firmware connects: the client id is `zappy`.
pub fn firmware_identity() -> (r: ClientIdentity)
    ensures
        r is Shared,
        client_id_text(r) == "zappy"@,
{
    ClientIdentity::Shared
}

/// Every client id is text that MQTT can carry.
pub proof fn client_id_is_accepted(identity: ClientIdentity)
    ensures
        protocol::text_verdict(encode_utf8(client_id_text(identity))) is Ok,
{
    reveal_strlit("zappy");
    reveal_strlit("zappy-");
    protocol::ascii_text_is_accepted(client_id_text(identity));
}

/// Devices whose MAC addresses end differently have different client ids.
pub proof fn client_id_tells_devices_apart(a: [u8; 6], b: [u8; 6])
    requires
        client_id_text(ClientIdentity::PerDevice(a)) == client_id_text(
            ClientIdentity::PerDevice(b),
        ),
    ensures
        a@[3] == b@[3],
        a@[4] == b@[4],
        a@[5] == b@[5],
{
    let x = client_id_text(ClientIdentity::PerDevice(a));
    let y = client_id_text(ClientIdentity::PerDevice(b));
    let n = "zappy-"@.len() as int;
    assert(x.subrange(n, n + 2) =~= text::hex_byte(a@[3]));
    assert(y.subrange(n, n + 2) =~= text::hex_byte(b@[3]));
    assert(x.subrange(n + 2, n + 4) =~= text::hex_byte(a@[4]));
    assert(y.subrange(n + 2, n + 4) =~= text::hex_byte(b@[4]));
    assert(x.subrange(n + 4, n + 6) =~= text::hex_byte(a@[5]));
    assert(y.subrange(n + 4, n + 6) =~= text::hex_byte(b@[5]));
    text::hex_byte_injective(a@[3], b@[3]);
    text::hex_byte_injective(a@[4], b@[4]);
    text::hex_byte_injective(a@[5], b@[5]);
}

/// The id of a device can be read: after `zappy-` come the last three bytes of the MAC address in
/// lower case hexadecimal, two digits each.
pub proof fn client_id_reads_back(mac: [u8; 6])
    ensures
        ({
            let id = client_id_text(ClientIdentity::PerDevice(mac));
            &&& id.len() == 12
            &&& id.take(6) == "zappy-"@
            &&& forall|i: int|
                0 <= i < 6 ==> text::hex_digit_value(#[trigger] id[6 + i]) is Some
            &&& forall|i: int|
                0 <= i < 3 ==> 16 * text::hex_digit_value(id[6 + 2 * i])->Some_0
                    + text::hex_digit_value(id[7 + 2 * i])->Some_0 == #[trigger] mac@[3 + i]
        }),
{
    reveal_strlit("zappy-");
    let id = client_id_text(ClientIdentity::PerDevice(mac));
    text::hex_byte_reads_back(mac@[3]);
    text::hex_byte_reads_back(mac@[4]);
    text::hex_byte_reads_back(mac@[5]);
    assert(id.take(6) =~= "zappy-"@);
    assert(id[6] == text::hex_byte(mac@[3])[0]);
    assert(id[7] == text::hex_byte(mac@[3])[1]);
    assert(id[8] == text::hex_byte(mac@[4])[0]);
    assert(id[9] == text::hex_byte(mac@[4])[1]);
    assert(id[10] == text::hex_byte(mac@[5])[0]);
    assert(id[11] == text::hex_byte(mac@[5])[1]);
    assert forall|i: int| 0 <= i < 6 implies text::hex_digit_value(#[trigger] id[6 + i]) is Some by {
        assert(i == 0 || i == 1 || i == 2 || i == 3 || i == 4 || i == 5);
    }
    assert forall|i: int| 0 <= i < 3 implies 16 * text::hex_digit_value(id[6 + 2 * i])->Some_0
        + text::hex_digit_value(id[7 + 2 * i])->Some_0 == #[trigger] mac@[3 + i] by {
        assert(i == 0 || i == 1 || i == 2);
    }
}

/// No device id is the shared one.
pub proof fn client_id_of_a_device_is_not_shared(mac: [u8; 6])
    ensures
        client_id_text(ClientIdentity::PerDevice(mac)) != client_id_text(ClientIdentity::Shared),
{
    reveal_strlit("zappy");
    reveal_strlit("zappy-");
    assert(client_id_text(ClientIdentity::PerDevice(mac)).len() == 12);
}

/// What the device asks of the broker when it connects.
#[derive(Debug, PartialEq, Eq)]
pub struct ConnectRequest {
    /// The client id.
    pub client_id: String,
    /// The user name.
    pub user_name: String,
    /// The password, as bytes.
    pub password: Vec<u8>,
    /// The keep alive in seconds.
    pub keep_alive_secs: u16,
    /// Whether an earlier session of this client is dropped.
    pub clean_start: bool,
}

/// Why no connect request can be made.
#[derive(Clone, Copy, Debug, PartialEq, Eq, Structural)]
pub enum RequestError {
    /// The user name is no MQTT string.
    UserName(TextError),
    /// The token is too long for a password.
    Password,
}

/// Whether a connect request can be made of a user name and a token, given by their bytes, and
/// what stands against it. The user name is looked at first.
pub open spec fn request_verdict(user: Seq<u8>, token: Seq<u8>) -> Result<(), RequestError> {
    match protocol::text_verdict(user) {
        Err(e) => Err(RequestError::UserName(e)),
        Ok(()) => if token.len() > protocol::MAX_FIELD_LENGTH {
            Err(RequestError::Password)
        } else {
            Ok(())
        },
    }
}

/// Makes the connect request for a user and an access token.
pub fn connect_request(identity: &ClientIdentity, user: &str, token: &str) -> (r: Result<
    ConnectRequest,
    RequestError,
>)
    ensures
        match r {
            Ok(request) => {
                &&& request_verdict(user.spec_bytes(), token.spec_bytes()) == Ok::<
                    (),
                    RequestError,
                >(())
                &&& request.client_id@ == client_id_text(*identity)
                &&& request.user_name@ == user@
                &&& request.password@ == token.spec_bytes()
                &&& request.keep_alive_secs == MQTT_KEEPALIVE_SECS
                &&& request.clean_start
            },
            Err(e) => request_verdict(user.spec_bytes(), token.spec_bytes()) == Err::<
                (),
                RequestError,
            >(e),
        },
        r is Ok <==> !user.spec_bytes().contains(0u8) && user.spec_bytes().len() <= 65535
            && token.spec_bytes().len() <= 65535,
        r is Ok && identity is Shared ==> r->Ok_0.client_id@ == "zappy"@,
        r is Ok ==> r->Ok_0.keep_alive_secs == 60,
        user.spec_bytes().contains(0u8) ==> r == Err::<ConnectRequest, RequestError>(
            RequestError::UserName(TextError::NullCharacter),
        ),
        !user.spec_bytes().contains(0u8) && user.spec_bytes().len() > 65535 ==> r == Err::<
            ConnectRequest,
            RequestError,
        >(RequestError::UserName(TextError::TooLarge)),
{
    let user_name = match protocol::mqtt_string(user) {
        Ok(user_name) => user_name,
        Err(e) => return Err(RequestError::UserName(e)),
    };
    let password = match protocol::mqtt_binary(token.as_bytes()) {
        Some(password) => password,
        None => return Err(RequestError::Password),
    };
    let id = client_id(identity);
    proof {
        client_id_is_accepted(*identity);
    }
    let client_id = protocol::mqtt_string(id.as_str()).unwrap();
    Ok(
        ConnectRequest {
            client_id,
            user_name,
            password,
            keep_alive_secs: MQTT_KEEPALIVE_SECS,
            clean_start: true,
        },
    )
}

} // verus!
