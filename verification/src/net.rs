//! The wire protocol: the two message envelopes, their byte encoding, and the
//! encrypted frame that carries one message over a connection.
//!
//! A message is encoded as a one-byte tag followed by its payload. A byte or
//! text payload is written as its length, eight bytes little-endian, followed
//! by the payload itself; text travels as UTF-8. A frame is the whole encoded
//! message encrypted as one block under the shared secret.
use vstd::bytes::*;
use vstd::prelude::*;
use vstd::slice::*;
use vstd::string::*;
use vstd::utf8::*;

verus! {

/// A one-time credential, as the bytes that travel on the wire.
pub type Token = Vec<u8>;

/// What an authorised caller may ask the service to do.
#[derive(Debug, Clone, PartialEq, Eq)]
pub enum ActionRequest {
    Launch,
    Stop,
    Restart,
    Backup,
    Command(String),
    Download,
}

/// Sent from client to server.
#[derive(Debug, Clone, PartialEq, Eq)]
pub enum Request {
    Ping,
    Auth,
    Action(Token, ActionRequest),
}

/// Sent from server to client.
#[derive(Debug, Clone, PartialEq, Eq)]
pub enum Responce {
    Ping,
    AuthToken(Vec<u8>),
    Error(String),
    Success,
}

/// Why a message could not be read from, or written to, a frame.
#[derive(Debug, Clone, Copy, PartialEq, Eq, Structural)]
pub enum NetError {
    /// The frame is not a ciphertext made under this secret.
    Decrypt,
    /// The decrypted bytes are not the encoding of any message.
    Malformed,
}

/// The mathematical value of an [`ActionRequest`].
pub enum ActionModel {
    Launch,
    Stop,
    Restart,
    Backup,
    Command(Seq<char>),
    Download,
}

/// The mathematical value of a [`Request`].
pub enum RequestModel {
    Ping,
    Auth,
    Action(Seq<u8>, ActionModel),
}

/// The mathematical value of a [`Responce`].
pub enum ResponceModel {
    Ping,
    AuthToken(Seq<u8>),
    Error(Seq<char>),
    Success,
}

impl View for ActionRequest {
    type V = ActionModel;

    open spec fn view(&self) -> ActionModel {
        match self {
            ActionRequest::Launch => ActionModel::Launch,
            ActionRequest::Stop => ActionModel::Stop,
            ActionRequest::Restart => ActionModel::Restart,
            ActionRequest::Backup => ActionModel::Backup,
            ActionRequest::Command(text) => ActionModel::Command(text@),
            ActionRequest::Download => ActionModel::Download,
        }
    }
}

impl View for Request {
    type V = RequestModel;

    open spec fn view(&self) -> RequestModel {
        match self {
            Request::Ping => RequestModel::Ping,
            Request::Auth => RequestModel::Auth,
            Request::Action(token, action) => RequestModel::Action(token@, action@),
        }
    }
}

impl View for Responce {
    type V = ResponceModel;

    open spec fn view(&self) -> ResponceModel {
        match self {
            Responce::Ping => ResponceModel::Ping,
            Responce::AuthToken(token) => ResponceModel::AuthToken(token@),
            Responce::Error(message) => ResponceModel::Error(message@),
            Responce::Success => ResponceModel::Success,
        }
    }
}

// ---------------------------------------------------------------------------
// The encoding, as functions on sequences of bytes
// ---------------------------------------------------------------------------

/// A payload behind its length: eight bytes little-endian, then the payload.
pub open spec fn length_prefixed(payload: Seq<u8>) -> Seq<u8> {
    spec_u64_to_le_bytes(payload.len() as u64) + payload
}

/// Reads one length-prefixed payload from the front of `bytes`; gives the
/// payload and what follows it.
pub open spec fn parse_prefixed(bytes: Seq<u8>) -> Option<(Seq<u8>, Seq<u8>)> {
    if bytes.len() < 8 {
        None
    } else {
        let n = spec_u64_from_le_bytes(bytes.subrange(0, 8)) as int;
        if bytes.len() - 8 < n {
            None
        } else {
            Some((bytes.subrange(8, 8 + n), bytes.subrange(8 + n, bytes.len() as int)))
        }
    }
}

/// A payload whose length an eight-byte prefix can hold.
pub open spec fn fits_prefix(payload: Seq<u8>) -> bool {
    payload.len() <= u64::MAX
}

pub open spec fn action_encodable(action: ActionModel) -> bool {
    match action {
        ActionModel::Command(text) => fits_prefix(encode_utf8(text)),
        _ => true,
    }
}

pub open spec fn request_encodable(request: RequestModel) -> bool {
    match request {
        RequestModel::Action(token, action) => fits_prefix(token) && action_encodable(action),
        _ => true,
    }
}

pub open spec fn responce_encodable(responce: ResponceModel) -> bool {
    match responce {
        ResponceModel::AuthToken(token) => fits_prefix(token),
        ResponceModel::Error(message) => fits_prefix(encode_utf8(message)),
        _ => true,
    }
}

/// The bytes of an action: its tag, and for a command its text.
pub open spec fn action_bytes(action: ActionModel) -> Seq<u8> {
    match action {
        ActionModel::Launch => seq![0u8],
        ActionModel::Stop => seq![1u8],
        ActionModel::Restart => seq![2u8],
        ActionModel::Backup => seq![3u8],
        ActionModel::Command(text) => seq![4u8] + length_prefixed(encode_utf8(text)),
        ActionModel::Download => seq![5u8],
    }
}

/// The bytes of a request: its tag, and for an action the token and the action.
pub open spec fn request_bytes(request: RequestModel) -> Seq<u8> {
    match request {
        RequestModel::Ping => seq![0u8],
        RequestModel::Auth => seq![1u8],
        RequestModel::Action(token, action) => seq![2u8] + length_prefixed(token) + action_bytes(
            action,
        ),
    }
}

/// The bytes of a response: its tag, and the token or the message where it has one.
pub open spec fn responce_bytes(responce: ResponceModel) -> Seq<u8> {
    match responce {
        ResponceModel::Ping => seq![0u8],
        ResponceModel::AuthToken(token) => seq![1u8] + length_prefixed(token),
        ResponceModel::Error(message) => seq![2u8] + length_prefixed(encode_utf8(message)),
        ResponceModel::Success => seq![3u8],
    }
}

/// Reads a text payload that must fill `bytes` to its end.
pub open spec fn parse_text(bytes: Seq<u8>) -> Option<Seq<char>> {
    match parse_prefixed(bytes) {
        Some((payload, rest)) => if rest.len() == 0 && valid_utf8(payload) {
            Some(decode_utf8(payload))
        } else {
            None
        },
        None => None,
    }
}

/// The action that `bytes` encode, if they encode one: nothing may follow it.
pub open spec fn parse_action(bytes: Seq<u8>) -> Option<ActionModel> {
    if bytes.len() == 0 {
        None
    } else {
        let body = bytes.subrange(1, bytes.len() as int);
        if bytes[0] == 4 {
            match parse_text(body) {
                Some(text) => Some(ActionModel::Command(text)),
                None => None,
            }
        } else if body.len() != 0 {
            None
        } else if bytes[0] == 0 {
            Some(ActionModel::Launch)
        } else if bytes[0] == 1 {
            Some(ActionModel::Stop)
        } else if bytes[0] == 2 {
            Some(ActionModel::Restart)
        } else if bytes[0] == 3 {
            Some(ActionModel::Backup)
        } else if bytes[0] == 5 {
            Some(ActionModel::Download)
        } else {
            None
        }
    }
}

/// The request that `bytes` encode, if they encode one.
pub open spec fn parse_request(bytes: Seq<u8>) -> Option<RequestModel> {
    if bytes.len() == 0 {
        None
    } else {
        let body = bytes.subrange(1, bytes.len() as int);
        if bytes[0] == 2 {
            match parse_prefixed(body) {
                Some((token, rest)) => match parse_action(rest) {
                    Some(action) => Some(RequestModel::Action(token, action)),
                    None => None,
                },
                None => None,
            }
        } else if body.len() != 0 {
            None
        } else if bytes[0] == 0 {
            Some(RequestModel::Ping)
        } else if bytes[0] == 1 {
            Some(RequestModel::Auth)
        } else {
            None
        }
    }
}

/// The response that `bytes` encode, if they encode one.
pub open spec fn parse_responce(bytes: Seq<u8>) -> Option<ResponceModel> {
    if bytes.len() == 0 {
        None
    } else {
        let body = bytes.subrange(1, bytes.len() as int);
        if bytes[0] == 1 {
            match parse_prefixed(body) {
                Some((token, rest)) => if rest.len() == 0 {
                    Some(ResponceModel::AuthToken(token))
                } else {
                    None
                },
                None => None,
            }
        } else if bytes[0] == 2 {
            match parse_text(body) {
                Some(message) => Some(ResponceModel::Error(message)),
                None => None,
            }
        } else if body.len() != 0 {
            None
        } else if bytes[0] == 0 {
            Some(ResponceModel::Ping)
        } else if bytes[0] == 3 {
            Some(ResponceModel::Success)
        } else {
            None
        }
    }
}

// ---------------------------------------------------------------------------
// Laws of the encoding
// ---------------------------------------------------------------------------

/// A length-prefixed payload, whatever follows it, is read back as that
/// payload and what follows.
pub proof fn prefixed_round_trip(payload: Seq<u8>, rest: Seq<u8>)
    requires
        fits_prefix(payload),
    ensures
        parse_prefixed(length_prefixed(payload) + rest) == Some((payload, rest)),
{
    lemma_auto_spec_u64_to_from_le_bytes();
    let n = payload.len() as u64;
    let head = spec_u64_to_le_bytes(n);
    let all = length_prefixed(payload) + rest;
    assert(all.subrange(0, 8) =~= head);
    assert(all.subrange(8, 8 + n as int) =~= payload);
    assert(all.subrange(8 + n as int, all.len() as int) =~= rest);
}

/// What `parse_prefixed` reads, written again behind its length and followed
/// by the rest, is the input.
pub proof fn prefixed_is_unique(bytes: Seq<u8>)
    requires
        parse_prefixed(bytes) is Some,
    ensures
        length_prefixed(parse_prefixed(bytes).unwrap().0) + parse_prefixed(bytes).unwrap().1
            == bytes,
        fits_prefix(parse_prefixed(bytes).unwrap().0),
{
    lemma_auto_spec_u64_to_from_le_bytes();
    let head = bytes.subrange(0, 8);
    let n = spec_u64_from_le_bytes(head);
    let payload = bytes.subrange(8, 8 + n as int);
    let rest = bytes.subrange(8 + n as int, bytes.len() as int);
    assert(payload.len() as u64 == n);
    assert(spec_u64_to_le_bytes(spec_u64_from_le_bytes(head)) == head);
    assert(head + payload + rest =~= bytes);
}

/// Text written as a length-prefixed UTF-8 payload is read back unchanged.
pub proof fn text_round_trip(text: Seq<char>)
    requires
        fits_prefix(encode_utf8(text)),
    ensures
        parse_text(length_prefixed(encode_utf8(text))) == Some(text),
{
    let payload = encode_utf8(text);
    prefixed_round_trip(payload, Seq::<u8>::empty());
    assert(length_prefixed(payload) + Seq::<u8>::empty() =~= length_prefixed(payload));
    encode_utf8_valid_utf8(text);
    encode_utf8_decode_utf8(text);
}

/// Every action is read back from its encoding.
pub proof fn action_round_trip(action: ActionModel)
    requires
        action_encodable(action),
    ensures
        parse_action(action_bytes(action)) == Some(action),
{
    let bytes = action_bytes(action);
    let body = bytes.subrange(1, bytes.len() as int);
    match action {
        ActionModel::Command(text) => {
            text_round_trip(text);
            assert(body =~= length_prefixed(encode_utf8(text)));
        },
        _ => {
            assert(body.len() == 0);
        },
    }
}

/// Every request is read back from its encoding.
pub proof fn request_round_trip(request: RequestModel)
    requires
        request_encodable(request),
    ensures
        parse_request(request_bytes(request)) == Some(request),
{
    let bytes = request_bytes(request);
    let body = bytes.subrange(1, bytes.len() as int);
    match request {
        RequestModel::Action(token, action) => {
            prefixed_round_trip(token, action_bytes(action));
            action_round_trip(action);
            assert(body =~= length_prefixed(token) + action_bytes(action));
        },
        _ => {
            assert(body.len() == 0);
        },
    }
}

/// Every response is read back from its encoding.
pub proof fn responce_round_trip(responce: ResponceModel)
    requires
        responce_encodable(responce),
    ensures
        parse_responce(responce_bytes(responce)) == Some(responce),
{
    let bytes = responce_bytes(responce);
    let body = bytes.subrange(1, bytes.len() as int);
    match responce {
        ResponceModel::AuthToken(token) => {
            prefixed_round_trip(token, Seq::<u8>::empty());
            assert(body =~= length_prefixed(token) + Seq::<u8>::empty());
        },
        ResponceModel::Error(message) => {
            text_round_trip(message);
            assert(body =~= length_prefixed(encode_utf8(message)));
        },
        _ => {
            assert(body.len() == 0);
        },
    }
}

/// Every byte string that reads as an action is the encoding of that action.
pub proof fn action_parse_is_exact(bytes: Seq<u8>)
    requires
        parse_action(bytes) is Some,
    ensures
        action_bytes(parse_action(bytes).unwrap()) == bytes,
        action_encodable(parse_action(bytes).unwrap()),
{
    let body = bytes.subrange(1, bytes.len() as int);
    assert(seq![bytes[0]] + body =~= bytes);
    if bytes[0] == 4 {
        prefixed_is_unique(body);
        let payload = parse_prefixed(body).unwrap().0;
        decode_utf8_encode_utf8(payload);
        assert(length_prefixed(payload) + Seq::<u8>::empty() =~= length_prefixed(payload));
    } else {
        assert(bytes =~= seq![bytes[0]]);
    }
}

/// Every byte string that reads as a request is the encoding of that
/// request: no two byte strings read as the same request.
pub proof fn request_parse_is_exact(bytes: Seq<u8>)
    requires
        parse_request(bytes) is Some,
    ensures
        request_bytes(parse_request(bytes).unwrap()) == bytes,
        request_encodable(parse_request(bytes).unwrap()),
{
    let body = bytes.subrange(1, bytes.len() as int);
    assert(seq![bytes[0]] + body =~= bytes);
    if bytes[0] == 2 {
        prefixed_is_unique(body);
        let token = parse_prefixed(body).unwrap().0;
        let rest = parse_prefixed(body).unwrap().1;
        action_parse_is_exact(rest);
        assert(seq![2u8] + length_prefixed(token) + rest =~= seq![2u8] + (length_prefixed(token)
            + rest));
    } else {
        assert(bytes =~= seq![bytes[0]]);
    }
}

/// Every byte string that reads as a response is the encoding of that
/// response: no two byte strings read as the same response.
pub proof fn responce_parse_is_exact(bytes: Seq<u8>)
    requires
        parse_responce(bytes) is Some,
    ensures
        responce_bytes(parse_responce(bytes).unwrap()) == bytes,
        responce_encodable(parse_responce(bytes).unwrap()),
{
    let body = bytes.subrange(1, bytes.len() as int);
    assert(seq![bytes[0]] + body =~= bytes);
    if bytes[0] == 1 {
        prefixed_is_unique(body);
        let token = parse_prefixed(body).unwrap().0;
        assert(length_prefixed(token) + Seq::<u8>::empty() =~= length_prefixed(token));
    } else if bytes[0] == 2 {
        prefixed_is_unique(body);
        let payload = parse_prefixed(body).unwrap().0;
        decode_utf8_encode_utf8(payload);
        assert(length_prefixed(payload) + Seq::<u8>::empty() =~= length_prefixed(payload));
    } else {
        assert(bytes =~= seq![bytes[0]]);
    }
}

/// Requests keep apart on the wire: two requests with the same encoding are
/// the same request.
pub proof fn requests_encode_apart(one: RequestModel, other: RequestModel)
    requires
        request_encodable(one),
        request_encodable(other),
        request_bytes(one) == request_bytes(other),
    ensures
        one == other,
{
    request_round_trip(one);
    request_round_trip(other);
}

/// Responses keep apart on the wire: two responses with the same encoding
/// are the same response.
pub proof fn responces_encode_apart(one: ResponceModel, other: ResponceModel)
    requires
        responce_encodable(one),
        responce_encodable(other),
        responce_bytes(one) == responce_bytes(other),
    ensures
        one == other,
{
    responce_round_trip(one);
    responce_round_trip(other);
}

// ---------------------------------------------------------------------------
// The cipher
// ---------------------------------------------------------------------------

/// `magic_crypt::MagicCryptError`: why the cipher rejected a frame. It is
/// carried from the cipher to the caller unread.
#[verifier::external_type_specification]
#[verifier::external_body]
pub struct ExMagicCryptError(magic_crypt::MagicCryptError);

/// The frame that the cipher makes of `plain` under the secret `key`.
pub uninterp spec fn ciphertext(key: Seq<char>, plain: Seq<u8>) -> Seq<u8>;

/// What the cipher recovers from `frame` under the secret `key`; `None` where
/// it rejects the frame.
pub uninterp spec fn plaintext(key: Seq<char>, frame: Seq<u8>) -> Option<Seq<u8>>;

/// `MagicCrypt256::new` with no initialisation vector, then
/// `MagicCryptTrait::encrypt_to_bytes`: AES-256 in CBC mode with PKCS7
/// padding, under a key that is a digest of `key`. Trusted: the result is a
/// function of the secret and the data alone, and decryption under the same
/// secret gives the data back.
#[verifier::external_body]
fn encrypt(key: &str, plain: &[u8]) -> (frame: Vec<u8>)
    ensures
        frame@ == ciphertext(key@, plain@),
        plaintext(key@, frame@) == Some(plain@),
{
    let cipher: magic_crypt::MagicCrypt256 = magic_crypt::MagicCryptTrait::new(key, None::<&str>);
    magic_crypt::MagicCryptTrait::encrypt_to_bytes(&cipher, plain)
}

/// `MagicCrypt256::new` with no initialisation vector, then
/// `MagicCryptTrait::decrypt_bytes_to_bytes`. Trusted: whether the frame is
/// accepted, and the bytes recovered from it, are a function of the secret and
/// the frame alone.
#[verifier::external_body]
fn decrypt(key: &str, frame: &[u8]) -> (r: Result<Vec<u8>, magic_crypt::MagicCryptError>)
    ensures
        match r {
            Ok(plain) => plaintext(key@, frame@) == Some(plain@),
            Err(_) => plaintext(key@, frame@) is None,
        },
{
    let cipher: magic_crypt::MagicCrypt256 = magic_crypt::MagicCryptTrait::new(key, None::<&str>);
    magic_crypt::MagicCryptTrait::decrypt_bytes_to_bytes(&cipher, frame)
}

/// `String::from_utf8`. Trusted: it accepts exactly the well-formed UTF-8
/// byte strings, and the text it gives is the one they encode.
#[verifier::external_body]
fn text_from_utf8(bytes: Vec<u8>) -> (r: Option<String>)
    ensures
        r is Some <==> valid_utf8(bytes@),
        r is Some ==> r.unwrap()@ == decode_utf8(bytes@),
{
    String::from_utf8(bytes).ok()
}

/// The request that the frame `frame` carries under the secret `key`, or the
/// reason why it carries none.
pub open spec fn open_request(key: Seq<char>, frame: Seq<u8>) -> Result<RequestModel, NetError> {
    match plaintext(key, frame) {
        None => Err(NetError::Decrypt),
        Some(plain) => match parse_request(plain) {
            None => Err(NetError::Malformed),
            Some(request) => Ok(request),
        },
    }
}

/// The response that the frame `frame` carries under the secret `key`, or the
/// reason why it carries none.
pub open spec fn open_responce(key: Seq<char>, frame: Seq<u8>) -> Result<
    ResponceModel,
    NetError,
> {
    match plaintext(key, frame) {
        None => Err(NetError::Decrypt),
        Some(plain) => match parse_responce(plain) {
            None => Err(NetError::Malformed),
            Some(responce) => Ok(responce),
        },
    }
}

// ---------------------------------------------------------------------------
// Writing and reading
// ---------------------------------------------------------------------------

fn put_prefixed(out: &mut Vec<u8>, payload: &[u8])
    ensures
        final(out)@ == old(out)@ + length_prefixed(payload@),
        fits_prefix(payload@),
{
    let mut head = u64_to_le_bytes(payload.len() as u64);
    let mut body = slice_to_vec(payload);
    out.append(&mut head);
    out.append(&mut body);
    assert(final(out)@ =~= old(out)@ + length_prefixed(payload@));
}

fn take_prefixed<'a>(bytes: &'a [u8]) -> (r: Option<(&'a [u8], &'a [u8])>)
    ensures
        match r {
            Some((payload, rest)) => parse_prefixed(bytes@) == Some((payload@, rest@)),
            None => parse_prefixed(bytes@) is None,
        },
{
    if bytes.len() < 8 {
        return None;
    }
    let n = u64_from_le_bytes(slice_subrange(bytes, 0, 8));
    let room = bytes.len() - 8;
    if (room as u64) < n {
        return None;
    }
    let end = 8 + (n as usize);
    Some((slice_subrange(bytes, 8, end), slice_subrange(bytes, end, bytes.len())))
}

fn take_text(bytes: &[u8]) -> (r: Option<String>)
    ensures
        match r {
            Some(text) => parse_text(bytes@) == Some(text@),
            None => parse_text(bytes@) is None,
        },
{
    match take_prefixed(bytes) {
        Some((payload, rest)) => {
            if rest.len() == 0 {
                text_from_utf8(slice_to_vec(payload))
            } else {
                None
            }
        },
        None => None,
    }
}

fn put_action(out: &mut Vec<u8>, action: &ActionRequest)
    ensures
        final(out)@ == old(out)@ + action_bytes(action@),
        action_encodable(action@),
{
    match action {
        ActionRequest::Launch => out.push(0),
        ActionRequest::Stop => out.push(1),
        ActionRequest::Restart => out.push(2),
        ActionRequest::Backup => out.push(3),
        ActionRequest::Command(text) => {
            out.push(4);
            put_prefixed(out, text.as_str().as_bytes());
        },
        ActionRequest::Download => out.push(5),
    }
    assert(final(out)@ =~= old(out)@ + action_bytes(action@));
}

fn take_action(bytes: &[u8]) -> (r: Option<ActionRequest>)
    ensures
        match r {
            Some(action) => parse_action(bytes@) == Some(action@),
            None => parse_action(bytes@) is None,
        },
{
    if bytes.len() == 0 {
        return None;
    }
    let tag = bytes[0];
    let body = slice_subrange(bytes, 1, bytes.len());
    if tag == 4 {
        match take_text(body) {
            Some(text) => Some(ActionRequest::Command(text)),
            None => None,
        }
    } else if body.len() != 0 {
        None
    } else if tag == 0 {
        Some(ActionRequest::Launch)
    } else if tag == 1 {
        Some(ActionRequest::Stop)
    } else if tag == 2 {
        Some(ActionRequest::Restart)
    } else if tag == 3 {
        Some(ActionRequest::Backup)
    } else if tag == 5 {
        Some(ActionRequest::Download)
    } else {
        None
    }
}

impl Request {
    /// The encoding of this request. It never fails, and what it gives is
    /// read back by [`Request::from_bytes`] as this request.
    pub fn into_bytes(self) -> (r: Result<Vec<u8>, NetError>)
        ensures
            r is Ok,
            r.unwrap()@ == request_bytes(self@),
            parse_request(r.unwrap()@) == Some(self@),
    {
        let mut out: Vec<u8> = Vec::new();
        match &self {
            Request::Ping => out.push(0),
            Request::Auth => out.push(1),
            Request::Action(token, action) => {
                out.push(2);
                put_prefixed(&mut out, token.as_slice());
                put_action(&mut out, action);
            },
        }
        proof {
            assert(out@ =~= request_bytes(self@));
            request_round_trip(self@);
        }
        Ok(out)
    }

    /// Reads a request from its encoding: the request that `bytes` encode,
    /// and `Malformed` where they encode none.
    pub fn from_bytes(bytes: &[u8]) -> (r: Result<Self, NetError>)
        ensures
            match r {
                Ok(request) => parse_request(bytes@) == Some(request@),
                Err(e) => parse_request(bytes@) is None && e == NetError::Malformed,
            },
    {
        if bytes.len() == 0 {
            return Err(NetError::Malformed);
        }
        let tag = bytes[0];
        let body = slice_subrange(bytes, 1, bytes.len());
        if tag == 2 {
            match take_prefixed(body) {
                Some((token, rest)) => match take_action(rest) {
                    Some(action) => Ok(Request::Action(slice_to_vec(token), action)),
                    None => Err(NetError::Malformed),
                },
                None => Err(NetError::Malformed),
            }
        } else if body.len() != 0 {
            Err(NetError::Malformed)
        } else if tag == 0 {
            Ok(Request::Ping)
        } else if tag == 1 {
            Ok(Request::Auth)
        } else {
            Err(NetError::Malformed)
        }
    }

    /// Reads the request that a received frame carries: decrypts `data` under
    /// the shared secret, then decodes it.
    pub fn recive(data: &[u8], key: &str) -> (r: Result<Self, NetError>)
        ensures
            match r {
                Ok(request) => open_request(key@, data@) == Ok::<RequestModel, NetError>(
                    request@,
                ),
                Err(e) => open_request(key@, data@) == Err::<RequestModel, NetError>(e),
            },
    {
        match decrypt(key, data) {
            Ok(plain) => Self::from_bytes(plain.as_slice()),
            Err(_) => Err(NetError::Decrypt),
        }
    }

    /// The frame to send for this request: its encoding, encrypted under the
    /// shared secret. The receiver reads this request from it.
    pub fn send(self, key: &str) -> (r: Result<Vec<u8>, NetError>)
        ensures
            r is Ok,
            r.unwrap()@ == ciphertext(key@, request_bytes(self@)),
            open_request(key@, r.unwrap()@) == Ok::<RequestModel, NetError>(self@),
    {
        let ghost model = self@;
        match self.into_bytes() {
            Ok(bytes) => {
                let frame = encrypt(key, bytes.as_slice());
                assert(parse_request(bytes@) == Some(model));
                Ok(frame)
            },
            Err(e) => Err(e),
        }
    }
}

impl Responce {
    /// The encoding of this response. It never fails, and what it gives is
    /// read back by [`Responce::from_bytes`] as this response.
    pub fn into_bytes(self) -> (r: Result<Vec<u8>, NetError>)
        ensures
            r is Ok,
            r.unwrap()@ == responce_bytes(self@),
            parse_responce(r.unwrap()@) == Some(self@),
    {
        let mut out: Vec<u8> = Vec::new();
        match &self {
            Responce::Ping => out.push(0),
            Responce::AuthToken(token) => {
                out.push(1);
                put_prefixed(&mut out, token.as_slice());
            },
            Responce::Error(message) => {
                out.push(2);
                put_prefixed(&mut out, message.as_str().as_bytes());
            },
            Responce::Success => out.push(3),
        }
        proof {
            assert(out@ =~= responce_bytes(self@));
            responce_round_trip(self@);
        }
        Ok(out)
    }

    /// Reads a response from its encoding: the response that `bytes` encode,
    /// and `Malformed` where they encode none.
    pub fn from_bytes(bytes: &[u8]) -> (r: Result<Self, NetError>)
        ensures
            match r {
                Ok(responce) => parse_responce(bytes@) == Some(responce@),
                Err(e) => parse_responce(bytes@) is None && e == NetError::Malformed,
            },
    {
        if bytes.len() == 0 {
            return Err(NetError::Malformed);
        }
        let tag = bytes[0];
        let body = slice_subrange(bytes, 1, bytes.len());
        if tag == 1 {
            match take_prefixed(body) {
                Some((token, rest)) => {
                    if rest.len() == 0 {
                        Ok(Responce::AuthToken(slice_to_vec(token)))
                    } else {
                        Err(NetError::Malformed)
                    }
                },
                None => Err(NetError::Malformed),
            }
        } else if tag == 2 {
            match take_text(body) {
                Some(message) => Ok(Responce::Error(message)),
                None => Err(NetError::Malformed),
            }
        } else if body.len() != 0 {
            Err(NetError::Malformed)
        } else if tag == 0 {
            Ok(Responce::Ping)
        } else if tag == 3 {
            Ok(Responce::Success)
        } else {
            Err(NetError::Malformed)
        }
    }

    /// Reads the response that a received frame carries: decrypts `data`
    /// under the shared secret, then decodes it.
    pub fn recive(data: &[u8], key: &str) -> (r: Result<Self, NetError>)
        ensures
            match r {
                Ok(responce) => open_responce(key@, data@) == Ok::<ResponceModel, NetError>(
                    responce@,
                ),
                Err(e) => open_responce(key@, data@) == Err::<ResponceModel, NetError>(e),
            },
    {
        match decrypt(key, data) {
            Ok(plain) => Self::from_bytes(plain.as_slice()),
            Err(_) => Err(NetError::Decrypt),
        }
    }

    /// The frame to send for this response: its encoding, encrypted under the
    /// shared secret. The receiver reads this response from it.
    pub fn send(self, key: &str) -> (r: Result<Vec<u8>, NetError>)
        ensures
            r is Ok,
            r.unwrap()@ == ciphertext(key@, responce_bytes(self@)),
            open_responce(key@, r.unwrap()@) == Ok::<ResponceModel, NetError>(self@),
    {
        let ghost model = self@;
        match self.into_bytes() {
            Ok(bytes) => {
                let frame = encrypt(key, bytes.as_slice());
                assert(parse_responce(bytes@) == Some(model));
                Ok(frame)
            },
            Err(e) => Err(e),
        }
    }
}

} // verus!
