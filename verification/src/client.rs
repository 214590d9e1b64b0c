//! The client's side of an exchange: the frame that asks for a token, what
//! the reply to it means, and the frame that asks for an action under the
//! token.
use crate::net::{
    ciphertext, open_responce, request_bytes, ActionRequest, NetError, Request, RequestModel,
    Responce, ResponceModel, Token,
};
use vstd::prelude::*;

verus! {

/// Why the client could not go on after it asked for a token.
#[derive(Debug, Clone, PartialEq, Eq)]
pub enum ClientError {
    /// The reply could not be read from its frame.
    Net(NetError),
    /// The service answered with an error, whose message this is.
    Refused(String),
    /// The service answered with something that is no answer to the question.
    Unexpected,
}

/// The mathematical value of a [`ClientError`].
pub enum ClientErrorModel {
    Net(NetError),
    Refused(Seq<char>),
    Unexpected,
}

impl View for ClientError {
    type V = ClientErrorModel;

    open spec fn view(&self) -> ClientErrorModel {
        match self {
            ClientError::Net(e) => ClientErrorModel::Net(*e),
            ClientError::Refused(message) => ClientErrorModel::Refused(message@),
            ClientError::Unexpected => ClientErrorModel::Unexpected,
        }
    }
}

impl ClientError {
    /// The message that the user is shown.
    pub open spec fn text(&self) -> Seq<char> {
        match self {
            ClientError::Net(NetError::Decrypt) => "Unable to decrypt the reply"@,
            ClientError::Net(NetError::Malformed) => "Unable to read the reply"@,
            ClientError::Refused(message) => message@,
            ClientError::Unexpected => "Server returned somthing weird"@,
        }
    }

    /// The message that the user is shown.
    pub fn message(&self) -> (message: String)
        ensures
            message@ == self.text(),
    {
        match self {
            ClientError::Net(NetError::Decrypt) => "Unable to decrypt the reply".to_owned(),
            ClientError::Net(NetError::Malformed) => "Unable to read the reply".to_owned(),
            ClientError::Refused(message) => message.clone(),
            ClientError::Unexpected => "Server returned somthing weird".to_owned(),
        }
    }
}

/// What the reply to an authentication means: the token that it brings, or
/// why it brings none.
pub open spec fn token_of(reply: ResponceModel) -> Result<Seq<u8>, ClientErrorModel> {
    match reply {
        ResponceModel::AuthToken(token) => Ok(token),
        ResponceModel::Error(message) => Err(ClientErrorModel::Refused(message)),
        _ => Err(ClientErrorModel::Unexpected),
    }
}

/// What the frame of a reply to an authentication means under the secret.
pub open spec fn token_in(key: Seq<char>, frame: Seq<u8>) -> Result<Seq<u8>, ClientErrorModel> {
    match open_responce(key, frame) {
        Ok(reply) => token_of(reply),
        Err(e) => Err(ClientErrorModel::Net(e)),
    }
}

/// What the client knows of the service: where it listens, and the secret
/// that they share.
#[derive(Debug, Clone, PartialEq, Eq)]
pub struct Client {
    pub host: String,
    pub key: String,
}

impl Client {
    /// A client of the service at `host`, under the shared secret `key`.
    pub fn new(host: String, key: String) -> (client: Client)
        ensures
            client.host == host,
            client.key == key,
    {
        Client { host, key }
    }

    /// The frame that asks for a token.
    pub fn auth_request(&self) -> (frame: Vec<u8>)
        ensures
            frame@ == ciphertext(self.key@, request_bytes(RequestModel::Auth)),
    {
        match Request::Auth.send(self.key.as_str()) {
            Ok(frame) => frame,
            Err(_) => Vec::new(),
        }
    }

    /// Reads the reply to an authentication from its frame: the token, or
    /// why there is none.
    pub fn auth(&self, reply: &[u8]) -> (r: Result<Token, ClientError>)
        ensures
            match token_in(self.key@, reply@) {
                Ok(token) => r matches Ok(got) && got@ == token,
                Err(e) => r matches Err(refusal) && refusal@ == e,
            },
    {
        match Responce::recive(reply, self.key.as_str()) {
            Ok(Responce::AuthToken(token)) => Ok(token),
            Ok(Responce::Error(message)) => Err(ClientError::Refused(message)),
            Ok(_) => Err(ClientError::Unexpected),
            Err(e) => Err(ClientError::Net(e)),
        }
    }

    /// The frame that asks for `action` under the token that the reply to
    /// the authentication brought; the error where the reply brought none.
    pub fn send_request(&self, reply: &[u8], action: ActionRequest) -> (r: Result<
        Vec<u8>,
        ClientError,
    >)
        ensures
            match token_in(self.key@, reply@) {
                Ok(token) => r matches Ok(frame) && frame@ == ciphertext(
                    self.key@,
                    request_bytes(RequestModel::Action(token, action@)),
                ),
                Err(e) => r matches Err(refusal) && refusal@ == e,
            },
    {
        match self.auth(reply) {
            Ok(token) => match Request::Action(token, action).send(self.key.as_str()) {
                Ok(frame) => Ok(frame),
                Err(e) => Err(ClientError::Net(e)),
            },
            Err(e) => Err(e),
        }
    }
}

} // verus!
