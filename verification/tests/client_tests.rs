use mcsc::client::{Client, ClientError};
use mcsc::net::{ActionRequest, NetError, Request, Responce};

fn client() -> Client {
    Client::new("127.0.0.1:7878".to_string(), "secret".to_string())
}

fn frame(reply: Responce) -> Vec<u8> {
    reply.send("secret").unwrap()
}

#[test]
fn client_keeps_host_and_key() {
    let client = client();
    assert_eq!(client.host, "127.0.0.1:7878");
    assert_eq!(client.key, "secret");
}

#[test]
fn client_asks_for_a_token() {
    let asked = client().auth_request();
    assert_eq!(Request::recive(&asked, "secret"), Ok(Request::Auth));
}

#[test]
fn token_from_the_reply() {
    let client = client();
    assert_eq!(client.auth(&frame(Responce::AuthToken(vec![69; 3]))), Ok(vec![69; 3]));
    assert_eq!(
        client.auth(&frame(Responce::Error("busy".to_string()))),
        Err(ClientError::Refused("busy".to_string()))
    );
    assert_eq!(client.auth(&frame(Responce::Ping)), Err(ClientError::Unexpected));
    assert_eq!(client.auth(&frame(Responce::Success)), Err(ClientError::Unexpected));
    assert_eq!(client.auth(&[1, 2, 3]), Err(ClientError::Net(NetError::Decrypt)));
    let other = Request::Action(vec![], ActionRequest::Stop).send("secret").unwrap();
    assert_eq!(client.auth(&other), Err(ClientError::Net(NetError::Malformed)));
}

#[test]
fn client_error_messages() {
    assert_eq!(ClientError::Refused("busy".to_string()).message(), "busy");
    assert_eq!(ClientError::Unexpected.message(), "Server returned somthing weird");
    assert_eq!(ClientError::Net(NetError::Decrypt).message(), "Unable to decrypt the reply");
    assert_eq!(ClientError::Net(NetError::Malformed).message(), "Unable to read the reply");
}

#[test]
fn action_is_framed_under_the_token() {
    let client = client();
    let reply = frame(Responce::AuthToken(vec![1, 2]));
    let asked = client.send_request(&reply, ActionRequest::Stop).unwrap();
    assert_eq!(
        Request::recive(&asked, "secret"),
        Ok(Request::Action(vec![1, 2], ActionRequest::Stop))
    );
    assert_eq!(
        client.send_request(&frame(Responce::Success), ActionRequest::Stop),
        Err(ClientError::Unexpected)
    );
}
