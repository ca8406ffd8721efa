use not_rsync::client::sync::check_comms;
use not_rsync::client::sync::is_ack;
use not_rsync::client::sync::local_server_response;
use not_rsync::client::sync::sync;
use not_rsync::client::sync::HandshakeStep;

#[test]
fn handshake_full_exchange() {
    let mut h = sync("/tmp/a.txt".to_string());
    let replies: Vec<(&str, &str)> = vec![
        ("SYN", "ACK"),
        ("filepath", "ready for filepath"),
        ("/tmp/a.txt", "received /tmp/a.txt"),
        ("signature", "calculating signature"),
        ("shutdown", "Shutting down!"),
    ];
    for (request, reply) in replies {
        assert_eq!(h.request(), request.as_bytes().to_vec());
        assert!(h.accepts(reply.as_bytes()));
        assert!(h.check_reply(reply.as_bytes().to_vec()).is_ok());
    }
    assert_eq!(h.step, HandshakeStep::Done);
}

#[test]
fn handshake_wrong_reply_not_accepted() {
    let h = sync("p".to_string());
    assert!(!h.accepts(b"NAK"));
    assert!(!h.accepts(b"ack"));
    assert!(h.accepts(b"ACK"));
    assert_eq!(h.expected_reply(), "ACK");
}

#[test]
fn handshake_path_reply_must_name_the_path() {
    let mut h = sync("/tmp/a.txt".to_string());
    h.check_reply(b"ACK".to_vec()).unwrap();
    h.check_reply(b"ready for filepath".to_vec()).unwrap();
    assert_eq!(h.step, HandshakeStep::Filepath);
    assert!(!h.accepts(b"received /tmp/b.txt"));
    assert!(h.accepts(b"received /tmp/a.txt"));
}

#[test]
fn handshake_invalid_utf8_is_error() {
    let mut h = sync("p".to_string());
    assert!(h.accepts(&[0xff, 0xfe]));
    assert!(h.check_reply(vec![0xff, 0xfe]).is_err());
    assert_eq!(h.step, HandshakeStep::Connection);
}

#[test]
fn comms_check() {
    assert!(is_ack(&"ACK".to_string()));
    assert!(!is_ack(&"ack".to_string()));
    let ok: Result<String, String> = Ok("ACK".to_string());
    assert_eq!(check_comms(ok), Ok(()));
    let failed: Result<String, String> = Err("timed out".to_string());
    assert_eq!(check_comms(failed), Err("timed out".to_string()));
}

#[test]
fn local_server_answers() {
    assert_eq!(local_server_response("shutdown"), ("Shutting down!".to_string(), true));
    assert_eq!(local_server_response("hello"), ("Hey, hows it going?".to_string(), false));
    assert_eq!(local_server_response("SYN"), ("Dang, I quite didn't catch that.".to_string(), false));
}
