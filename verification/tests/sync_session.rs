use not_rsync::not_rsync_pb::client_message::Message;
use not_rsync::not_rsync_pb::FileSignature;
use not_rsync::not_rsync_pb::PatchResponse;
use not_rsync::not_rsync_pb::ShutdownResponse;
use not_rsync::not_rsync_pb::SignatureResponse;
use not_rsync::rsync::apply_delta;
use not_rsync::rsync::signature_of;
use not_rsync::rsync::SignatureOptions;
use not_rsync::sync::server_type;
use not_rsync::sync::signatures_diffable;
use not_rsync::sync::is_location_arg;
use not_rsync::sync::split_arg;
use not_rsync::sync::Location;
use not_rsync::sync::ServerType;
use not_rsync::sync::SyncSession;
use not_rsync::sync::SyncStage;

#[test]
fn split_user_host_path() {
    assert_eq!(split_arg("knara@localhost:/tmp/a.txt"), vec!["knara", "localhost", "/tmp/a.txt"]);
}

#[test]
fn split_keeps_empty_fields() {
    assert_eq!(split_arg(""), vec![""]);
    assert_eq!(split_arg("a::b@"), vec!["a", "", "b", ""]);
    assert_eq!(split_arg("plain"), vec!["plain"]);
}

#[test]
fn split_non_ascii() {
    assert_eq!(split_arg("jürgen@höst:/päth"), vec!["jürgen", "höst", "/päth"]);
}

#[test]
fn location_from_arg_localhost() {
    let l = Location::from_arg("knara@localhost:/tmp/b.txt".to_string());
    assert_eq!(l.username, "knara");
    assert_eq!(l.hostname, "localhost");
    assert_eq!(l.filepath, "/tmp/b.txt");
    assert!(!l.is_remote);
}

#[test]
fn location_from_arg_without_user() {
    let l = Location::from_arg("localhost:/tmp/a.txt".to_string());
    assert_eq!(l.hostname, "localhost");
    assert_eq!(l.filepath, "/tmp/a.txt");
    assert!(!l.is_remote);
    let far = Location::from_arg("Far-Host:/p".to_string());
    assert_eq!(far.hostname, "Far-Host");
    assert_eq!(far.filepath, "/p");
    assert!(far.is_remote);
}

#[test]
fn location_arg_forms() {
    assert!(is_location_arg("knara@localhost:/tmp/a.txt"));
    assert!(is_location_arg("localhost:/tmp/a.txt"));
    assert!(!is_location_arg("knara@localhost"));
    assert!(!is_location_arg("/tmp/a.txt"));
    assert!(!is_location_arg("a@b:c:d"));
}

#[test]
fn location_remote_unless_this_host() {
    let here = Location::with_local_hostname("u", "box", "/p", "box");
    assert!(!here.is_remote);
    let there = Location::with_local_hostname("u", "elsewhere", "/p", "box");
    assert!(there.is_remote);
    let lh = Location::with_local_hostname("u", "localhost", "/p", "box");
    assert!(!lh.is_remote);
}

#[test]
fn server_type_choice() {
    let local = Location::with_local_hostname("u", "localhost", "/p", "box");
    let remote = Location::with_local_hostname("u", "far", "/p", "box");
    assert_eq!(server_type(&local, false), ServerType::Local);
    assert_eq!(server_type(&local, true), ServerType::Remote);
    assert_eq!(server_type(&remote, false), ServerType::Remote);
}

#[test]
fn session_sends_requests_in_order() {
    let dest = Location::with_local_hostname("u", "localhost", "/tmp/b.txt", "box");
    let mut session = SyncSession::new(&dest);
    assert_eq!(session.stage, SyncStage::Start);

    let m = session.get_signatures();
    match m.message {
        Some(Message::SignatureRequest(r)) => assert_eq!(r.filepaths, vec!["/tmp/b.txt".to_string()]),
        other => panic!("unexpected {:?}", other),
    }
    assert_eq!(session.stage, SyncStage::AwaitingSignatures);

    let base = b"this is a modified file".to_vec();
    let source = b"this is a base file".to_vec();
    let sig = signature_of(&base, SignatureOptions { block_size: 4, crypto_hash_size: 8 });
    let response = SignatureResponse {
        signatures: vec![FileSignature { filepath: "/tmp/b.txt".to_string(), content: sig }],
    };
    assert!(signatures_diffable(&response.signatures));
    let m = session.patch_remote_files(response, &source);
    match m.message {
        Some(Message::PatchRequest(r)) => {
            assert_eq!(r.deltas.len(), 1);
            assert_eq!(r.deltas[0].filepath, "/tmp/b.txt");
            assert_eq!(apply_delta(&base, &r.deltas[0].content), Ok(source.clone()));
        }
        other => panic!("unexpected {:?}", other),
    }
    assert_eq!(session.stage, SyncStage::AwaitingPatch);

    let m = session.request_shutdown(PatchResponse { ok: true });
    assert!(matches!(m.message, Some(Message::ShutdownRequest(_))));
    assert_eq!(session.stage, SyncStage::AwaitingShutdown);

    session.finish(ShutdownResponse { error: None });
    assert_eq!(session.stage, SyncStage::Done);
}

#[test]
fn undiffable_signatures_are_flagged() {
    let sigs = vec![
        FileSignature { filepath: "a".to_string(), content: vec![1, 2, 3] },
    ];
    assert!(!signatures_diffable(&sigs));
    assert!(signatures_diffable(&Vec::new()));
}

#[test]
fn capitalised_host_is_remote() {
    let l = Location::new("u", "LOCALHOST", "/p");
    assert!(l.is_remote);
    let l = Location::from_arg("u@Some-Host:/p".to_string());
    assert!(l.is_remote);
}
