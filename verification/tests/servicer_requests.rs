use not_rsync::file_store::FileStore;
use not_rsync::not_rsync_pb::client_message::Message;
use not_rsync::not_rsync_pb::ClientMessage;
use not_rsync::not_rsync_pb::Delta;
use not_rsync::not_rsync_pb::PatchRequest;
use not_rsync::not_rsync_pb::ShutdownRequest;
use not_rsync::not_rsync_pb::SignatureRequest;
use not_rsync::rsync::signature_of;
use not_rsync::rsync::SignatureOptions;
use not_rsync::servicer::Servicer;
use not_rsync::servicer::ServicerError;
use not_rsync::servicer::ServicerReply;
use not_rsync::sync::calculate_delta;

fn default_sig(bytes: &[u8]) -> Vec<u8> {
    signature_of(bytes, SignatureOptions { block_size: 4, crypto_hash_size: 8 })
}

#[test]
fn empty_message_shuts_down_with_error() {
    let mut servicer = Servicer::new();
    let mut files = FileStore::new();
    let reply = servicer.handle_request(ClientMessage { message: None }, &mut files);
    match reply {
        Ok(ServicerReply::Shutdown(r)) => {
            assert_eq!(r.error, Some("Couldn't deduce message type".to_string()))
        }
        other => panic!("unexpected reply {:?}", other),
    }
    assert!(servicer.shut_down());
}

#[test]
fn shutdown_request_shuts_down() {
    let mut servicer = Servicer::new();
    assert!(!servicer.shut_down());
    let mut files = FileStore::new();
    let msg = ClientMessage { message: Some(Message::ShutdownRequest(ShutdownRequest {})) };
    match servicer.handle_request(msg, &mut files) {
        Ok(ServicerReply::Shutdown(r)) => assert_eq!(r.error, None),
        other => panic!("unexpected reply {:?}", other),
    }
    assert!(servicer.shut_down());
}

#[test]
fn signatures_in_requested_order() {
    let mut servicer = Servicer::new();
    let mut files = FileStore::new();
    files.load("b.txt".to_string(), b"contents of b".to_vec());
    let req = SignatureRequest { filepaths: vec!["missing.txt".to_string(), "b.txt".to_string()] };
    let msg = ClientMessage { message: Some(Message::SignatureRequest(req)) };
    match servicer.handle_request(msg, &mut files) {
        Ok(ServicerReply::Signatures(r)) => {
            assert_eq!(r.signatures.len(), 2);
            assert_eq!(r.signatures[0].filepath, "missing.txt");
            assert_eq!(r.signatures[0].content, default_sig(b""));
            assert_eq!(r.signatures[0].content.len(), 12);
            assert_eq!(r.signatures[1].filepath, "b.txt");
            assert_eq!(r.signatures[1].content, default_sig(b"contents of b"));
        }
        other => panic!("unexpected reply {:?}", other),
    }
    assert!(!servicer.shut_down());
}

#[test]
fn calculate_signature_with_options() {
    let bytes = b"0123456789".to_vec();
    let opts = SignatureOptions { block_size: 5, crypto_hash_size: 16 };
    let sig = Servicer::calculate_signature(Some(&bytes), Some(opts));
    assert_eq!(&sig[4..12], &[0, 0, 0, 5, 0, 0, 0, 16]);
    assert_eq!(sig.len(), 12 + 2 * 20);
    assert_eq!(Servicer::calculate_signature(None, None), default_sig(b""));
}

#[test]
fn patch_request_updates_files_in_order() {
    let mut servicer = Servicer::new();
    let mut files = FileStore::new();
    let base = b"this is a modified file".to_vec();
    let source = b"this is a base file".to_vec();
    files.load("b.txt".to_string(), base.clone());
    let delta = calculate_delta(&source, &default_sig(&base)).unwrap();
    let req = PatchRequest { deltas: vec![Delta { filepath: "b.txt".to_string(), content: delta }] };
    let msg = ClientMessage { message: Some(Message::PatchRequest(req)) };
    match servicer.handle_request(msg, &mut files) {
        Ok(ServicerReply::Patch(r)) => assert!(r.ok),
        other => panic!("unexpected reply {:?}", other),
    }
    assert_eq!(files.get(&"b.txt".to_string()), Some(&source));
    let (path, contents, written) = files.entry(0);
    assert_eq!(path, "b.txt");
    assert_eq!(contents, &source);
    assert!(written);
    assert!(!servicer.shut_down());
}

#[test]
fn patch_of_missing_file_fails_after_earlier_patches() {
    let servicer = Servicer::new();
    let mut files = FileStore::new();
    files.load("a".to_string(), b"old".to_vec());
    let delta = calculate_delta(b"new contents", &default_sig(b"old")).unwrap();
    let req = PatchRequest {
        deltas: vec![
            Delta { filepath: "a".to_string(), content: delta.clone() },
            Delta { filepath: "gone".to_string(), content: delta },
        ],
    };
    assert!(matches!(
        servicer.patch_files(req, &mut files),
        Err(ServicerError::MissingFile)
    ));
    assert_eq!(files.get(&"a".to_string()), Some(&b"new contents".to_vec()));
    assert_eq!(files.len(), 1);
}

#[test]
fn walking_the_store_visits_each_path_once() {
    let mut files = FileStore::new();
    files.load("a".to_string(), b"1".to_vec());
    files.load("b".to_string(), b"2".to_vec());
    files.write("a".to_string(), b"3".to_vec());
    files.load("c".to_string(), b"4".to_vec());
    assert_eq!(files.len(), 3);
    let mut seen: Vec<(String, Vec<u8>, bool)> = Vec::new();
    for i in 0..files.len() {
        let (path, contents, written) = files.entry(i);
        seen.push((path.clone(), contents.clone(), written));
    }
    seen.sort();
    assert_eq!(
        seen,
        vec![
            ("a".to_string(), b"3".to_vec(), true),
            ("b".to_string(), b"2".to_vec(), false),
            ("c".to_string(), b"4".to_vec(), false),
        ]
    );
}

#[test]
fn invalid_delta_leaves_file() {
    let mut files = FileStore::new();
    files.load("a".to_string(), b"old".to_vec());
    let r = Servicer::patch(&mut files, &"a".to_string(), &b"junk".to_vec());
    assert_eq!(r, Err(ServicerError::InvalidDelta));
    assert_eq!(files.get(&"a".to_string()), Some(&b"old".to_vec()));
    let (_, _, written) = files.entry(0);
    assert!(!written);
}

#[test]
fn second_delta_sees_first_patch() {
    let servicer = Servicer::new();
    let mut files = FileStore::new();
    files.load("f".to_string(), b"one".to_vec());
    let d1 = calculate_delta(b"two", &default_sig(b"one")).unwrap();
    let d2 = calculate_delta(b"three", &default_sig(b"two")).unwrap();
    let req = PatchRequest {
        deltas: vec![
            Delta { filepath: "f".to_string(), content: d1 },
            Delta { filepath: "f".to_string(), content: d2 },
        ],
    };
    assert!(servicer.patch_files(req, &mut files).unwrap().ok);
    assert_eq!(files.get(&"f".to_string()), Some(&b"three".to_vec()));
}

#[test]
fn store_load_replaces() {
    let mut files = FileStore::new();
    files.load("x".to_string(), vec![1]);
    files.load("x".to_string(), vec![2]);
    files.write("y".to_string(), vec![3]);
    assert_eq!(files.len(), 2);
    assert_eq!(files.get(&"x".to_string()), Some(&vec![2]));
    assert_eq!(files.get(&"z".to_string()), None);
}
