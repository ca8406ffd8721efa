//! The client side: where the files are, which server to use, and the
//! requests a synchronisation sends in turn.

use vstd::prelude::*;
use vstd::string::StrSliceExecFns;

use crate::not_rsync_pb::client_message::Message;
use crate::not_rsync_pb::ClientMessage;
use crate::not_rsync_pb::Delta;
use crate::not_rsync_pb::FileSignature;
use crate::not_rsync_pb::PatchResponse;
use crate::not_rsync_pb::ShutdownRequest;
use crate::not_rsync_pb::ShutdownResponse;
use crate::not_rsync_pb::SignatureRequest;
use crate::not_rsync_pb::SignatureResponse;
use crate::rsync::delta_diff;
use crate::rsync::fast_rsync_delta;
use crate::rsync::signature_block_size;
use crate::rsync::signature_diffable;
use crate::rsync::signature_hash_size;
use crate::rsync::valid_signature;
use crate::rsync::RsyncError;

verus! {

broadcast use vstd::string::group_string_axioms;

/// Whether `s` holds an ASCII capital letter.
pub open spec fn has_ascii_capital(s: Seq<char>) -> bool {
    exists|i: int| 0 <= i < s.len() && 65 <= #[trigger] (s[i] as u32) <= 90
}

/// Calls `whoami::hostname`: the name of this machine. Which name it gives
/// depends on the machine, so that is left unsaid; its source lower-cases
/// the name (`make_ascii_lowercase`) before handing it back, so the result
/// holds no ASCII capital letter.
#[verifier::external_body]
fn local_hostname() -> (name: String)
    ensures
        !has_ascii_capital(name@),
{
    whoami::hostname()
}

/// Calls `whoami::username`: the name of the user running the program. Which
/// name it gives depends on the machine, so nothing is stated of it.
#[verifier::external_body]
fn local_username() -> (name: String) {
    whoami::username()
}

/// The characters that separate the user, the host and the path of a
/// location argument.
pub open spec fn is_separator(c: char) -> bool {
    c == '@' || c == ':'
}

/// The pieces of `s` between its separators, empty pieces included, as
/// `str::split` yields them.
pub open spec fn split_fields(s: Seq<char>) -> Seq<Seq<char>>
    decreases s.len(),
{
    if s.len() == 0 {
        seq![Seq::<char>::empty()]
    } else {
        let prev = split_fields(s.drop_last());
        if is_separator(s.last()) {
            prev.push(Seq::<char>::empty())
        } else {
            prev.update(prev.len() - 1, prev.last().push(s.last()))
        }
    }
}

/// Whether `s` is a location argument: `user@host:path`, or `host:path`
/// with the user left out.
pub open spec fn location_arg_form(s: Seq<char>) -> bool {
    split_fields(s).len() == 3 || (split_fields(s).len() == 2 && !s.contains('@'))
}

proof fn lemma_split_fields_nonempty(s: Seq<char>)
    ensures
        split_fields(s).len() >= 1,
    decreases s.len(),
{
    if s.len() > 0 {
        lemma_split_fields_nonempty(s.drop_last());
    }
}

proof fn lemma_split_append_plain(a: Seq<char>, s: Seq<char>)
    requires
        forall|i: int| 0 <= i < s.len() ==> !is_separator(#[trigger] s[i]),
    ensures
        split_fields(a + s) == split_fields(a).update(
            split_fields(a).len() - 1,
            split_fields(a).last() + s,
        ),
    decreases s.len(),
{
    lemma_split_fields_nonempty(a);
    let f = split_fields(a);
    if s.len() == 0 {
        assert(a + s =~= a);
        assert(f.last() + s =~= f.last());
        assert(f.update(f.len() - 1, f.last() + s) =~= f);
    } else {
        let s0 = s.drop_last();
        lemma_split_append_plain(a, s0);
        lemma_split_fields_nonempty(a + s0);
        assert((a + s).drop_last() =~= a + s0);
        assert((a + s).last() == s.last());
        assert(!is_separator(s[s.len() - 1]));
        let prev = split_fields(a + s0);
        assert(prev.last() == f.last() + s0);
        assert(prev.last().push(s.last()) =~= f.last() + s);
        assert(prev.update(prev.len() - 1, prev.last().push(s.last())) =~= f.update(
            f.len() - 1,
            f.last() + s,
        ));
    }
}

proof fn lemma_split_append_separator(a: Seq<char>, c: char)
    requires
        is_separator(c),
    ensures
        split_fields(a.push(c)) == split_fields(a).push(Seq::<char>::empty()),
{
    assert(a.push(c).drop_last() =~= a);
}

/// A location argument read back: `user@host:path`, where none of the three
/// parts holds `@` or `:`, splits into exactly those three parts, so
/// `Location::from_arg` takes the user, host and path it was written with.
/// Every character other than `@` and `:` stays inside its part.
pub proof fn lemma_location_arg_roundtrip(user: Seq<char>, host: Seq<char>, path: Seq<char>)
    requires
        forall|i: int| 0 <= i < user.len() ==> #[trigger] user[i] != '@' && user[i] != ':',
        forall|i: int| 0 <= i < host.len() ==> #[trigger] host[i] != '@' && host[i] != ':',
        forall|i: int| 0 <= i < path.len() ==> #[trigger] path[i] != '@' && path[i] != ':',
    ensures
        split_fields(user + seq!['@'] + host + seq![':'] + path) == seq![user, host, path],
        location_arg_form(user + seq!['@'] + host + seq![':'] + path),
{
    let e = Seq::<char>::empty();
    lemma_split_append_plain(e, user);
    assert(e + user =~= user);
    assert(split_fields(e) == seq![e]);
    assert(seq![e].update(0, e + user) =~= seq![user]);
    lemma_split_append_separator(user, '@');
    assert(user + seq!['@'] =~= user.push('@'));
    let a1 = user.push('@');
    lemma_split_append_plain(a1, host);
    assert(seq![user].push(e).update(1, e + host) =~= seq![user, host]);
    assert(e + host =~= host);
    let a2 = a1 + host;
    lemma_split_append_separator(a2, ':');
    let a3 = a2.push(':');
    lemma_split_append_plain(a3, path);
    assert(e + path =~= path);
    assert(seq![user, host].push(e).update(2, e + path) =~= seq![user, host, path]);
    assert(user + seq!['@'] + host + seq![':'] + path =~= a3 + path);
}

/// A location argument with the user left out read back: `host:path`, where
/// neither part holds `@` or `:`, is a location argument that splits into
/// exactly that host and path, so `Location::from_arg` takes them.
pub proof fn lemma_host_arg_roundtrip(host: Seq<char>, path: Seq<char>)
    requires
        forall|i: int| 0 <= i < host.len() ==> #[trigger] host[i] != '@' && host[i] != ':',
        forall|i: int| 0 <= i < path.len() ==> #[trigger] path[i] != '@' && path[i] != ':',
    ensures
        split_fields(host + seq![':'] + path) == seq![host, path],
        location_arg_form(host + seq![':'] + path),
{
    let e = Seq::<char>::empty();
    let arg = host + seq![':'] + path;
    lemma_split_append_plain(e, host);
    assert(e + host =~= host);
    assert(split_fields(e) == seq![e]);
    assert(seq![e].update(0, e + host) =~= seq![host]);
    lemma_split_append_separator(host, ':');
    let a1 = host.push(':');
    lemma_split_append_plain(a1, path);
    assert(e + path =~= path);
    assert(seq![host].push(e).update(1, e + path) =~= seq![host, path]);
    assert(arg =~= a1 + path);
    if arg.contains('@') {
        let k = choose|k: int| 0 <= k < arg.len() && arg[k] == '@';
        if k < host.len() {
            assert(arg[k] == host[k]);
        } else if k > host.len() {
            assert(arg[k] == path[k - host.len() - 1]);
        }
    }
}

/// Splits a location argument at every `@` and `:`.
pub fn split_arg(arg: &str) -> (items: Vec<String>)
    ensures
        items@.len() == split_fields(arg@).len(),
        forall|i: int| 0 <= i < items@.len() ==> (#[trigger] items@[i])@ == split_fields(arg@)[i],
{
    let n = arg.unicode_len();
    let mut items: Vec<String> = Vec::new();
    let mut start: usize = 0;
    let mut i: usize = 0;
    proof {
        assert(arg@.take(0) =~= Seq::<char>::empty());
        assert(arg@.subrange(0, 0) =~= Seq::<char>::empty());
    }
    while i < n
        invariant
            n == arg@.len(),
            start <= i <= n,
            items@.len() + 1 == split_fields(arg@.take(i as int)).len(),
            forall|k: int|
                0 <= k < items@.len() ==> (#[trigger] items@[k])@ == split_fields(
                    arg@.take(i as int),
                )[k],
            split_fields(arg@.take(i as int)).last() == arg@.subrange(start as int, i as int),
        decreases n - i,
    {
        let c = arg.get_char(i);
        proof {
            assert(arg@.take(i + 1).drop_last() =~= arg@.take(i as int));
            assert(arg@.take(i + 1).last() == c);
            lemma_split_fields_nonempty(arg@.take(i as int));
        }
        if c == '@' || c == ':' {
            let piece = arg.substring_char(start, i).to_string();
            items.push(piece);
            start = i + 1;
            proof {
                assert(arg@.subrange(start as int, i + 1) =~= Seq::<char>::empty());
            }
        } else {
            proof {
                assert(arg@.subrange(start as int, i + 1) =~= arg@.subrange(
                    start as int,
                    i as int,
                ).push(c));
            }
        }
        i = i + 1;
    }
    let last = arg.substring_char(start, n).to_string();
    items.push(last);
    proof {
        assert(arg@.take(n as int) =~= arg@);
    }
    items
}

/// One end of a synchronisation: a user on a host, and a path there.
#[derive(Debug)]
pub struct Location {
    pub username: String,
    pub hostname: String,
    pub filepath: String,
    /// Whether the host is another machine than this one.
    pub is_remote: bool,
}

impl Location {
    /// A location on `hostname`, which counts as remote unless it names
    /// this machine, as `local_hostname` gives its name, or `localhost`.
    pub fn with_local_hostname(
        username: &str,
        hostname: &str,
        filepath: &str,
        local_hostname: &str,
    ) -> (l: Location)
        ensures
            l.username@ == username@,
            l.hostname@ == hostname@,
            l.filepath@ == filepath@,
            l.is_remote == (hostname@ != local_hostname@ && hostname@ != "localhost"@),
    {
        let host = hostname.to_string();
        let local = local_hostname.to_string();
        let localhost = "localhost".to_string();
        let is_remote = host != local && host != localhost;
        Location {
            username: username.to_string(),
            hostname: host,
            filepath: filepath.to_string(),
            is_remote,
        }
    }

    /// A location on `hostname`, which counts as remote unless it names this
    /// machine or `localhost`. The name of this machine is lower-case, so a
    /// host name with an ASCII capital letter always counts as remote.
    pub fn new(username: &str, hostname: &str, filepath: &str) -> (l: Location)
        ensures
            l.username@ == username@,
            l.hostname@ == hostname@,
            l.filepath@ == filepath@,
            hostname@ == "localhost"@ ==> !l.is_remote,
            has_ascii_capital(hostname@) ==> l.is_remote,
    {
        let local = local_hostname();
        let l = Self::with_local_hostname(username, hostname, filepath, local.as_str());
        proof {
            reveal_strlit("localhost");
            if has_ascii_capital(hostname@) {
                let i = choose|i: int|
                    0 <= i < hostname@.len() && 65 <= #[trigger] (hostname@[i] as u32) <= 90;
                if hostname@ == local@ {
                    assert(65 <= (local@[i] as u32) <= 90);
                }
                if hostname@ == "localhost"@ {
                    assert(65 <= ("localhost"@[i] as u32) <= 90);
                }
            }
        }
        l
    }

    /// The location written `user@host:path`, or `host:path` for the user
    /// running the program.
    pub fn from_arg(arg: String) -> (l: Location)
        requires
            location_arg_form(arg@),
        ensures
            split_fields(arg@).len() == 3 ==> l.username@ == split_fields(arg@)[0],
            l.hostname@ == split_fields(arg@)[split_fields(arg@).len() - 2],
            l.filepath@ == split_fields(arg@).last(),
            split_fields(arg@)[split_fields(arg@).len() - 2] == "localhost"@ ==> !l.is_remote,
            has_ascii_capital(split_fields(arg@)[split_fields(arg@).len() - 2]) ==> l.is_remote,
    {
        let items = split_arg(arg.as_str());
        if items.len() == 3 {
            Self::new(items[0].as_str(), items[1].as_str(), items[2].as_str())
        } else {
            let user = local_username();
            Self::new(user.as_str(), items[0].as_str(), items[1].as_str())
        }
    }
}

/// Whether `arg` is a location argument that `Location::from_arg` takes.
pub fn is_location_arg(arg: &str) -> (b: bool)
    ensures
        b == location_arg_form(arg@),
{
    let items = split_arg(arg);
    if items.len() == 3 {
        return true;
    }
    if items.len() != 2 {
        return false;
    }
    let n = arg.unicode_len();
    let mut i: usize = 0;
    while i < n
        invariant
            n == arg@.len(),
            i <= n,
            split_fields(arg@).len() == 2,
            forall|k: int| 0 <= k < i ==> arg@[k] != '@',
        decreases n - i,
    {
        if arg.get_char(i) == '@' {
            proof {
                assert(arg@[i as int] == '@');
            }
            return false;
        }
        i = i + 1;
    }
    true
}

/// How the client reaches the server.
#[derive(Debug, PartialEq, Eq, Structural)]
pub enum ServerType {
    /// A server thread beside the client.
    Local,
    /// A server started over SSH.
    Remote,
}

/// A remote server where the destination is on another machine or SSH is
/// asked for, a local one otherwise.
pub fn server_type(dest: &Location, ssh: bool) -> (t: ServerType)
    ensures
        (t == ServerType::Remote) == (dest.is_remote || ssh),
{
    if dest.is_remote || ssh {
        ServerType::Remote
    } else {
        ServerType::Local
    }
}

/// The delta that turns the file behind `signature` into `base`, as
/// `fast_rsync` computes it; an error where the signature is not an MD4 one
/// or keeps more than sixteen hash bytes per block.
pub fn calculate_delta(base: &[u8], signature: &[u8]) -> (res: Result<Vec<u8>, RsyncError>)
    requires
        valid_signature(signature@),
        signature_block_size(signature@) > 0,
        signature_hash_size(signature@) + 4 <= usize::MAX,
    ensures
        res is Ok <==> signature_diffable(signature@),
        res matches Ok(d) ==> d@ == fast_rsync_delta(signature@, base@),
        res is Err ==> res == Err::<Vec<u8>, RsyncError>(RsyncError::Diff),
{
    match delta_diff(signature, base) {
        Ok(d) => Ok(d),
        Err(_) => Err(RsyncError::Diff),
    }
}

/// Whether the client can compute a delta against every one of these
/// signatures.
pub fn signatures_diffable(signatures: &Vec<FileSignature>) -> (b: bool)
    ensures
        b == forall|i: int|
            0 <= i < signatures@.len() ==> signature_diffable(#[trigger] signatures@[i].content@),
{
    let mut i: usize = 0;
    while i < signatures.len()
        invariant
            i <= signatures@.len(),
            forall|k: int| 0 <= k < i ==> signature_diffable(#[trigger] signatures@[k].content@),
        decreases signatures@.len() - i,
    {
        if !crate::rsync::is_diffable_signature(signatures[i].content.as_slice()) {
            return false;
        }
        i = i + 1;
    }
    true
}

/// Where a synchronisation stands: which answer it waits for.
#[derive(Debug, PartialEq, Eq, Structural)]
pub enum SyncStage {
    /// Nothing sent yet.
    Start,
    /// The signature request is sent.
    AwaitingSignatures,
    /// The patch request is sent.
    AwaitingPatch,
    /// The shutdown request is sent.
    AwaitingShutdown,
    /// The server has answered the shutdown request.
    Done,
}

/// One synchronisation of the destination file with the source file: the
/// requests it sends, each after the answer to the one before.
pub struct SyncSession {
    pub dest_filepath: String,
    pub stage: SyncStage,
}

impl SyncSession {
    /// A synchronisation of `dest` that has sent nothing yet.
    pub fn new(dest: &Location) -> (s: SyncSession)
        ensures
            s.dest_filepath@ == dest.filepath@,
            s.stage == SyncStage::Start,
    {
        SyncSession { dest_filepath: dest.filepath.clone(), stage: SyncStage::Start }
    }

    /// The first request: the server's signature of the destination file.
    pub fn get_signatures(&mut self) -> (m: ClientMessage)
        requires
            old(self).stage == SyncStage::Start,
        ensures
            final(self).stage == SyncStage::AwaitingSignatures,
            final(self).dest_filepath == old(self).dest_filepath,
            m.message matches Some(Message::SignatureRequest(r)) && r.filepaths@.len() == 1
                && r.filepaths@[0]@ == old(self).dest_filepath@,
    {
        let mut filepaths: Vec<String> = Vec::new();
        filepaths.push(self.dest_filepath.clone());
        self.stage = SyncStage::AwaitingSignatures;
        ClientMessage { message: Some(Message::SignatureRequest(SignatureRequest { filepaths })) }
    }

    /// The second request, once the signatures are in: for each signed file,
    /// the delta that turns it into the source bytes `base`.
    pub fn patch_remote_files(&mut self, response: SignatureResponse, base: &Vec<u8>) -> (m:
        ClientMessage)
        requires
            old(self).stage == SyncStage::AwaitingSignatures,
            forall|i: int|
                0 <= i < response.signatures@.len() ==> signature_diffable(
                    #[trigger] response.signatures@[i].content@,
                ),
        ensures
            final(self).stage == SyncStage::AwaitingPatch,
            final(self).dest_filepath == old(self).dest_filepath,
            m.message matches Some(Message::PatchRequest(r)) && r.deltas@.len()
                == response.signatures@.len() && forall|i: int|
                0 <= i < r.deltas@.len() ==> {
                    &&& (#[trigger] r.deltas@[i]).filepath@ == response.signatures@[i].filepath@
                    &&& r.deltas@[i].content@ == fast_rsync_delta(
                        response.signatures@[i].content@,
                        base@,
                    )
                },
    {
        let signatures = response.signatures;
        let mut deltas: Vec<Delta> = Vec::new();
        let mut i: usize = 0;
        while i < signatures.len()
            invariant
                i <= signatures@.len(),
                deltas@.len() == i,
                forall|k: int|
                    0 <= k < signatures@.len() ==> signature_diffable(
                        #[trigger] signatures@[k].content@,
                    ),
                forall|k: int|
                    0 <= k < i ==> {
                        &&& (#[trigger] deltas@[k]).filepath@ == signatures@[k].filepath@
                        &&& deltas@[k].content@ == fast_rsync_delta(
                            signatures@[k].content@,
                            base@,
                        )
                    },
            decreases signatures@.len() - i,
        {
            let sig = &signatures[i];
            let content = match calculate_delta(base.as_slice(), sig.content.as_slice()) {
                Ok(d) => d,
                Err(_) => Vec::new(),
            };
            deltas.push(Delta { filepath: sig.filepath.clone(), content });
            i = i + 1;
        }
        self.stage = SyncStage::AwaitingPatch;
        ClientMessage { message: Some(Message::PatchRequest(crate::not_rsync_pb::PatchRequest { deltas })) }
    }

    /// The third request, once the patch is answered: that the server stop.
    pub fn request_shutdown(&mut self, response: PatchResponse) -> (m: ClientMessage)
        requires
            old(self).stage == SyncStage::AwaitingPatch,
        ensures
            final(self).stage == SyncStage::AwaitingShutdown,
            final(self).dest_filepath == old(self).dest_filepath,
            m.message matches Some(Message::ShutdownRequest(_)),
    {
        self.stage = SyncStage::AwaitingShutdown;
        ClientMessage { message: Some(Message::ShutdownRequest(ShutdownRequest {  })) }
    }

    /// The end, once the shutdown is answered.
    pub fn finish(&mut self, response: ShutdownResponse)
        requires
            old(self).stage == SyncStage::AwaitingShutdown,
        ensures
            final(self).stage == SyncStage::Done,
            final(self).dest_filepath == old(self).dest_filepath,
    {
        self.stage = SyncStage::Done;
    }
}

} // verus!
