//! The server side: what the server answers to each client request, and what
//! it does to its files.

use vstd::prelude::*;

use crate::file_store::FileStore;
use crate::not_rsync_pb::client_message::Message;
use crate::not_rsync_pb::ClientMessage;
use crate::not_rsync_pb::Delta;
use crate::not_rsync_pb::FileSignature;
use crate::not_rsync_pb::PatchRequest;
use crate::not_rsync_pb::PatchResponse;
use crate::not_rsync_pb::ShutdownResponse;
use crate::not_rsync_pb::SignatureRequest;
use crate::not_rsync_pb::SignatureResponse;
use crate::rsync::apply_delta;
use crate::rsync::fast_rsync_patched;
use crate::rsync::fast_rsync_signature;
use crate::rsync::signature_diffable;
use crate::rsync::signature_of;
use crate::rsync::SignatureOptions;

verus! {

broadcast use vstd::string::group_string_axioms;

/// What the server's files look like to a request: each path with its
/// contents and whether it has been written.
pub type FilesView = Map<Seq<char>, (Seq<u8>, bool)>;

/// The signature options the server uses when none are given: blocks of four
/// bytes, eight hash bytes per block.
pub open spec fn default_options() -> SignatureOptions {
    SignatureOptions { block_size: 4, crypto_hash_size: 8 }
}

/// The options in effect: the given ones, or the defaults.
pub open spec fn effective_options(sig_opts: Option<SignatureOptions>) -> SignatureOptions {
    match sig_opts {
        Some(o) => o,
        None => default_options(),
    }
}

/// The bytes of a file as the server reads it: its contents, or nothing
/// where it does not exist.
pub open spec fn contents_or_empty(files: FilesView, path: Seq<char>) -> Seq<u8> {
    if files.contains_key(path) {
        files[path].0
    } else {
        Seq::empty()
    }
}

/// The signature the server sends for `path`.
pub open spec fn served_signature(files: FilesView, path: Seq<char>) -> Seq<u8> {
    fast_rsync_signature(contents_or_empty(files, path), 4, 8)
}

/// The signature served for a kept file is `fast_rsync`'s signature, with
/// blocks of four bytes and eight hash bytes, of its whole contents; for a
/// path that is not kept it is the signature of no bytes.
pub proof fn lemma_served_signature_whole_file(files: FilesView, path: Seq<char>)
    ensures
        files.contains_key(path) ==> served_signature(files, path) == fast_rsync_signature(
            files[path].0,
            4,
            8,
        ),
        !files.contains_key(path) ==> served_signature(files, path) == fast_rsync_signature(
            Seq::<u8>::empty(),
            4,
            8,
        ),
{
}

/// The reason the server gives when it cannot tell what a message asks.
pub open spec fn undeducible_message() -> Seq<char> {
    "Couldn't deduce message type"@
}

/// Errors of serving a request.
#[derive(Debug, PartialEq, Eq, Structural)]
pub enum ServicerError {
    /// A delta names a file the server does not have.
    MissingFile,
    /// A delta does not apply to the file it names.
    InvalidDelta,
}

/// One delta applied to the files: the patched file replaces the old one
/// and is marked written.
pub open spec fn patch_outcome(files: FilesView, path: Seq<char>, delta: Seq<u8>) -> Result<
    FilesView,
    ServicerError,
> {
    if !files.contains_key(path) {
        Err(ServicerError::MissingFile)
    } else {
        match fast_rsync_patched(files[path].0, delta) {
            Some(out) => Ok(files.insert(path, (out, true))),
            None => Err(ServicerError::InvalidDelta),
        }
    }
}

/// The deltas applied in order, each to the files as the ones before it
/// left them, up to the first that fails: the files then, and that
/// failure if there is one.
pub open spec fn patch_all(files: FilesView, deltas: Seq<Delta>) -> (FilesView, Option<
    ServicerError,
>)
    decreases deltas.len(),
{
    if deltas.len() == 0 {
        (files, None)
    } else {
        match patch_outcome(files, deltas[0].filepath@, deltas[0].content@) {
            Ok(next) => patch_all(next, deltas.drop_first()),
            Err(e) => (files, Some(e)),
        }
    }
}

/// `delta` applies to the file at `path` of `before`, and `after` is
/// `before` with that file replaced by the patched bytes and marked written.
pub open spec fn delta_applies(
    before: FilesView,
    path: Seq<char>,
    delta: Seq<u8>,
    after: FilesView,
) -> bool {
    &&& before.contains_key(path)
    &&& fast_rsync_patched(before[path].0, delta) is Some
    &&& after == before.insert(path, (fast_rsync_patched(before[path].0, delta)->Some_0, true))
}

/// `states` are the files before each of the first `k` deltas and after the
/// last of them, each delta applied to the files as the ones before it left
/// them.
pub open spec fn applied_in_turn(states: Seq<FilesView>, deltas: Seq<Delta>, k: int) -> bool {
    &&& 0 <= k <= deltas.len()
    &&& states.len() == k + 1
    &&& forall|i: int|
        #![trigger deltas[i]]
        0 <= i < k ==> delta_applies(
            states[i],
            deltas[i].filepath@,
            deltas[i].content@,
            states[i + 1],
        )
}

/// A patch request whose deltas all apply in turn leaves the files as the
/// last of them left them, with no error.
pub proof fn lemma_patch_all_applies_every_delta(states: Seq<FilesView>, deltas: Seq<Delta>)
    requires
        applied_in_turn(states, deltas, deltas.len() as int),
    ensures
        patch_all(states[0], deltas) == (states[deltas.len() as int], None::<ServicerError>),
    decreases deltas.len(),
{
    if deltas.len() > 0 {
        assert(delta_applies(states[0], deltas[0].filepath@, deltas[0].content@, states[1]));
        let rest_states = states.drop_first();
        let rest = deltas.drop_first();
        assert forall|i: int| 0 <= i < rest.len() implies delta_applies(
            rest_states[i],
            rest[i].filepath@,
            rest[i].content@,
            rest_states[i + 1],
        ) by {
            assert(delta_applies(
                states[i + 1],
                deltas[i + 1].filepath@,
                deltas[i + 1].content@,
                states[i + 2],
            ));
        }
        lemma_patch_all_applies_every_delta(rest_states, rest);
    }
}

/// A patch request fails at the first delta that does not apply to the files
/// as the deltas before it left them: with `MissingFile` where that file is
/// not kept, with `InvalidDelta` where `fast_rsync` cannot apply the delta to
/// it; the files are then as the earlier deltas left them.
pub proof fn lemma_patch_all_stops_at_failing_delta(
    states: Seq<FilesView>,
    deltas: Seq<Delta>,
    k: int,
)
    requires
        0 <= k < deltas.len(),
        applied_in_turn(states, deltas, k),
        !states[k].contains_key(deltas[k].filepath@) || fast_rsync_patched(
            states[k][deltas[k].filepath@].0,
            deltas[k].content@,
        ) is None,
    ensures
        patch_all(states[0], deltas) == (states[k], Some(
            if !states[k].contains_key(deltas[k].filepath@) {
                ServicerError::MissingFile
            } else {
                ServicerError::InvalidDelta
            },
        )),
    decreases k,
{
    if k > 0 {
        assert(delta_applies(states[0], deltas[0].filepath@, deltas[0].content@, states[1]));
        let rest_states = states.drop_first();
        let rest = deltas.drop_first();
        assert forall|i: int| 0 <= i < k - 1 implies delta_applies(
            rest_states[i],
            rest[i].filepath@,
            rest[i].content@,
            rest_states[i + 1],
        ) by {
            assert(delta_applies(
                states[i + 1],
                deltas[i + 1].filepath@,
                deltas[i + 1].content@,
                states[i + 2],
            ));
        }
        lemma_patch_all_stops_at_failing_delta(rest_states, rest, k - 1);
    }
}

/// The answer to one request.
#[derive(Debug)]
pub enum ServicerReply {
    Signatures(SignatureResponse),
    Patch(PatchResponse),
    Shutdown(ShutdownResponse),
}

/// Serves the requests of one connection, until it is asked to stop.
pub struct Servicer {
    shutdown: bool,
}

impl Servicer {
    /// Whether the servicer has stopped taking requests.
    pub closed spec fn is_shut_down(self) -> bool {
        self.shutdown
    }

    /// A servicer ready for its first request.
    pub fn new() -> (s: Servicer)
        ensures
            !s.is_shut_down(),
    {
        Servicer { shutdown: false }
    }

    /// Whether the servicer has stopped taking requests.
    pub fn shut_down(&self) -> (b: bool)
        ensures
            b == self.is_shut_down(),
    {
        self.shutdown
    }

    /// The signature of one file: of its bytes, or of no bytes where it is
    /// missing, with the given options or the defaults.
    pub fn calculate_signature(file: Option<&Vec<u8>>, sig_opts: Option<SignatureOptions>) -> (sig:
        Vec<u8>)
        requires
            sig_opts matches Some(o) ==> o.valid(),
        ensures
            sig@ == fast_rsync_signature(
                match file {
                    Some(f) => f@,
                    None => Seq::<u8>::empty(),
                },
                effective_options(sig_opts).block_size,
                effective_options(sig_opts).crypto_hash_size,
            ),
            signature_diffable(sig@),
    {
        let sig_opts = match sig_opts {
            None => SignatureOptions { block_size: 4, crypto_hash_size: 8 },
            Some(opts) => opts,
        };
        match file {
            Some(bytes) => signature_of(bytes.as_slice(), sig_opts),
            None => {
                let empty: Vec<u8> = Vec::new();
                signature_of(empty.as_slice(), sig_opts)
            },
        }
    }

    /// The signatures of the requested files, in the order asked.
    pub fn get_file_signatures(&self, req: SignatureRequest, files: &FileStore) -> (res:
        SignatureResponse)
        ensures
            res.signatures@.len() == req.filepaths@.len(),
            forall|i: int|
                0 <= i < req.filepaths@.len() ==> {
                    &&& (#[trigger] res.signatures@[i]).filepath@ == req.filepaths@[i]@
                    &&& res.signatures@[i].content@ == served_signature(
                        files.view(),
                        req.filepaths@[i]@,
                    )
                    &&& signature_diffable(res.signatures@[i].content@)
                },
            forall|i: int|
                0 <= i < req.filepaths@.len() ==> {
                    &&& files.view().contains_key(req.filepaths@[i]@) ==> (
                    #[trigger] res.signatures@[i]).content@ == fast_rsync_signature(
                        files.view()[req.filepaths@[i]@].0,
                        4,
                        8,
                    )
                    &&& !files.view().contains_key(req.filepaths@[i]@)
                        ==> res.signatures@[i].content@ == fast_rsync_signature(
                        Seq::<u8>::empty(),
                        4,
                        8,
                    )
                },
    {
        let mut signatures: Vec<FileSignature> = Vec::new();
        let mut i: usize = 0;
        while i < req.filepaths.len()
            invariant
                i <= req.filepaths@.len(),
                signatures@.len() == i,
                forall|k: int|
                    0 <= k < i ==> {
                        &&& (#[trigger] signatures@[k]).filepath@ == req.filepaths@[k]@
                        &&& signatures@[k].content@ == served_signature(
                            files.view(),
                            req.filepaths@[k]@,
                        )
                        &&& signature_diffable(signatures@[k].content@)
                    },
            decreases req.filepaths@.len() - i,
        {
            let fp = req.filepaths[i].clone();
            let content = Self::calculate_signature(files.get(&fp), None);
            signatures.push(FileSignature { filepath: fp, content });
            i = i + 1;
        }
        proof {
            assert forall|i: int| 0 <= i < req.filepaths@.len() implies {
                &&& files.view().contains_key(req.filepaths@[i]@) ==> (
                #[trigger] signatures@[i]).content@ == fast_rsync_signature(
                    files.view()[req.filepaths@[i]@].0,
                    4,
                    8,
                )
                &&& !files.view().contains_key(req.filepaths@[i]@)
                    ==> signatures@[i].content@ == fast_rsync_signature(Seq::<u8>::empty(), 4, 8)
            } by {
                assert(signatures@[i].content@ == served_signature(
                    files.view(),
                    req.filepaths@[i]@,
                ));
            }
        }
        SignatureResponse { signatures }
    }

    /// Patches the file at `filepath` with `delta` and marks it written.
    pub fn patch(files: &mut FileStore, filepath: &String, delta: &Vec<u8>) -> (res: Result<
        (),
        ServicerError,
    >)
        ensures
            match patch_outcome(old(files).view(), filepath@, delta@) {
                Ok(next) => res is Ok && final(files).view() == next,
                Err(e) => res == Err::<(), ServicerError>(e) && final(files).view() == old(
                    files,
                ).view(),
            },
    {
        let patched = match files.get(filepath) {
            None => {
                return Err(ServicerError::MissingFile);
            },
            Some(base) => apply_delta(base.as_slice(), delta.as_slice()),
        };
        match patched {
            Ok(out) => {
                files.write(filepath.clone(), out);
                Ok(())
            },
            Err(_) => Err(ServicerError::InvalidDelta),
        }
    }

    /// What `patch_all` gives, told by the files each delta finds.
    proof fn lemma_patch_answer_by_steps(files: FilesView, deltas: Seq<Delta>)
        ensures
            forall|states: Seq<FilesView>|
                #[trigger] applied_in_turn(states, deltas, deltas.len() as int) && states[0]
                    == files ==> patch_all(files, deltas) == (
                    states[deltas.len() as int],
                    None::<ServicerError>,
                ),
            forall|states: Seq<FilesView>, k: int|
                #[trigger] applied_in_turn(states, deltas, k) && states[0] == files && k
                    < deltas.len() && !(states[k].contains_key(deltas[k].filepath@)
                    && fast_rsync_patched(states[k][deltas[k].filepath@].0, deltas[k].content@)
                    is Some) ==> patch_all(files, deltas) == (
                    states[k],
                    Some(
                        if !states[k].contains_key(deltas[k].filepath@) {
                            ServicerError::MissingFile
                        } else {
                            ServicerError::InvalidDelta
                        },
                    ),
                ),
    {
        assert forall|states: Seq<FilesView>|
            #[trigger] applied_in_turn(states, deltas, deltas.len() as int) && states[0]
                == files implies patch_all(files, deltas) == (
            states[deltas.len() as int],
            None::<ServicerError>,
        ) by {
            lemma_patch_all_applies_every_delta(states, deltas);
        }
        assert forall|states: Seq<FilesView>, k: int|
            #[trigger] applied_in_turn(states, deltas, k) && states[0] == files && k
                < deltas.len() && !(states[k].contains_key(deltas[k].filepath@)
                && fast_rsync_patched(states[k][deltas[k].filepath@].0, deltas[k].content@)
                is Some) implies patch_all(files, deltas) == (
            states[k],
            Some(
                if !states[k].contains_key(deltas[k].filepath@) {
                    ServicerError::MissingFile
                } else {
                    ServicerError::InvalidDelta
                },
            ),
        ) by {
            lemma_patch_all_stops_at_failing_delta(states, deltas, k);
        }
    }

    /// Applies the deltas in order, stopping at the first that fails.
    pub fn patch_files(&self, req: PatchRequest, files: &mut FileStore) -> (res: Result<
        PatchResponse,
        ServicerError,
    >)
        ensures
            final(files).view() == patch_all(old(files).view(), req.deltas@).0,
            match patch_all(old(files).view(), req.deltas@).1 {
                None => res matches Ok(r) && r.ok,
                Some(e) => res == Err::<PatchResponse, ServicerError>(e),
            },
            forall|states: Seq<FilesView>|
                #[trigger] applied_in_turn(states, req.deltas@, req.deltas@.len() as int)
                    && states[0] == old(files).view() ==> (res matches Ok(r) && r.ok)
                    && final(files).view() == states[req.deltas@.len() as int],
            forall|states: Seq<FilesView>, k: int|
                #[trigger] applied_in_turn(states, req.deltas@, k) && states[0] == old(
                    files,
                ).view() && k < req.deltas@.len() && !(states[k].contains_key(
                    req.deltas@[k].filepath@,
                ) && fast_rsync_patched(
                    states[k][req.deltas@[k].filepath@].0,
                    req.deltas@[k].content@,
                ) is Some) ==> final(files).view() == states[k] && res == Err::<
                    PatchResponse,
                    ServicerError,
                >(
                    if !states[k].contains_key(req.deltas@[k].filepath@) {
                        ServicerError::MissingFile
                    } else {
                        ServicerError::InvalidDelta
                    },
                ),
    {
        let ghost start = files.view();
        proof {
            assert(req.deltas@.skip(0) =~= req.deltas@);
        }
        let mut i: usize = 0;
        while i < req.deltas.len()
            invariant
                i <= req.deltas@.len(),
                start == old(files).view(),
                patch_all(start, req.deltas@) == patch_all(files.view(), req.deltas@.skip(i as int)),
            decreases req.deltas@.len() - i,
        {
            let ghost before = files.view();
            let ghost rest = req.deltas@.skip(i as int);
            let delta = &req.deltas[i];
            let r = Self::patch(files, &delta.filepath, &delta.content);
            proof {
                assert(rest[0] == req.deltas@[i as int]);
                assert(rest.drop_first() =~= req.deltas@.skip(i + 1));
            }
            match r {
                Err(e) => {
                    assert(patch_all(before, rest) == (before, Some(e)));
                    proof {
                        Self::lemma_patch_answer_by_steps(start, req.deltas@);
                    }
                    return Err(e);
                },
                Ok(()) => {},
            }
            i = i + 1;
        }
        proof {
            assert(req.deltas@.skip(i as int).len() == 0);
            Self::lemma_patch_answer_by_steps(start, req.deltas@);
        }
        Ok(PatchResponse { ok: true })
    }

    /// Answers one request. A shutdown request, or a message whose kind
    /// cannot be told, stops the servicer; the other requests leave it
    /// taking more.
    pub fn handle_request(&mut self, request: ClientMessage, files: &mut FileStore) -> (res:
        Result<ServicerReply, ServicerError>)
        ensures
            match request.message {
                None => {
                    &&& final(self).is_shut_down()
                    &&& final(files).view() == old(files).view()
                    &&& res matches Ok(ServicerReply::Shutdown(r)) && r.error matches Some(s)
                        && s@ == undeducible_message()
                },
                Some(Message::ShutdownRequest(_)) => {
                    &&& final(self).is_shut_down()
                    &&& final(files).view() == old(files).view()
                    &&& res matches Ok(ServicerReply::Shutdown(r)) && r.error is None
                },
                Some(Message::SignatureRequest(req)) => {
                    &&& final(self).is_shut_down() == old(self).is_shut_down()
                    &&& final(files).view() == old(files).view()
                    &&& res matches Ok(ServicerReply::Signatures(r))
                    &&& r.signatures@.len() == req.filepaths@.len()
                    &&& forall|i: int|
                        0 <= i < req.filepaths@.len() ==> {
                            &&& (#[trigger] r.signatures@[i]).filepath@ == req.filepaths@[i]@
                            &&& r.signatures@[i].content@ == served_signature(
                                old(files).view(),
                                req.filepaths@[i]@,
                            )
                            &&& signature_diffable(r.signatures@[i].content@)
                            &&& old(files).view().contains_key(req.filepaths@[i]@)
                                ==> r.signatures@[i].content@ == fast_rsync_signature(
                                old(files).view()[req.filepaths@[i]@].0,
                                4,
                                8,
                            )
                        }
                },
                Some(Message::PatchRequest(req)) => {
                    &&& final(self).is_shut_down() == old(self).is_shut_down()
                    &&& final(files).view() == patch_all(old(files).view(), req.deltas@).0
                    &&& match patch_all(old(files).view(), req.deltas@).1 {
                        None => res matches Ok(ServicerReply::Patch(r)) && r.ok,
                        Some(e) => res == Err::<ServicerReply, ServicerError>(e),
                    }
                    &&& forall|states: Seq<FilesView>|
                        #[trigger] applied_in_turn(states, req.deltas@, req.deltas@.len() as int)
                            && states[0] == old(files).view() ==> (res matches Ok(
                            ServicerReply::Patch(r),
                        ) && r.ok) && final(files).view() == states[req.deltas@.len() as int]
                    &&& forall|states: Seq<FilesView>, k: int|
                        #[trigger] applied_in_turn(states, req.deltas@, k) && states[0] == old(
                            files,
                        ).view() && k < req.deltas@.len() && !(states[k].contains_key(
                            req.deltas@[k].filepath@,
                        ) && fast_rsync_patched(
                            states[k][req.deltas@[k].filepath@].0,
                            req.deltas@[k].content@,
                        ) is Some) ==> final(files).view() == states[k] && res == Err::<
                            ServicerReply,
                            ServicerError,
                        >(
                            if !states[k].contains_key(req.deltas@[k].filepath@) {
                                ServicerError::MissingFile
                            } else {
                                ServicerError::InvalidDelta
                            },
                        )
                },
            },
    {
        match request.message {
            None => {
                self.shutdown = true;
                let error = "Couldn't deduce message type".to_string();
                Ok(ServicerReply::Shutdown(ShutdownResponse { error: Some(error) }))
            },
            Some(Message::SignatureRequest(req)) => {
                let res = self.get_file_signatures(req, files);
                Ok(ServicerReply::Signatures(res))
            },
            Some(Message::PatchRequest(req)) => {
                let res = self.patch_files(req, files)?;
                Ok(ServicerReply::Patch(res))
            },
            Some(Message::ShutdownRequest(_)) => {
                self.shutdown = true;
                Ok(ServicerReply::Shutdown(ShutdownResponse { error: None }))
            },
        }
    }
}

} // verus!
