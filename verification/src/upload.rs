//! The multipart upload pipeline, as a state machine: per file part the
//! pipeline checks the part's filename, asks the image service for a fresh
//! identifier, derives the destination path from the identifier and the
//! filename's extension, and streams the part's bytes to the opened file.
//! The driver performs each returned action — pulling parts and chunks,
//! minting, opening, writing, closing — and feeds the outcome back as the
//! next event; the decisions themselves all stand here.

use vstd::prelude::*;

use crate::category::opt_view;
use crate::error::ApiError;
use crate::object_id::{hex_of, ObjectId};

verus! {

/// The extension of a filename: the characters after the last dot, or
/// nothing when the filename has no dot.
pub open spec fn extension_of_spec(s: Seq<char>) -> Option<Seq<char>>
    decreases s.len(),
{
    if s.len() == 0 {
        None
    } else if s[s.len() - 1] == '.' {
        Some(Seq::<char>::empty())
    } else {
        match extension_of_spec(s.drop_last()) {
            Some(e) => Some(e.push(s[s.len() - 1])),
            None => None,
        }
    }
}

/// A filename whose last dot stands at `k` has the characters after `k` as
/// its extension.
proof fn lemma_extension_at(s: Seq<char>, k: int)
    requires
        0 <= k < s.len(),
        s[k] == '.',
        forall|j: int| k < j < s.len() ==> s[j] != '.',
    ensures
        extension_of_spec(s) == Some(s.subrange(k + 1, s.len() as int)),
    decreases s.len(),
{
    if k == s.len() - 1 {
        assert(s.subrange(k + 1, s.len() as int) =~= Seq::<char>::empty());
    } else {
        assert(s[s.len() - 1] != '.');
        let t = s.drop_last();
        assert(t[k] == s[k]);
        lemma_extension_at(t, k);
        assert(t.subrange(k + 1, t.len() as int).push(s[s.len() - 1]) =~= s.subrange(
            k + 1,
            s.len() as int,
        ));
    }
}

/// A filename without a dot has no extension.
proof fn lemma_no_dot_no_extension(s: Seq<char>)
    requires
        forall|j: int| 0 <= j < s.len() ==> s[j] != '.',
    ensures
        extension_of_spec(s) is None,
    decreases s.len(),
{
    if s.len() > 0 {
        lemma_no_dot_no_extension(s.drop_last());
    }
}

/// The extension of an uploaded filename: the substring after the last dot,
/// or nothing when the filename has no dot.
pub fn extension_of(filename: &str) -> (r: Option<String>)
    ensures
        r is Some <==> extension_of_spec(filename@) is Some,
        r is Some ==> Some(r->0@) == extension_of_spec(filename@),
{
    let n = filename.unicode_len();
    let mut i: usize = n;
    while i > 0
        invariant
            i <= n,
            n as nat == filename@.len(),
            forall|j: int| i <= j < n ==> filename@[j] != '.',
        decreases i,
    {
        i = i - 1;
        let c = filename.get_char(i);
        if c == '.' {
            let ext = filename.substring_char(i + 1, n);
            proof {
                lemma_extension_at(filename@, i as int);
            }
            return Some(ext.to_owned());
        }
    }
    proof {
        lemma_no_dot_no_extension(filename@);
    }
    None
}

/// The destination path of an uploaded file: the images directory, the
/// identifier's hex form, a dot, and the original filename's extension.
pub open spec fn image_path_spec(id: Seq<char>, ext: Seq<char>) -> Seq<char> {
    "images/"@ + id + "."@ + ext
}

/// Build the destination path for an identifier and an extension.
pub fn image_path(id: &str, ext: &str) -> (r: String)
    ensures
        r@ == image_path_spec(id@, ext@),
{
    let mut s = String::from_str("images/");
    s.append(id);
    s.append(".");
    s.append(ext);
    s
}

/// The pipeline's position, per request. `AwaitingPart` remembers the hex
/// identifier of the last committed part: the response reports only that one,
/// however many parts were sent.
pub enum UploadState {
    AwaitingPart { last_id: String },
    IdentifierPending { filename: String },
    Opening { id: String },
    Streaming { id: String },
    Done { id: String },
    Failed { err: ApiError },
}

/// The mathematical form of a pipeline state.
pub enum UploadStateV {
    AwaitingPart { last_id: Seq<char> },
    IdentifierPending { filename: Seq<char> },
    Opening { id: Seq<char> },
    Streaming { id: Seq<char> },
    Done { id: Seq<char> },
    Failed { err: ApiError },
}

impl View for UploadState {
    type V = UploadStateV;

    open spec fn view(&self) -> UploadStateV {
        match self {
            UploadState::AwaitingPart { last_id } => UploadStateV::AwaitingPart {
                last_id: last_id@,
            },
            UploadState::IdentifierPending { filename } => UploadStateV::IdentifierPending {
                filename: filename@,
            },
            UploadState::Opening { id } => UploadStateV::Opening { id: id@ },
            UploadState::Streaming { id } => UploadStateV::Streaming { id: id@ },
            UploadState::Done { id } => UploadStateV::Done { id: id@ },
            UploadState::Failed { err } => UploadStateV::Failed { err: *err },
        }
    }
}

/// What the driver reports to the pipeline: the next part (with the filename
/// from its content-disposition metadata, if any) or the end of the stream;
/// the outcome of minting an identifier, of opening the destination file, and
/// of writing one chunk; and the end of a part's byte stream.
pub enum UploadEvent {
    PartBegin { filename: Option<String> },
    PartsDone,
    Minted { id: ObjectId },
    MintFailed,
    Opened,
    OpenFailed,
    ChunkWritten,
    ChunkFailed,
    PartEnd,
}

/// The mathematical form of a driver event.
pub enum UploadEventV {
    PartBegin { filename: Option<Seq<char>> },
    PartsDone,
    Minted { id: Seq<u8> },
    MintFailed,
    Opened,
    OpenFailed,
    ChunkWritten,
    ChunkFailed,
    PartEnd,
}

impl View for UploadEvent {
    type V = UploadEventV;

    open spec fn view(&self) -> UploadEventV {
        match self {
            UploadEvent::PartBegin { filename } => UploadEventV::PartBegin {
                filename: opt_view(*filename),
            },
            UploadEvent::PartsDone => UploadEventV::PartsDone,
            UploadEvent::Minted { id } => UploadEventV::Minted { id: id@ },
            UploadEvent::MintFailed => UploadEventV::MintFailed,
            UploadEvent::Opened => UploadEventV::Opened,
            UploadEvent::OpenFailed => UploadEventV::OpenFailed,
            UploadEvent::ChunkWritten => UploadEventV::ChunkWritten,
            UploadEvent::ChunkFailed => UploadEventV::ChunkFailed,
            UploadEvent::PartEnd => UploadEventV::PartEnd,
        }
    }
}

/// What the driver must do next: pull the next part or chunk, mint an
/// identifier, open the destination file for exclusive creation, close the
/// finished file and pull the next part, respond with the reported
/// identifier, or fail the request.
pub enum UploadAction {
    PullPart,
    Mint,
    Open { path: String },
    PullChunk,
    CloseThenPull,
    Respond { id: String },
    Fail { err: ApiError },
}

/// The mathematical form of a driver action.
pub enum UploadActionV {
    PullPart,
    Mint,
    Open { path: Seq<char> },
    PullChunk,
    CloseThenPull,
    Respond { id: Seq<char> },
    Fail { err: ApiError },
}

impl View for UploadAction {
    type V = UploadActionV;

    open spec fn view(&self) -> UploadActionV {
        match self {
            UploadAction::PullPart => UploadActionV::PullPart,
            UploadAction::Mint => UploadActionV::Mint,
            UploadAction::Open { path } => UploadActionV::Open { path: path@ },
            UploadAction::PullChunk => UploadActionV::PullChunk,
            UploadAction::CloseThenPull => UploadActionV::CloseThenPull,
            UploadAction::Respond { id } => UploadActionV::Respond { id: id@ },
            UploadAction::Fail { err } => UploadActionV::Fail { err: *err },
        }
    }
}

/// Whether an event can arrive in a state: each event answers the action the
/// state is waiting on.
pub open spec fn event_fits(s: UploadStateV, e: UploadEventV) -> bool {
    match (s, e) {
        (UploadStateV::AwaitingPart { .. }, UploadEventV::PartBegin { .. }) => true,
        (UploadStateV::AwaitingPart { .. }, UploadEventV::PartsDone) => true,
        (UploadStateV::IdentifierPending { .. }, UploadEventV::Minted { .. }) => true,
        (UploadStateV::IdentifierPending { .. }, UploadEventV::MintFailed) => true,
        (UploadStateV::Opening { .. }, UploadEventV::Opened) => true,
        (UploadStateV::Opening { .. }, UploadEventV::OpenFailed) => true,
        (UploadStateV::Streaming { .. }, UploadEventV::ChunkWritten) => true,
        (UploadStateV::Streaming { .. }, UploadEventV::ChunkFailed) => true,
        (UploadStateV::Streaming { .. }, UploadEventV::PartEnd) => true,
        _ => false,
    }
}

/// One transition of the pipeline: the next state and the action the driver
/// must perform. A part without a filename, and one whose filename has no
/// extension, fail the request as malformed; a mint failure or a file
/// failure fails it too, with nothing cleaned up; a committed part makes its
/// identifier the one reported; the end of the stream reports the last
/// committed identifier, or the empty string when no part was committed.
pub open spec fn spec_step(s: UploadStateV, e: UploadEventV) -> (UploadStateV, UploadActionV) {
    match (s, e) {
        (UploadStateV::AwaitingPart { last_id }, UploadEventV::PartBegin { filename }) => match filename {
            Option::None => (
                UploadStateV::Failed { err: ApiError::MalformedPart },
                UploadActionV::Fail { err: ApiError::MalformedPart },
            ),
            Option::Some(f) => (
                UploadStateV::IdentifierPending { filename: f },
                UploadActionV::Mint,
            ),
        },
        (UploadStateV::AwaitingPart { last_id }, UploadEventV::PartsDone) => (
            UploadStateV::Done { id: last_id },
            UploadActionV::Respond { id: last_id },
        ),
        (UploadStateV::IdentifierPending { filename }, UploadEventV::Minted { id }) => match extension_of_spec(
            filename,
        ) {
            Option::None => (
                UploadStateV::Failed { err: ApiError::MalformedPart },
                UploadActionV::Fail { err: ApiError::MalformedPart },
            ),
            Option::Some(ext) => (
                UploadStateV::Opening { id: hex_of(id) },
                UploadActionV::Open { path: image_path_spec(hex_of(id), ext) },
            ),
        },
        (UploadStateV::IdentifierPending { .. }, UploadEventV::MintFailed) => (
            UploadStateV::Failed { err: ApiError::Store },
            UploadActionV::Fail { err: ApiError::Store },
        ),
        (UploadStateV::Opening { id }, UploadEventV::Opened) => (
            UploadStateV::Streaming { id },
            UploadActionV::PullChunk,
        ),
        (UploadStateV::Opening { .. }, UploadEventV::OpenFailed) => (
            UploadStateV::Failed { err: ApiError::Io },
            UploadActionV::Fail { err: ApiError::Io },
        ),
        (UploadStateV::Streaming { id }, UploadEventV::ChunkWritten) => (
            UploadStateV::Streaming { id },
            UploadActionV::PullChunk,
        ),
        (UploadStateV::Streaming { .. }, UploadEventV::ChunkFailed) => (
            UploadStateV::Failed { err: ApiError::Io },
            UploadActionV::Fail { err: ApiError::Io },
        ),
        (UploadStateV::Streaming { id }, UploadEventV::PartEnd) => (
            UploadStateV::AwaitingPart { last_id: id },
            UploadActionV::CloseThenPull,
        ),
        _ => (s, UploadActionV::PullPart),
    }
}

/// The pipeline's starting state: no part committed yet, so the reported
/// identifier defaults to the empty string.
pub fn initial_state() -> (r: UploadState)
    ensures
        r@ == (UploadStateV::AwaitingPart { last_id: Seq::<char>::empty() }),
{
    UploadState::AwaitingPart { last_id: String::new() }
}

/// Perform one transition.
pub fn step(state: UploadState, event: UploadEvent) -> (r: (UploadState, UploadAction))
    requires
        event_fits(state@, event@),
    ensures
        (r.0@, r.1@) == spec_step(state@, event@),
{
    match (state, event) {
        (UploadState::AwaitingPart { last_id }, UploadEvent::PartBegin { filename }) => match filename {
            Option::None => (
                UploadState::Failed { err: ApiError::MalformedPart },
                UploadAction::Fail { err: ApiError::MalformedPart },
            ),
            Option::Some(f) => (UploadState::IdentifierPending { filename: f }, UploadAction::Mint),
        },
        (UploadState::AwaitingPart { last_id }, UploadEvent::PartsDone) => {
            let reported = last_id.clone();
            (UploadState::Done { id: last_id }, UploadAction::Respond { id: reported })
        },
        (UploadState::IdentifierPending { filename }, UploadEvent::Minted { id }) => {
            match extension_of(filename.as_str()) {
                Option::None => (
                    UploadState::Failed { err: ApiError::MalformedPart },
                    UploadAction::Fail { err: ApiError::MalformedPart },
                ),
                Option::Some(ext) => {
                    let hex = id.to_hex();
                    let path = image_path(hex.as_str(), ext.as_str());
                    (UploadState::Opening { id: hex }, UploadAction::Open { path })
                },
            }
        },
        (UploadState::IdentifierPending { .. }, UploadEvent::MintFailed) => (
            UploadState::Failed { err: ApiError::Store },
            UploadAction::Fail { err: ApiError::Store },
        ),
        (UploadState::Opening { id }, UploadEvent::Opened) => (
            UploadState::Streaming { id },
            UploadAction::PullChunk,
        ),
        (UploadState::Opening { .. }, UploadEvent::OpenFailed) => (
            UploadState::Failed { err: ApiError::Io },
            UploadAction::Fail { err: ApiError::Io },
        ),
        (UploadState::Streaming { id }, UploadEvent::ChunkWritten) => (
            UploadState::Streaming { id },
            UploadAction::PullChunk,
        ),
        (UploadState::Streaming { .. }, UploadEvent::ChunkFailed) => (
            UploadState::Failed { err: ApiError::Io },
            UploadAction::Fail { err: ApiError::Io },
        ),
        (UploadState::Streaming { id }, UploadEvent::PartEnd) => (
            UploadState::AwaitingPart { last_id: id },
            UploadAction::CloseThenPull,
        ),
        _ => {
            proof {
                assert(false);
            }
            (
                UploadState::Failed { err: ApiError::Io },
                UploadAction::Fail { err: ApiError::Io },
            )
        },
    }
}

/// The state the pipeline reaches after a sequence of events.
pub open spec fn run_steps(s: UploadStateV, events: Seq<UploadEventV>) -> UploadStateV
    decreases events.len(),
{
    if events.len() == 0 {
        s
    } else {
        run_steps(spec_step(s, events[0]).0, events.skip(1))
    }
}

/// Running a concatenation of event sequences runs them one after the other.
pub proof fn lemma_run_steps_add(s: UploadStateV, a: Seq<UploadEventV>, b: Seq<UploadEventV>)
    ensures
        run_steps(s, a + b) == run_steps(run_steps(s, a), b),
    decreases a.len(),
{
    if a.len() == 0 {
        assert(a + b =~= b);
    } else {
        assert((a + b)[0] == a[0]);
        assert((a + b).skip(1) =~= a.skip(1) + b);
        lemma_run_steps_add(spec_step(s, a[0]).0, a.skip(1), b);
    }
}

/// The shape of one uploaded part: its filename, the identifier minted for
/// it, and how many chunks its byte stream yields.
pub struct PartShape {
    pub filename: Seq<char>,
    pub id: Seq<u8>,
    pub chunks: nat,
}

/// The events a part that uploads cleanly produces: the part arrives with its
/// filename, an identifier is minted, the file opens, every chunk writes, and
/// the part's stream ends.
pub open spec fn part_events(p: PartShape) -> Seq<UploadEventV> {
    seq![
        UploadEventV::PartBegin { filename: Some(p.filename) },
        UploadEventV::Minted { id: p.id },
        UploadEventV::Opened,
    ] + Seq::new(p.chunks, |i: int| UploadEventV::ChunkWritten) + seq![UploadEventV::PartEnd]
}

/// Streaming any number of chunks and ending the part commits it: the
/// pipeline waits for the next part, reporting this part's identifier.
proof fn lemma_stream_commits(id: Seq<char>, chunks: nat)
    ensures
        run_steps(
            UploadStateV::Streaming { id },
            Seq::new(chunks, |i: int| UploadEventV::ChunkWritten) + seq![UploadEventV::PartEnd],
        ) == (UploadStateV::AwaitingPart { last_id: id }),
    decreases chunks,
{
    let evs = Seq::new(chunks, |i: int| UploadEventV::ChunkWritten) + seq![UploadEventV::PartEnd];
    let s0 = UploadStateV::Streaming { id };
    let done = UploadStateV::AwaitingPart { last_id: id };
    if chunks == 0 {
        assert(evs =~= seq![UploadEventV::PartEnd]);
        assert(evs.skip(1) =~= Seq::<UploadEventV>::empty());
        assert(spec_step(s0, UploadEventV::PartEnd).0 == done);
        assert(run_steps(done, Seq::<UploadEventV>::empty()) == done);
        assert(run_steps(s0, evs) == run_steps(done, evs.skip(1)));
    } else {
        assert(evs[0] == UploadEventV::ChunkWritten);
        assert(spec_step(s0, UploadEventV::ChunkWritten).0 == s0);
        assert(run_steps(s0, evs) == run_steps(s0, evs.skip(1)));
        lemma_stream_commits(id, (chunks - 1) as nat);
        assert(evs.skip(1) =~= Seq::new((chunks - 1) as nat, |i: int| UploadEventV::ChunkWritten)
            + seq![UploadEventV::PartEnd]);
    }
}

/// A cleanly uploaded part, whose filename has an extension, leaves the
/// pipeline waiting for the next part with this part's identifier as the one
/// to report.
pub proof fn lemma_part_commits(last: Seq<char>, p: PartShape)
    requires
        extension_of_spec(p.filename) is Some,
    ensures
        run_steps(UploadStateV::AwaitingPart { last_id: last }, part_events(p))
            == (UploadStateV::AwaitingPart { last_id: hex_of(p.id) }),
{
    let evs = part_events(p);
    let head = seq![
        UploadEventV::PartBegin { filename: Some(p.filename) },
        UploadEventV::Minted { id: p.id },
        UploadEventV::Opened,
    ];
    let tail = Seq::new(p.chunks, |i: int| UploadEventV::ChunkWritten)
        + seq![UploadEventV::PartEnd];
    assert(evs =~= head + tail);
    lemma_run_steps_add(UploadStateV::AwaitingPart { last_id: last }, head, tail);
    let s0 = UploadStateV::AwaitingPart { last_id: last };
    let s1 = UploadStateV::IdentifierPending { filename: p.filename };
    let s2 = UploadStateV::Opening { id: hex_of(p.id) };
    let s3 = UploadStateV::Streaming { id: hex_of(p.id) };
    assert(head.skip(1) =~= seq![UploadEventV::Minted { id: p.id }, UploadEventV::Opened]);
    assert(head.skip(1).skip(1) =~= seq![UploadEventV::Opened]);
    assert(head.skip(1).skip(1).skip(1) =~= Seq::<UploadEventV>::empty());
    assert(spec_step(s0, head[0]).0 == s1);
    assert(run_steps(s0, head) == run_steps(s1, head.skip(1)));
    assert(spec_step(s1, head.skip(1)[0]).0 == s2);
    assert(run_steps(s1, head.skip(1)) == run_steps(s2, head.skip(1).skip(1)));
    assert(spec_step(s2, head.skip(1).skip(1)[0]).0 == s3);
    assert(run_steps(s2, head.skip(1).skip(1)) == run_steps(s3, head.skip(1).skip(1).skip(1)));
    assert(run_steps(s3, Seq::<UploadEventV>::empty()) == s3);
    assert(run_steps(s0, head) == s3);
    lemma_stream_commits(hex_of(p.id), p.chunks);
}

/// The events a whole request of cleanly uploaded parts produces, ending
/// with the exhausted stream.
pub open spec fn request_events(parts: Seq<PartShape>) -> Seq<UploadEventV>
    decreases parts.len(),
{
    if parts.len() == 0 {
        seq![UploadEventV::PartsDone]
    } else {
        part_events(parts[0]) + request_events(parts.skip(1))
    }
}

/// However many parts a request uploads, the response reports only the
/// identifier of the last part processed; a request with no parts reports
/// the identifier the pipeline started with.
pub proof fn lemma_upload_reports_last_part(last: Seq<char>, parts: Seq<PartShape>)
    requires
        forall|i: int| 0 <= i < parts.len() ==> extension_of_spec(
            (#[trigger] parts[i]).filename,
        ) is Some,
    ensures
        run_steps(UploadStateV::AwaitingPart { last_id: last }, request_events(parts)) == (
        UploadStateV::Done {
            id: if parts.len() == 0 {
                last
            } else {
                hex_of(parts.last().id)
            },
        }),
    decreases parts.len(),
{
    let s0 = UploadStateV::AwaitingPart { last_id: last };
    if parts.len() == 0 {
        let evs = request_events(parts);
        assert(evs == seq![UploadEventV::PartsDone]);
        assert(evs.skip(1) =~= Seq::<UploadEventV>::empty());
        let d = UploadStateV::Done { id: last };
        assert(spec_step(s0, UploadEventV::PartsDone).0 == d);
        assert(run_steps(d, Seq::<UploadEventV>::empty()) == d);
        assert(run_steps(s0, evs) == run_steps(d, evs.skip(1)));
    } else {
        lemma_run_steps_add(
            UploadStateV::AwaitingPart { last_id: last },
            part_events(parts[0]),
            request_events(parts.skip(1)),
        );
        lemma_part_commits(last, parts[0]);
        lemma_upload_reports_last_part(hex_of(parts[0].id), parts.skip(1));
        if parts.len() > 1 {
            assert(parts.skip(1).last() == parts.last());
        }
    }
}

/// A part with no filename in its content-disposition metadata fails the
/// request as malformed at once: the pipeline never asks the driver to open
/// or write a file for it.
pub proof fn lemma_malformed_part_writes_nothing(last: Seq<char>)
    ensures
        spec_step(
            UploadStateV::AwaitingPart { last_id: last },
            UploadEventV::PartBegin { filename: None },
        ) == (
            (UploadStateV::Failed { err: ApiError::MalformedPart }),
            (UploadActionV::Fail { err: ApiError::MalformedPart }),
        ),
{
}

} // verus!
