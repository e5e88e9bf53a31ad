//! The dispatch loop: for each changed path, whether it is read and from
//! where, what becomes of what was read, and what is uploaded. The caller
//! receives the batches and reads the files.

use vstd::prelude::*;
use crate::client::Client;
use crate::client::Hik8sClientError;
use crate::client::Uploader;
use crate::error::IoError;
use crate::event::ChangeBatch;
use crate::form::create_form_data;
use crate::form::metadata_for;
use crate::form::form_parts;
use crate::form::metadata_text;
use crate::form::FormDataError;
use crate::form::UploadEnvelope;
use crate::path::excluded;
use crate::path::is_excluded;
use crate::positions::offset_in;
use crate::positions::PositionMap;
use crate::reader::chunk_bytes;
use crate::reader::chunks_of;
use crate::reader::get_reader;
use crate::reader::read_chunk;
use crate::reader::ReaderError;
use crate::reader::BATCH_SIZE;

verus! {

/// Why a receive on the channel of batches gave no batch.
#[derive(Clone, Copy, Debug, PartialEq, Eq, Structural)]
pub enum RecvTimeoutError {
    /// No batch came in time.
    Timeout,
    /// The sender is gone.
    Disconnected,
}

/// Why the dispatch loop ended abnormally, or why a path was passed over.
#[derive(Clone, Debug, PartialEq, Eq)]
pub enum ReadThreadError {
    /// The file could not be opened or read.
    IoError(IoError),
    /// The upload failed.
    Hik8sClient(Hik8sClientError),
    /// Logging could not be set up.
    TracingSetup,
    /// The channel of batches gave out.
    RecvTimeout(RecvTimeoutError),
    /// No envelope could be made.
    FormData(FormDataError),
    /// What was read could not be cut into chunks.
    Reader(ReaderError),
}

/// How long a receive waits for the next batch, in milliseconds.
pub const RECEIVE_TIMEOUT_MS: u64 = 500;

/// The order to read a file from an offset to its end.
pub struct ReadRequest {
    pub path: String,
    pub offset: u64,
}

/// The offset from which `path` is read next: none for a path that is
/// excluded, else the offset tracked for it, which is 0 for a new path.
pub open spec fn planned_offset(positions: Map<Seq<char>, u64>, path: Seq<char>) -> Option<u64> {
    if excluded(path) {
        None
    } else {
        Some(offset_in(positions, path))
    }
}

/// What a read gave, as mathematics.
pub open spec fn read_view(read: Result<Vec<u8>, IoError>) -> Result<Seq<u8>, IoError> {
    match read {
        Ok(data) => Ok(data@),
        Err(e) => Err(e),
    }
}

/// Why what was read from `offset` on cannot be taken in: the read failed,
/// or the bytes reach beyond the largest offset. `None` where it can: the
/// bytes themselves are never a reason.
pub open spec fn refusal(offset: u64, read: Result<Seq<u8>, IoError>) -> Option<ReadThreadError> {
    match read {
        Err(e) => Some(ReadThreadError::IoError(e)),
        Ok(data) => if offset + data.len() > u64::MAX {
            Some(ReadThreadError::IoError(IoError::Other))
        } else {
            None
        },
    }
}

/// The tracked offsets after a read cycle on `path`: bytes that are taken
/// in move the offset of the path forward by their number; a read that is
/// refused changes nothing.
pub open spec fn positions_after(
    positions: Map<Seq<char>, u64>,
    path: Seq<char>,
    read: Result<Seq<u8>, IoError>,
) -> Map<Seq<char>, u64> {
    match read {
        Ok(data) => if refusal(offset_in(positions, path), read) is None {
            positions.insert(path, (offset_in(positions, path) + data.len()) as u64)
        } else {
            positions
        },
        Err(_) => positions,
    }
}

/// Decides whether `path` is read. A path with the excluded extension is
/// never read; any other is read from the offset tracked for it.
pub fn plan_read(path: &String, positions: &PositionMap) -> (request: Option<ReadRequest>)
    requires
        positions.wf(),
    ensures
        request is Some <==> !excluded(path@),
        request matches Some(r) ==> r.path@ == path@ && Some(r.offset) == planned_offset(
            positions@,
            path@,
        ),
{
    if is_excluded(path) {
        None
    } else {
        Some(ReadRequest { path: path.clone(), offset: positions.get(path) })
    }
}

/// Takes in what was read for `request`: `read` is what the file held from
/// the tracked offset of the path to its end, or why the file could not be
/// opened or read. Bytes that are taken in advance the tracked offset of
/// the path by their number, so that it never decreases, and make the
/// stream of the envelope, chunk by chunk; the envelope carries them all,
/// in order. A read that is refused leaves the tracker as it was. Where the
/// path gives no metadata, the offset has advanced all the same.
pub fn read_and_track_files(
    positions: &mut PositionMap,
    request: &ReadRequest,
    read: Result<Vec<u8>, IoError>,
) -> (envelope: Result<UploadEnvelope, ReadThreadError>)
    requires
        old(positions).wf(),
    ensures
        final(positions).wf(),
        final(positions)@ == positions_after(old(positions)@, request.path@, read_view(read)),
        final(positions).offset_of(request.path@) >= old(positions).offset_of(request.path@),
        match refusal(old(positions).offset_of(request.path@), read_view(read)) {
            Some(e) => envelope == Err::<UploadEnvelope, ReadThreadError>(e),
            None => match metadata_text(request.path@) {
                None => envelope == Err::<UploadEnvelope, ReadThreadError>(
                    ReadThreadError::FormData(FormDataError::NoFileName),
                ),
                Some(metadata) => {
                    &&& envelope matches Ok(e)
                    &&& carries(e, metadata, read.unwrap()@)
                },
            },
        },
{
    let data = match read {
        Ok(data) => data,
        Err(e) => {
            return Err(ReadThreadError::IoError(e));
        },
    };
    let ghost bytes = data@;
    let offset = positions.get(&request.path);
    let mut reader = match get_reader(data, offset) {
        Ok(reader) => reader,
        Err(e) => {
            return Err(ReadThreadError::IoError(e));
        },
    };
    let stream = match read_chunk(&mut reader, BATCH_SIZE) {
        Ok(stream) => stream,
        Err(e) => {
            return Err(ReadThreadError::Reader(e));
        },
    };
    assert(bytes.subrange(0, bytes.len() as int) == bytes);
    positions.set(&request.path, reader.stream_position());
    match metadata_for(&request.path) {
        Some(metadata) => Ok(create_form_data(metadata, stream)),
        None => Err(ReadThreadError::FormData(FormDataError::NoFileName)),
    }
}

/// Whether an envelope carries the given metadata and exactly the given
/// bytes, cut into chunks at the batch size, as a form of the two parts
/// `metadata` and `stream`.
pub open spec fn carries(envelope: UploadEnvelope, metadata: Seq<char>, data: Seq<u8>) -> bool {
    &&& envelope.metadata@ == metadata
    &&& chunk_bytes(envelope.stream@) == chunks_of(data, 0, BATCH_SIZE as int)
    &&& envelope.body() == data
    &&& envelope.parts() == form_parts(metadata, chunks_of(data, 0, BATCH_SIZE as int))
}

/// What became of one path of a batch.
#[derive(Clone, Debug, PartialEq, Eq)]
pub enum PathOutcome {
    /// Nothing was uploaded: the file could not be opened or read, or what
    /// was read was refused.
    Unread(ReadThreadError),
    /// The envelope was uploaded.
    Uploaded,
    /// The upload failed. The offset has advanced all the same.
    UploadFailed(Hik8sClientError),
}

/// What became of a path whose envelope was handed to the client, given
/// what the client answered.
pub fn upload_outcome(answer: Result<(), Hik8sClientError>) -> (outcome: PathOutcome)
    ensures
        outcome == match answer {
            Ok(_) => PathOutcome::Uploaded,
            Err(e) => PathOutcome::UploadFailed(e),
        },
{
    match answer {
        Ok(_) => PathOutcome::Uploaded,
        Err(e) => PathOutcome::UploadFailed(e),
    }
}

/// Carries one path of a batch through: takes in what was read for
/// `request`, and has the client of `client` upload the envelope to `route`,
/// which the record of the uploader shows. The tracker
/// ends as `read_and_track_files` leaves it, whatever the client answers. A
/// read that gives no envelope is not uploaded: the client is handed
/// nothing. Every other read is handed to the client exactly once, as an
/// envelope that carries the bytes read, and the outcome is what
/// `upload_outcome` makes of the client's answer.
pub fn read_file_and_send_data<C: Client>(
    client: &mut Uploader<C>,
    route: &str,
    positions: &mut PositionMap,
    request: &ReadRequest,
    read: Result<Vec<u8>, IoError>,
) -> (outcome: PathOutcome)
    requires
        old(positions).wf(),
    ensures
        final(positions).wf(),
        final(positions)@ == positions_after(old(positions)@, request.path@, read_view(read)),
        final(positions).offset_of(request.path@) >= old(positions).offset_of(request.path@),
        match refusal(old(positions).offset_of(request.path@), read_view(read)) {
            Some(e) => {
                &&& outcome == PathOutcome::Unread(e)
                &&& final(client).handed() == old(client).handed()
            },
            None => match metadata_text(request.path@) {
                None => {
                    &&& outcome == PathOutcome::Unread(
                        ReadThreadError::FormData(FormDataError::NoFileName),
                    )
                    &&& final(client).handed() == old(client).handed()
                },
                Some(metadata) => {
                    &&& outcome is Uploaded || outcome is UploadFailed
                    &&& final(client).handed().len() == old(client).handed().len() + 1
                    &&& final(client).handed().drop_last() == old(client).handed()
                    &&& carries(final(client).handed().last(), metadata, read.unwrap()@)
                },
            },
        },
{
    match read_and_track_files(positions, request, read) {
        Ok(envelope) => {
            let answer = client.upload(route, envelope);
            assert(client.handed().drop_last() == old(client).handed());
            upload_outcome(answer)
        },
        Err(e) => PathOutcome::Unread(e),
    }
}

/// What came of a receive on the channel of batches.
pub enum Received {
    /// A batch, possibly empty.
    Batch(ChangeBatch),
    /// No batch came in time.
    Timeout,
    /// The sender is gone.
    Disconnected,
}

/// What the caller of the dispatch loop is to do next.
pub enum DispatchAction {
    /// Wait this many milliseconds for the next batch.
    Receive(u64),
    /// Carry each path of this batch through, one after the other.
    Process(ChangeBatch),
    /// Return without error.
    Stop,
    /// Return with this error.
    Fail(ReadThreadError),
}

/// Decides the top of a round of the dispatch loop: with the termination
/// signal set the loop returns, else it waits for the next batch, for a
/// bounded time.
pub fn before_receive(terminated: bool) -> (action: DispatchAction)
    ensures
        action == if terminated {
            DispatchAction::Stop
        } else {
            DispatchAction::Receive(RECEIVE_TIMEOUT_MS)
        },
{
    if terminated {
        DispatchAction::Stop
    } else {
        DispatchAction::Receive(RECEIVE_TIMEOUT_MS)
    }
}

/// Decides what follows a receive: a batch is processed; after a timeout
/// the loop goes round again, which looks at the termination signal first;
/// a sender that is gone is fatal.
pub fn after_receive(received: Received, terminated: bool) -> (action: DispatchAction)
    ensures
        action == match received {
            Received::Batch(batch) => DispatchAction::Process(batch),
            Received::Timeout => if terminated {
                DispatchAction::Stop
            } else {
                DispatchAction::Receive(RECEIVE_TIMEOUT_MS)
            },
            Received::Disconnected => DispatchAction::Fail(
                ReadThreadError::RecvTimeout(RecvTimeoutError::Disconnected),
            ),
        },
{
    match received {
        Received::Batch(batch) => DispatchAction::Process(batch),
        Received::Timeout => before_receive(terminated),
        Received::Disconnected => DispatchAction::Fail(
            ReadThreadError::RecvTimeout(RecvTimeoutError::Disconnected),
        ),
    }
}

/// What a file holds beyond `offset`; nothing where the file is shorter.
pub open spec fn unread(file: Seq<u8>, offset: int) -> Seq<u8> {
    if 0 <= offset <= file.len() {
        file.subrange(offset, file.len() as int)
    } else {
        Seq::empty()
    }
}

/// The tracked offsets after a series of read cycles on one path.
pub open spec fn positions_after_cycles(
    positions: Map<Seq<char>, u64>,
    path: Seq<char>,
    reads: Seq<Result<Seq<u8>, IoError>>,
) -> Map<Seq<char>, u64>
    decreases reads.len(),
{
    if reads.len() == 0 {
        positions
    } else {
        positions_after(
            positions_after_cycles(positions, path, reads.drop_last()),
            path,
            reads.last(),
        )
    }
}

/// The bytes that a series of read cycles took in, in order: what the
/// envelopes of those cycles carry, one after the other.
pub open spec fn bytes_taken(
    positions: Map<Seq<char>, u64>,
    path: Seq<char>,
    reads: Seq<Result<Seq<u8>, IoError>>,
) -> Seq<u8>
    decreases reads.len(),
{
    if reads.len() == 0 {
        Seq::empty()
    } else {
        let before = positions_after_cycles(positions, path, reads.drop_last());
        let earlier = bytes_taken(positions, path, reads.drop_last());
        if refusal(offset_in(before, path), reads.last()) is None {
            earlier + reads.last().unwrap()
        } else {
            earlier
        }
    }
}

/// The reads of a series of cycles on one file, of which `files` gives the
/// content at the time of each cycle: each cycle reads what the file holds
/// beyond the offset that the cycles before it left.
pub open spec fn cycle_reads(
    positions: Map<Seq<char>, u64>,
    path: Seq<char>,
    files: Seq<Seq<u8>>,
) -> Seq<Result<Seq<u8>, IoError>>
    decreases files.len(),
{
    if files.len() == 0 {
        Seq::empty()
    } else {
        let earlier = cycle_reads(positions, path, files.drop_last());
        let before = positions_after_cycles(positions, path, earlier);
        earlier.push(Ok(unread(files.last(), offset_in(before, path) as int)))
    }
}

/// Whether a file only grew from each cycle to the next.
pub open spec fn only_grows(files: Seq<Seq<u8>>) -> bool {
    forall|i: int, j: int|
        0 <= i <= j < files.len() ==> (#[trigger] files[i]).is_prefix_of(#[trigger] files[j])
}

/// A read cycle never lowers the tracked offset of its path. Where the
/// read is taken in, the offset grows by the bytes read; for a file that
/// was read from its tracked offset to its end, it is then the length of
/// the file.
pub proof fn lemma_offset_advances(
    positions: Map<Seq<char>, u64>,
    path: Seq<char>,
    read: Result<Seq<u8>, IoError>,
    file: Seq<u8>,
)
    ensures
        offset_in(positions_after(positions, path, read), path) >= offset_in(positions, path),
        refusal(offset_in(positions, path), read) is None ==> offset_in(
            positions_after(positions, path, read),
            path,
        ) == offset_in(positions, path) + read.unwrap().len(),
        refusal(offset_in(positions, path), read) is None && offset_in(positions, path)
            <= file.len() && read.unwrap() == unread(file, offset_in(positions, path) as int)
            ==> offset_in(positions_after(positions, path, read), path) == file.len(),
{
}

/// Over any series of read cycles on one path, the tracked offset never
/// decreases: after more cycles it is at least what it was after fewer.
pub proof fn lemma_offsets_never_decrease(
    positions: Map<Seq<char>, u64>,
    path: Seq<char>,
    reads: Seq<Result<Seq<u8>, IoError>>,
    fewer: int,
    more: int,
)
    requires
        0 <= fewer <= more <= reads.len(),
    ensures
        offset_in(positions_after_cycles(positions, path, reads.take(fewer)), path) <= offset_in(
            positions_after_cycles(positions, path, reads.take(more)),
            path,
        ),
    decreases more - fewer,
{
    if fewer < more {
        lemma_offsets_never_decrease(positions, path, reads, fewer, more - 1);
        assert(reads.take(more).drop_last() == reads.take(more - 1));
    }
}

/// After any series of read cycles on one path, the tracked offset is the
/// offset before them plus the bytes that were taken in, whatever those
/// bytes are.
pub proof fn lemma_offsets_cumulative(
    positions: Map<Seq<char>, u64>,
    path: Seq<char>,
    reads: Seq<Result<Seq<u8>, IoError>>,
)
    ensures
        offset_in(positions_after_cycles(positions, path, reads), path) == offset_in(
            positions,
            path,
        ) + bytes_taken(positions, path, reads).len(),
    decreases reads.len(),
{
    if reads.len() > 0 {
        lemma_offsets_cumulative(positions, path, reads.drop_last());
    }
}

/// No byte is delivered twice and none is left out: over any number of
/// cycles on a file that only grows, each cycle starts at the offset at
/// which the one before it ended, every read is taken in, and the bytes
/// taken in, one cycle after the other, are what the file holds at the last
/// cycle beyond the offset at which the first began. The tracked offset is
/// then the length of the file: the bytes written so far.
pub proof fn lemma_no_redelivery(
    positions: Map<Seq<char>, u64>,
    path: Seq<char>,
    files: Seq<Seq<u8>>,
)
    requires
        files.len() > 0,
        only_grows(files),
        offset_in(positions, path) <= files[0].len(),
        files.last().len() <= u64::MAX,
    ensures
        ({
            let reads = cycle_reads(positions, path, files);
            let after = positions_after_cycles(positions, path, reads);
            &&& reads.len() == files.len()
            &&& offset_in(after, path) == files.last().len()
            &&& bytes_taken(positions, path, reads) == unread(
                files.last(),
                offset_in(positions, path) as int,
            )
        }),
    decreases files.len(),
{
    let start = offset_in(positions, path) as int;
    let earlier_files = files.drop_last();
    let earlier = cycle_reads(positions, path, earlier_files);
    let before = positions_after_cycles(positions, path, earlier);
    let reads = cycle_reads(positions, path, files);
    let last = files.last();
    assert(reads.drop_last() == earlier);
    assert(reads.last() == Ok::<Seq<u8>, IoError>(unread(last, offset_in(before, path) as int)));
    if earlier_files.len() == 0 {
        assert(before == positions);
        assert(bytes_taken(positions, path, earlier) == Seq::<u8>::empty());
        assert(Seq::<u8>::empty() + unread(last, start) == unread(last, start));
    } else {
        assert(only_grows(earlier_files)) by {
            assert forall|i: int, j: int| 0 <= i <= j < earlier_files.len() implies (
            #[trigger] earlier_files[i]).is_prefix_of(#[trigger] earlier_files[j]) by {
                assert(files[i].is_prefix_of(files[j]));
            }
        }
        assert(earlier_files[0] == files[0]);
        let middle = earlier_files.last();
        assert(middle == files[files.len() - 2]);
        assert(files[0].is_prefix_of(files[files.len() - 2]));
        assert(middle.is_prefix_of(files[files.len() - 1]));
        lemma_no_redelivery(positions, path, earlier_files);
        assert(unread(middle, start) + unread(last, middle.len() as int) == unread(last, start));
    }
}

/// One path does not stand in the way of another: whatever comes of the
/// read of one path, be it a failure to open the file, every other path is
/// planned as before, from the same offset.
pub proof fn lemma_isolation(
    positions: Map<Seq<char>, u64>,
    path: Seq<char>,
    read: Result<Seq<u8>, IoError>,
    other: Seq<char>,
)
    requires
        other != path,
    ensures
        planned_offset(positions_after(positions, path, read), other) == planned_offset(
            positions,
            other,
        ),
{
}

} // verus!
