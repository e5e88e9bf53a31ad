//! The chunked reader: reads what a file holds beyond a given offset, line by
//! line, and cuts it into chunks that end on line boundaries.

use vstd::prelude::*;
use vstd::slice::slice_subrange;
use vstd::string::StringExecFns;
use vstd::string::StringSliceAdditionalSpecFns;
use vstd::utf8::decode_utf8;
use vstd::utf8::encode_utf8_decode_utf8;
use vstd::utf8::is_char_boundary;
use vstd::utf8::is_char_boundary_start_end_of_seq;
use vstd::utf8::is_continuation_byte;
use vstd::utf8::length_of_first_scalar;
use vstd::utf8::pop_first_scalar;
use vstd::utf8::valid_first_scalar;
use vstd::utf8::valid_utf8;
use vstd::utf8::valid_utf8_concat;
use vstd::utf8::valid_utf8_split;
use crate::error::IoError;

verus! {

/// Why reading lines or chunks failed.
#[derive(Clone, Copy, Debug, PartialEq, Eq, Structural)]
pub enum ReaderError {
    /// The file could not be read, or a line of it is not valid UTF-8.
    Io(IoError),
    /// The consumer of the chunks is gone.
    SendBytes,
    /// The consumer of the lines is gone.
    SendString,
}

/// Makes `bytes::Bytes` known to the verifier, as a buffer of which nothing
/// is seen but what `bytes_of` names.
#[verifier::external_type_specification]
#[verifier::external_body]
pub struct ExBytes(bytes::Bytes);

/// The bytes that a `bytes::Bytes` buffer holds.
pub uninterp spec fn bytes_of(buffer: bytes::Bytes) -> Seq<u8>;

/// `bytes::Bytes::copy_from_slice`, trusted to make a buffer that holds
/// exactly the bytes of the slice.
pub assume_specification[ bytes::Bytes::copy_from_slice ](data: &[u8]) -> (buffer: bytes::Bytes)
    ensures
        bytes_of(buffer) == data@,
;

/// What `str::trim_end` leaves of a text.
pub uninterp spec fn trimmed_end(text: Seq<char>) -> Seq<char>;

/// Calls `std::str::from_utf8`. Trusted: it accepts exactly the valid UTF-8
/// encodings, and the text it gives is encoded by the very bytes it took.
#[verifier::external_body]
fn from_utf8(bytes: &[u8]) -> (text: Option<&str>)
    ensures
        text is Some <==> valid_utf8(bytes@),
        text matches Some(s) ==> s.spec_bytes() == bytes@,
{
    std::str::from_utf8(bytes).ok()
}

/// Calls `str::trim_end`. Trusted: the result is the standard library's,
/// known to the proofs only under the name `trimmed_end`.
#[verifier::external_body]
fn trim_end(text: &str) -> (trimmed: String)
    ensures
        trimmed@ == trimmed_end(text@),
{
    text.trim_end().to_string()
}

/// The byte that ends a line.
pub const NEWLINE: u8 = 10;

/// The number of bytes that a chunk takes in before it is closed.
pub const BATCH_SIZE: usize = 1048576;

/// The index just past the line that starts at `from`: just past the first
/// newline at or after `from`, or the end of the data where none follows.
pub open spec fn line_end(data: Seq<u8>, from: int) -> int
    decreases data.len() - from,
{
    if from >= data.len() {
        data.len() as int
    } else if data[from] == NEWLINE {
        from + 1
    } else {
        line_end(data, from + 1)
    }
}

/// The index at which the chunk that starts at `start` is closed, given that
/// it has taken in the lines up to `at`: lines are taken in until the chunk
/// holds at least `batch` bytes or the data ends.
pub open spec fn chunk_end(data: Seq<u8>, start: int, at: int, batch: int) -> int
    decreases data.len() - at,
{
    if at < 0 || at - start >= batch || at >= data.len() {
        at
    } else {
        proof {
            lemma_line_end_bounds(data, at);
        }
        chunk_end(data, start, line_end(data, at), batch)
    }
}

/// The chunks into which the data from `from` on is cut. Nothing is cut
/// with a batch size of zero.
pub open spec fn chunks_of(data: Seq<u8>, from: int, batch: int) -> Seq<Seq<u8>>
    decreases data.len() - from,
{
    if batch <= 0 || from < 0 || from >= data.len() {
        Seq::empty()
    } else {
        proof {
            lemma_chunk_end_bounds(data, from, from, batch);
        }
        let end = chunk_end(data, from, from, batch);
        seq![data.subrange(from, end)] + chunks_of(data, end, batch)
    }
}

/// The index at which the first line from `from` on starts that is not valid
/// UTF-8; the length of the data where every line is valid.
pub open spec fn first_invalid_line(data: Seq<u8>, from: int) -> int
    decreases data.len() - from,
{
    if from < 0 || from >= data.len() {
        data.len() as int
    } else if !valid_utf8(data.subrange(from, line_end(data, from))) {
        from
    } else {
        proof {
            lemma_line_end_bounds(data, from);
        }
        first_invalid_line(data, line_end(data, from))
    }
}

/// Whether every line from `from` on is valid UTF-8.
pub open spec fn lines_valid(data: Seq<u8>, from: int) -> bool {
    first_invalid_line(data, from) == data.len()
}

/// The lines from `from` on, each decoded and without its trailing white
/// space.
pub open spec fn trimmed_lines(data: Seq<u8>, from: int) -> Seq<Seq<char>>
    decreases data.len() - from,
{
    if from < 0 || from >= data.len() {
        Seq::empty()
    } else {
        proof {
            lemma_line_end_bounds(data, from);
        }
        seq![trimmed_end(decode_utf8(data.subrange(from, line_end(data, from))))] + trimmed_lines(
            data,
            line_end(data, from),
        )
    }
}

/// What each buffer of a list holds.
pub open spec fn chunk_bytes(chunks: Seq<bytes::Bytes>) -> Seq<Seq<u8>> {
    chunks.map_values(|b: bytes::Bytes| bytes_of(b))
}

/// The text of each string of a list.
pub open spec fn texts(lines: Seq<String>) -> Seq<Seq<char>> {
    lines.map_values(|s: String| s@)
}

/// All the byte sequences of a list, one after the other.
pub open spec fn concat(parts: Seq<Seq<u8>>) -> Seq<u8>
    decreases parts.len(),
{
    if parts.len() == 0 {
        Seq::empty()
    } else {
        parts[0] + concat(parts.drop_first())
    }
}

/// A line that starts before the end of the data is not empty and ends
/// within the data.
pub proof fn lemma_line_end_bounds(data: Seq<u8>, from: int)
    requires
        0 <= from < data.len(),
    ensures
        from < line_end(data, from) <= data.len(),
    decreases data.len() - from,
{
    reveal_with_fuel(line_end, 2);
    if data[from] != NEWLINE && from + 1 < data.len() {
        lemma_line_end_bounds(data, from + 1);
    }
}

/// A chunk ends within the data, and not before the lines it has taken in;
/// one that has taken in nothing yet, with data left and a batch size above
/// zero, takes in at least one byte.
pub proof fn lemma_chunk_end_bounds(data: Seq<u8>, start: int, at: int, batch: int)
    requires
        0 <= start <= at <= data.len(),
    ensures
        at <= chunk_end(data, start, at, batch) <= data.len(),
        batch > 0 && at < data.len() && at == start ==> start < chunk_end(data, start, at, batch),
    decreases data.len() - at,
{
    if !(at - start >= batch || at >= data.len()) {
        lemma_line_end_bounds(data, at);
        lemma_chunk_end_bounds(data, start, line_end(data, at), batch);
    }
}

/// Whether a line that starts at `from` may end at `end`: `end` lies just
/// past a newline, or at the end of the data.
pub open spec fn is_line_boundary(data: Seq<u8>, from: int, end: int) -> bool {
    from < end <= data.len() && (end == data.len() || data[end - 1] == NEWLINE)
}

/// A line ends at the first line boundary after its start: it holds no
/// newline but, at most, its last byte.
pub proof fn lemma_line_end_is_first_boundary(data: Seq<u8>, from: int)
    requires
        0 <= from < data.len(),
    ensures
        is_line_boundary(data, from, line_end(data, from)),
        forall|i: int| from <= i < line_end(data, from) - 1 ==> data[i] != NEWLINE,
    decreases data.len() - from,
{
    reveal_with_fuel(line_end, 2);
    if data[from] != NEWLINE && from + 1 < data.len() {
        lemma_line_end_is_first_boundary(data, from + 1);
    }
}

/// A chunk that starts at `start` with data left is closed at a line
/// boundary, holds at least `batch` bytes unless it reaches the end of the
/// data, and would hold less than `batch` bytes without its last line: no
/// line boundary before its end leaves it `batch` bytes.
pub proof fn lemma_chunk_end_is_least(data: Seq<u8>, start: int, batch: int)
    requires
        0 <= start < data.len(),
        batch > 0,
    ensures
        is_line_boundary(data, start, chunk_end(data, start, start, batch)),
        chunk_end(data, start, start, batch) - start >= batch || chunk_end(
            data,
            start,
            start,
            batch,
        ) == data.len(),
        forall|e: int|
            is_line_boundary(data, start, e) && e < chunk_end(data, start, start, batch) ==> e
                - start < batch,
{
    lemma_line_end_bounds(data, start);
    lemma_line_end_is_first_boundary(data, start);
    lemma_chunk_end_from(data, start, line_end(data, start), batch);
    assert forall|e: int|
        is_line_boundary(data, start, e) && e < chunk_end(
            data,
            start,
            start,
            batch,
        ) implies e - start < batch by {
        if e < line_end(data, start) {
            assert(data[e - 1] == NEWLINE);
        }
    }
}

/// The same, for a chunk that has already taken in the lines up to the line
/// boundary `at`.
proof fn lemma_chunk_end_from(data: Seq<u8>, start: int, at: int, batch: int)
    requires
        0 <= start < at <= data.len(),
        is_line_boundary(data, start, at),
        batch > 0,
    ensures
        is_line_boundary(data, start, chunk_end(data, start, at, batch)),
        chunk_end(data, start, at, batch) - start >= batch || chunk_end(data, start, at, batch)
            == data.len(),
        forall|e: int|
            is_line_boundary(data, start, e) && at <= e < chunk_end(data, start, at, batch) ==> e
                - start < batch,
    decreases data.len() - at,
{
    if !(at - start >= batch || at >= data.len()) {
        lemma_line_end_bounds(data, at);
        lemma_line_end_is_first_boundary(data, at);
        let next = line_end(data, at);
        lemma_chunk_end_from(data, start, next, batch);
        assert forall|e: int|
            is_line_boundary(data, start, e) && at <= e < chunk_end(
                data,
                start,
                at,
                batch,
            ) implies e - start < batch by {
            if at < e < next {
                assert(data[e - 1] == NEWLINE);
            }
        }
    }
}

/// The chunks hold what was read, byte for byte and in order: put one after
/// the other they are the data from `from` on. None of them is empty.
pub proof fn lemma_chunks_cover(data: Seq<u8>, from: int, batch: int)
    requires
        0 <= from <= data.len(),
        batch > 0,
    ensures
        concat(chunks_of(data, from, batch)) == data.subrange(from, data.len() as int),
        forall|i: int|
            0 <= i < chunks_of(data, from, batch).len() ==> #[trigger] chunks_of(
                data,
                from,
                batch,
            )[i].len() > 0,
    decreases data.len() - from,
{
    if from < data.len() {
        lemma_chunk_end_bounds(data, from, from, batch);
        let end = chunk_end(data, from, from, batch);
        lemma_chunks_cover(data, end, batch);
        let all = chunks_of(data, from, batch);
        let rest = chunks_of(data, end, batch);
        assert(all.drop_first() == rest);
        assert(data.subrange(from, end) + data.subrange(end, data.len() as int) == data.subrange(
            from,
            data.len() as int,
        ));
        assert forall|i: int| 0 <= i < all.len() implies #[trigger] all[i].len() > 0 by {
            if i > 0 {
                assert(all[i] == rest[i - 1]);
            }
        }
    } else {
        assert(data.subrange(from, data.len() as int) == Seq::<u8>::empty());
    }
}

/// In valid UTF-8 a newline is a character of its own, so the index just
/// past a newline is a character boundary.
proof fn lemma_boundary_after_newline(bytes: Seq<u8>, end: int)
    requires
        valid_utf8(bytes),
        0 < end <= bytes.len(),
        bytes[end - 1] == NEWLINE,
    ensures
        is_char_boundary(bytes, end),
    decreases bytes.len(),
{
    let n = length_of_first_scalar(bytes);
    let rest = pop_first_scalar(bytes);
    assert(valid_first_scalar(bytes));
    assert(valid_utf8(rest));
    if end - 1 < n {
        assert(!is_continuation_byte(bytes[end - 1]));
        assert(end == 1);
        assert(n == 1);
        assert(is_char_boundary(rest, 0));
    } else {
        assert(rest[end - n - 1] == bytes[end - 1]);
        lemma_boundary_after_newline(rest, end - n);
    }
}

/// Every line is valid UTF-8 exactly where the whole is: a newline never
/// lies inside the encoding of a character, so cutting after newlines
/// neither breaks a valid encoding nor mends a broken one.
pub proof fn lemma_lines_valid_iff_valid_utf8(data: Seq<u8>, from: int)
    requires
        0 <= from <= data.len(),
    ensures
        lines_valid(data, from) <==> valid_utf8(data.subrange(from, data.len() as int)),
    decreases data.len() - from,
{
    let len = data.len() as int;
    let rest = data.subrange(from, len);
    if from < len {
        lemma_line_end_bounds(data, from);
        lemma_line_end_is_first_boundary(data, from);
        let end = line_end(data, from);
        let line = data.subrange(from, end);
        let after = data.subrange(end, len);
        lemma_lines_valid_iff_valid_utf8(data, end);
        assert(line + after == rest);
        assert(rest.subrange(0, end - from) == line);
        assert(rest.subrange(end - from, rest.len() as int) == after);
        if valid_utf8(rest) {
            if end < len {
                assert(rest[end - from - 1] == data[end - 1]);
                lemma_boundary_after_newline(rest, end - from);
            } else {
                is_char_boundary_start_end_of_seq(rest);
            }
            valid_utf8_split(rest, end - from);
        }
        if valid_utf8(line) && valid_utf8(after) {
            valid_utf8_concat(line, after);
        }
    } else {
        assert(rest.len() == 0);
    }
}

/// A reader over what a file holds from a given offset on. It keeps the
/// offset of the next byte to read, as a buffered reader on the file would.
pub struct LogReader {
    start: u64,
    data: Vec<u8>,
    cursor: usize,
}

impl LogReader {
    /// The cursor lies within the data, and the offset of the end of the
    /// data fits the offset type.
    pub closed spec fn wf(&self) -> bool {
        &&& self.cursor <= self.data.len()
        &&& self.start + self.data.len() <= u64::MAX
    }

    /// The offset in the file at which the data of this reader starts.
    pub closed spec fn start(&self) -> int {
        self.start as int
    }

    /// What the file holds from `start` on.
    pub closed spec fn data(&self) -> Seq<u8> {
        self.data@
    }

    /// How many bytes of the data have been read.
    pub closed spec fn cursor(&self) -> int {
        self.cursor as int
    }

    /// The offset in the file of the next byte to read.
    pub open spec fn position(&self) -> int {
        self.start() + self.cursor()
    }

    /// What is left to read.
    pub open spec fn remaining(&self) -> Seq<u8> {
        self.data().subrange(self.cursor(), self.data().len() as int)
    }

    /// The same file content, seen from the same offset.
    pub open spec fn same_source(&self, other: &LogReader) -> bool {
        self.start() == other.start() && self.data() == other.data()
    }

    /// The offset in the file of the next byte to read.
    pub fn stream_position(&self) -> (position: u64)
        requires
            self.wf(),
        ensures
            position == self.position(),
    {
        self.start + (self.cursor as u64)
    }

    /// Moves past the next line and returns the index at which it ends.
    fn skip_line(&mut self) -> (end: usize)
        requires
            old(self).wf(),
        ensures
            final(self).wf(),
            final(self).same_source(old(self)),
            final(self).cursor() == end,
            end == line_end(old(self).data(), old(self).cursor()),
    {
        let n = self.data.len();
        let mut i = self.cursor;
        let mut found = false;
        while i < n && !found
            invariant
                self.cursor <= i <= n,
                n == self.data.len(),
                !found ==> line_end(self.data@, i as int) == line_end(
                    self.data@,
                    self.cursor as int,
                ),
                found ==> i == line_end(self.data@, self.cursor as int),
            decreases n - i,
        {
            if self.data[i] == NEWLINE {
                found = true;
            }
            i += 1;
        }
        self.cursor = i;
        i
    }

    /// Reads the next line, up to and including its newline, and appends its
    /// text to `line`. It returns the number of bytes read, which is zero
    /// only at the end of the data. A line that is not valid UTF-8 is read
    /// past and leaves `line` as it was.
    pub fn read_line(&mut self, line: &mut String) -> (read: Result<usize, IoError>)
        requires
            old(self).wf(),
        ensures
            final(self).wf(),
            final(self).same_source(old(self)),
            final(self).cursor() == line_end(old(self).data(), old(self).cursor()),
            ({
                let bytes = old(self).data().subrange(old(self).cursor(), final(self).cursor());
                match read {
                    Ok(n) => n == bytes.len() && valid_utf8(bytes) && final(line)@ == old(line)@
                        + decode_utf8(bytes),
                    Err(e) => e == IoError::InvalidData && !valid_utf8(bytes) && final(line)@
                        == old(line)@,
                }
            }),
    {
        let begin = self.cursor;
        proof {
            if begin < self.data.len() {
                lemma_line_end_bounds(self.data@, begin as int);
            }
        }
        let end = self.skip_line();
        let bytes = slice_subrange(self.data.as_slice(), begin, end);
        match from_utf8(bytes) {
            Some(text) => {
                proof {
                    encode_utf8_decode_utf8(text@);
                }
                line.append(text);
                Ok(end - begin)
            },
            None => Err(IoError::InvalidData),
        }
    }
}

/// A reader over `data`, which is what a file holds from offset `position`
/// on. It fails where the end of the data lies beyond the largest offset.
pub fn get_reader(data: Vec<u8>, position: u64) -> (reader: Result<LogReader, IoError>)
    ensures
        match reader {
            Ok(r) => {
                &&& position + data.len() <= u64::MAX
                &&& r.wf()
                &&& r.start() == position
                &&& r.data() == data@
                &&& r.cursor() == 0
            },
            Err(e) => e == IoError::Other && position + data.len() > u64::MAX,
        },
{
    if data.len() as u64 > u64::MAX - position {
        Err(IoError::Other)
    } else {
        Ok(LogReader { start: position, data, cursor: 0 })
    }
}

/// Reads every line that is left and returns each without its trailing
/// white space. `line` is the buffer that each line passes through; it is
/// empty afterwards. Reading stops at the first line that is not valid
/// UTF-8, just past that line.
pub fn read_single_lines(reader: &mut LogReader, line: &mut String) -> (sent: Result<
    Vec<String>,
    ReaderError,
>)
    requires
        old(reader).wf(),
    ensures
        final(reader).wf(),
        final(reader).same_source(old(reader)),
        final(line)@ == Seq::<char>::empty(),
        ({
            let data = old(reader).data();
            let from = old(reader).cursor();
            match sent {
                Ok(lines) => {
                    &&& valid_utf8(old(reader).remaining())
                    &&& texts(lines@) == trimmed_lines(data, from)
                    &&& final(reader).cursor() == data.len()
                },
                Err(e) => {
                    &&& e == ReaderError::Io(IoError::InvalidData)
                    &&& !valid_utf8(old(reader).remaining())
                    &&& final(reader).cursor() == line_end(data, first_invalid_line(data, from))
                },
            }
        }),
{
    let ghost data = reader.data();
    let ghost from = reader.cursor();
    proof {
        lemma_lines_valid_iff_valid_utf8(data, from);
    }
    let mut lines: Vec<String> = Vec::new();
    loop
        invariant
            reader.wf(),
            reader.same_source(old(reader)),
            data == old(reader).data(),
            from == old(reader).cursor(),
            lines_valid(data, from) <==> valid_utf8(data.subrange(from, data.len() as int)),
            from <= reader.cursor() <= data.len(),
            first_invalid_line(data, reader.cursor()) == first_invalid_line(data, from),
            texts(lines@) + trimmed_lines(data, reader.cursor()) == trimmed_lines(data, from),
        decreases data.len() - reader.cursor(),
    {
        *line = String::new();
        let ghost before = reader.cursor();
        proof {
            if before < data.len() {
                lemma_line_end_bounds(data, before);
            }
        }
        match reader.read_line(line) {
            Ok(n) => {
                if n == 0 {
                    assert(data.subrange(before, before).len() == 0);
                    assert(before == data.len());
                    assert(trimmed_lines(data, before) == Seq::<Seq<char>>::empty());
                    assert(texts(lines@) == trimmed_lines(data, from));
                    *line = String::new();
                    return Ok(lines);
                }
                let trimmed = trim_end(line.as_str());
                let ghost earlier = lines@;
                lines.push(trimmed);
                assert(texts(lines@) == texts(earlier) + seq![trimmed@]);
                assert(texts(lines@) + trimmed_lines(data, reader.cursor()) == trimmed_lines(
                    data,
                    from,
                ));
            },
            Err(_) => {
                *line = String::new();
                return Err(ReaderError::Io(IoError::InvalidData));
            },
        }
    }
}

/// Reads every line that is left and returns what was read as chunks, in
/// order. A chunk is closed as soon as it holds at least `batch_size`
/// bytes, so a line is never split; the last chunk holds what was left.
/// The bytes are taken as they are, whatever they encode, and reading them
/// never fails: put together, the chunks are what was left to read. With a
/// batch size of zero nothing is read.
pub fn read_chunk(reader: &mut LogReader, batch_size: usize) -> (sent: Result<
    Vec<bytes::Bytes>,
    ReaderError,
>)
    requires
        old(reader).wf(),
    ensures
        final(reader).wf(),
        final(reader).same_source(old(reader)),
        0 <= old(reader).cursor() <= old(reader).data().len(),
        sent matches Ok(chunks) && {
            &&& chunk_bytes(chunks@) == chunks_of(
                old(reader).data(),
                old(reader).cursor(),
                batch_size as int,
            )
            &&& batch_size > 0 ==> concat(chunk_bytes(chunks@)) == old(reader).remaining()
            &&& final(reader).cursor() == if batch_size == 0 {
                old(reader).cursor()
            } else {
                old(reader).data().len() as int
            }
        },
{
    let ghost data = reader.data();
    let ghost from = reader.cursor();
    proof {
        if batch_size > 0 {
            lemma_chunks_cover(data, from, batch_size as int);
        }
    }
    let mut chunks: Vec<bytes::Bytes> = Vec::new();
    loop
        invariant
            reader.wf(),
            reader.same_source(old(reader)),
            data == old(reader).data(),
            from == old(reader).cursor(),
            from <= reader.cursor() <= data.len(),
            batch_size > 0 ==> concat(chunks_of(data, from, batch_size as int)) == data.subrange(
                from,
                data.len() as int,
            ),
            chunk_bytes(chunks@) + chunks_of(data, reader.cursor(), batch_size as int)
                == chunks_of(data, from, batch_size as int),
            batch_size == 0 ==> reader.cursor() == from,
        decreases data.len() - reader.cursor(),
    {
        let begin = reader.cursor;
        let mut bytes_read: usize = 0;
        while bytes_read < batch_size && reader.cursor < reader.data.len()
            invariant
                reader.wf(),
                reader.same_source(old(reader)),
                data == old(reader).data(),
                begin <= reader.cursor() <= data.len(),
                bytes_read == reader.cursor() - begin,
                chunk_end(data, begin as int, reader.cursor(), batch_size as int) == chunk_end(
                    data,
                    begin as int,
                    begin as int,
                    batch_size as int,
                ),
            decreases data.len() - reader.cursor(),
        {
            let before = reader.cursor;
            proof {
                lemma_line_end_bounds(data, before as int);
            }
            let end = reader.skip_line();
            bytes_read += end - before;
        }
        if bytes_read == 0 {
            proof {
                if batch_size > 0 {
                    lemma_chunk_end_bounds(data, begin as int, begin as int, batch_size as int);
                }
            }
            return Ok(chunks);
        }
        let end = reader.cursor;
        let chunk = bytes::Bytes::copy_from_slice(
            slice_subrange(reader.data.as_slice(), begin, end),
        );
        let ghost earlier = chunks@;
        chunks.push(chunk);
        assert(chunk_bytes(chunks@) == chunk_bytes(earlier) + seq![
            data.subrange(begin as int, end as int),
        ]);
    }
}

} // verus!
