//! The entry decoder: a state machine that is fed chunks of the archive and
//! gives out its entries one at a time.

use crate::circular_buffer::lemma_most_recent_push;
use crate::circular_buffer::most_recent;
use crate::circular_buffer::CircularBuffer;
use crate::codec::decompress;
use crate::codec::inflated;
use crate::codec::unpacked;
use crate::codec::Unpacked;
use crate::error::ZipError;
use crate::framing::body_start;
use crate::framing::describes;
use crate::framing::first_marker_end;
use crate::framing::frame;
use crate::framing::frame_body;
use crate::framing::header_bytes;
use crate::framing::lemma_header_bytes_frame;
use crate::framing::lemma_sized_entry_frames;
use crate::framing::lemma_streamed_entry_frames;
use crate::framing::sized_entry;
use crate::framing::streamed_entry;
use crate::framing::lemma_marker_end_is;
use crate::framing::lemma_marker_extend;
use crate::framing::lemma_marker_found;
use crate::framing::lemma_no_marker_so_far;
use crate::framing::lemma_scan_one_more;
use crate::framing::marker_ends_at;
use crate::framing::Framed;
use crate::header::classify_signature;
use crate::header::decode_local_header;
use crate::header::header_of;
use crate::header::matches_descriptor_marker;
use crate::header::signature_kind;
use crate::header::LocalFileHeader;
use crate::header::SignatureKind;
use crate::header::DESCRIPTOR_TAIL_LEN;
use crate::header::FIXED_FIELDS_LEN;
use crate::header::SIGNATURE_LEN;
use crate::read_buffer::ReadBuffer;
use crate::text::decode_lossy;
use crate::text::hex_lower;
use crate::text::to_hex;
use crate::text::utf8_lossy;
use vstd::prelude::*;
use vstd::utf8::decode_utf8;
use vstd::utf8::encode_utf8;
use vstd::utf8::encode_utf8_decode_utf8;
use vstd::utf8::encode_utf8_valid_utf8;
use vstd::utf8::valid_utf8;

verus! {

/// How many payload bytes a scan for a data descriptor goes through before it
/// gives up, unless the decoder is told otherwise.
pub const DEFAULT_SCAN_LIMIT: usize = 100_000_000;

/// One decoded entry. It belongs to the caller: the decoder keeps nothing of it.
#[derive(Debug)]
pub struct ZipEntry {
    /// The entry's name, as text.
    pub filename: String,
    /// The size the header declares for the content. It is not checked
    /// against `data`.
    pub uncompressed_size: u32,
    /// The content.
    pub data: Vec<u8>,
}

/// One entry as it stands in the archive, before its name is read as text and
/// its payload is decompressed.
#[derive(Debug)]
pub struct RawEntry {
    /// The fields of the local file header.
    pub header: LocalFileHeader,
    /// The bytes of the name.
    pub filename: Vec<u8>,
    /// The payload as stored.
    pub payload: Vec<u8>,
}

/// What the decoder answers when it is asked for the next entry.
#[derive(Debug)]
pub enum Step<T> {
    /// Nothing can be said yet. Pull up to this many bytes from the source,
    /// hand over what came, and ask again.
    Pull(usize),
    /// The next entry.
    Entry(T),
    /// There are no more entries.
    End,
    /// Decoding failed, and the decoder has finished.
    Error(ZipError),
}

/// The decoder as its callers see it.
pub struct DecoderState {
    /// The bytes handed over so far that belong to no entry given out yet.
    pub pending: Seq<u8>,
    /// Whether the source has signalled its end.
    pub ended: bool,
    /// Whether the decoder has finished: it will give out no more entries.
    pub finished: bool,
}

/// The state of a decoder that has finished.
pub open spec fn finished_state(ended: bool) -> DecoderState {
    DecoderState { pending: Seq::empty(), ended, finished: true }
}

/// What the content of an entry is, given its header and its stored payload.
/// An entry of known size 0 has no content, whatever its method.
pub open spec fn entry_content(header: LocalFileHeader, payload: Seq<u8>) -> Unpacked {
    if !header.streamed() && header.compressed_size == 0 {
        Unpacked::Content(Seq::empty())
    } else {
        unpacked(header.compression, payload)
    }
}

/// Whether `out` is what decoding makes of a raw entry with these parts.
pub open spec fn decoded(
    header: LocalFileHeader,
    name: Seq<u8>,
    payload: Seq<u8>,
    out: Result<ZipEntry, ZipError>,
) -> bool {
    match entry_content(header, payload) {
        Unpacked::Content(content) => {
            &&& out matches Ok(entry)
            &&& entry.filename@ == utf8_lossy(name)
            &&& valid_utf8(name) ==> entry.filename@ == decode_utf8(name)
            &&& entry.uncompressed_size == header.uncompressed_size
            &&& entry.data@ == content
        },
        Unpacked::Corrupt => out matches Err(ZipError::Decompression(_)),
        Unpacked::Unsupported(method) => out == Err::<ZipEntry, ZipError>(
            ZipError::UnsupportedMethod(method),
        ),
    }
}

impl RawEntry {
    /// Reads the name as text and decompresses the payload by the header's
    /// method.
    pub fn decode(self) -> (out: Result<ZipEntry, ZipError>)
        ensures
            decoded(self.header, self.filename@, self.payload@, out),
    {
        let filename = decode_lossy(self.filename.as_slice());
        let data = if !self.header.has_data_descriptor() && self.header.compressed_size == 0 {
            Vec::new()
        } else {
            match decompress(self.header.compression, self.payload) {
                Ok(data) => data,
                Err(e) => {
                    return Err(e);
                },
            }
        };
        Ok(ZipEntry { filename, uncompressed_size: self.header.uncompressed_size, data })
    }
}

/// The state of a decoder that has given out an entry of `consumed` bytes.
pub open spec fn advanced_state(before: DecoderState, consumed: int) -> DecoderState {
    DecoderState { pending: before.pending.skip(consumed), ended: before.ended, finished: false }
}

/// Whether `step` and `after` are the decoder's answer and its new state
/// where the pending bytes hold no whole entry: it asks for more, reports the
/// end of the entries, or fails, as `framed` says. An error finishes the
/// decoder, and so does the end of the entries.
pub open spec fn halts<T>(
    framed: Framed,
    before: DecoderState,
    chunk_size: usize,
    step: Step<T>,
    after: DecoderState,
) -> bool {
    match framed {
        Framed::Incomplete => if before.ended {
            step == Step::<T>::Error(ZipError::UnexpectedEof) && after == finished_state(
                before.ended,
            )
        } else {
            step == Step::<T>::Pull(chunk_size) && after == before
        },
        Framed::End => step is End && after == finished_state(before.ended),
        Framed::BadSignature => {
            &&& step matches Step::Error(ZipError::InvalidSignature(text))
            &&& text@ == hex_lower(before.pending.take(4))
            &&& after == finished_state(before.ended)
        },
        Framed::NoDescriptor => step == Step::<T>::Error(ZipError::DescriptorNotFound) && after
            == finished_state(before.ended),
        Framed::Record { .. } => false,
    }
}

/// Whether `step` and `after` are the decoder's answer and its new state when
/// it is asked for the next raw entry in state `before`.
pub open spec fn record_step(
    before: DecoderState,
    chunk_size: usize,
    limit: nat,
    step: Step<RawEntry>,
    after: DecoderState,
) -> bool {
    if before.finished {
        step is End && after == before
    } else {
        match frame(before.pending, limit) {
            Framed::Record { header, name, payload, consumed } => {
                &&& step matches Step::Entry(raw)
                &&& raw.header == header
                &&& raw.filename@ == name
                &&& raw.payload@ == payload
                &&& after == advanced_state(before, consumed)
            },
            framed => halts(framed, before, chunk_size, step, after),
        }
    }
}

/// Whether `step` and `after` are the decoder's answer and its new state when
/// it is asked for the next entry in state `before`. An entry whose payload
/// cannot be decompressed finishes the decoder.
pub open spec fn entry_step(
    before: DecoderState,
    chunk_size: usize,
    limit: nat,
    step: Step<ZipEntry>,
    after: DecoderState,
) -> bool {
    if before.finished {
        step is End && after == before
    } else {
        match frame(before.pending, limit) {
            Framed::Record { header, name, payload, consumed } => match entry_content(
                header,
                payload,
            ) {
                Unpacked::Content(content) => {
                    &&& step matches Step::Entry(entry)
                    &&& entry.filename@ == utf8_lossy(name)
                    &&& valid_utf8(name) ==> entry.filename@ == decode_utf8(name)
                    &&& entry.uncompressed_size == header.uncompressed_size
                    &&& entry.data@ == content
                    &&& after == advanced_state(before, consumed)
                },
                Unpacked::Corrupt => step matches Step::Error(ZipError::Decompression(_))
                    && after == finished_state(before.ended),
                Unpacked::Unsupported(method) => step == Step::<ZipEntry>::Error(
                    ZipError::UnsupportedMethod(method),
                ) && after == finished_state(before.ended),
            },
            framed => halts(framed, before, chunk_size, step, after),
        }
    }
}

/// What the decoder is waiting for.
#[derive(Clone, Copy, Debug, PartialEq, Eq, Structural)]
enum Phase {
    /// The four bytes of a signature, at an entry boundary.
    Signature,
    /// The fixed fields that follow a local-file signature.
    Fields,
    /// The bytes of the name.
    Name,
    /// The extra field.
    Extra,
    /// The payload of an entry whose header gives its size.
    Sized,
    /// The data-descriptor marker, one payload byte at a time.
    Scanning,
    /// The twelve bytes that follow the marker.
    Trailer,
    /// Nothing: decoding is over.
    Finished,
}

/// The streaming decoder. It does no I/O of its own: whoever owns the source
/// pulls chunks from it and hands them over with `supply`.
pub struct MuyZipido {
    input: ReadBuffer,
    chunk_size: usize,
    scan_limit: usize,
    phase: Phase,
    header: LocalFileHeader,
    name: Vec<u8>,
    acc: Vec<u8>,
    window: CircularBuffer<u8>,
    taken: Ghost<Seq<u8>>,
}

/// Whether `taken`, the bytes of an entry read so far, begin with a local-file
/// signature and the fields of `h`.
spec fn header_read(taken: Seq<u8>, h: LocalFileHeader) -> bool {
    &&& taken.len() >= 30
    &&& signature_kind(taken.take(4)) == SignatureKind::LocalFile
    &&& h == header_of(taken.subrange(4, 30))
}

/// Whether `taken` holds the whole header of an entry named `name`, up to the
/// start of its payload.
spec fn name_read(taken: Seq<u8>, h: LocalFileHeader, name: Seq<u8>) -> bool {
    &&& header_read(taken, h)
    &&& taken.len() >= 30 + h.filename_len
    &&& name == taken.subrange(30, 30 + h.filename_len)
}

/// Bytes read later leave the header that was read as it is.
proof fn lemma_header_read_extend(taken: Seq<u8>, more: Seq<u8>, h: LocalFileHeader)
    requires
        header_read(taken, h),
    ensures
        header_read(taken + more, h),
{
    assert((taken + more).take(4) =~= taken.take(4));
    assert((taken + more).subrange(4, 30) =~= taken.subrange(4, 30));
}

/// Bytes read later leave the header and the name that were read as they are.
proof fn lemma_name_read_extend(taken: Seq<u8>, more: Seq<u8>, h: LocalFileHeader, name: Seq<u8>)
    requires
        name_read(taken, h, name),
    ensures
        name_read(taken + more, h, name),
{
    lemma_header_read_extend(taken, more, h);
    assert((taken + more).subrange(30, 30 + h.filename_len) =~= taken.subrange(
        30,
        30 + h.filename_len,
    ));
}

/// Once the header is read, what the pending bytes hold is what follows it.
proof fn lemma_frame_after_header(taken: Seq<u8>, rest: Seq<u8>, h: LocalFileHeader, limit: nat)
    requires
        header_read(taken, h),
    ensures
        frame(taken + rest, limit) == frame_body(taken + rest, h, limit),
{
    lemma_header_read_extend(taken, rest, h);
}

/// The header a decoder holds while it is between entries.
fn blank_header() -> (h: LocalFileHeader)
    ensures
        h == zero_header(),
{
    LocalFileHeader {
        version_needed: 0,
        flags: 0,
        compression: 0,
        mod_time: 0,
        mod_date: 0,
        crc32: 0,
        compressed_size: 0,
        uncompressed_size: 0,
        filename_len: 0,
        extra_len: 0,
    }
}

/// The header whose every field is zero: version, flags, method, time, date,
/// checksum, both sizes and both lengths.
spec fn zero_header() -> LocalFileHeader {
    LocalFileHeader {
        version_needed: 0,
        flags: 0,
        compression: 0,
        mod_time: 0,
        mod_date: 0,
        crc32: 0,
        compressed_size: 0,
        uncompressed_size: 0,
        filename_len: 0,
        extra_len: 0,
    }
}

/// Takes `size` bytes from `input`, or says why it cannot: the caller must
/// pull more, or the source has ended.
fn read_exact(input: &mut ReadBuffer, size: usize, chunk_size: usize) -> (r: Result<
    Vec<u8>,
    Step<RawEntry>,
>)
    requires
        old(input).wf(),
    ensures
        final(input).wf(),
        final(input).spec_ended() == old(input).spec_ended(),
        match r {
            Ok(bytes) => {
                &&& size <= old(input)@.len()
                &&& bytes@ == old(input)@.take(size as int)
                &&& final(input)@ == old(input)@.skip(size as int)
            },
            Err(step) => {
                &&& size > old(input)@.len()
                &&& final(input)@ == old(input)@
                &&& step == if old(input).spec_ended() {
                    Step::<RawEntry>::Error(ZipError::UnexpectedEof)
                } else {
                    Step::<RawEntry>::Pull(chunk_size)
                }
            },
        },
{
    match input.require(size) {
        Ok(true) => Ok(input.take(size)),
        Ok(false) => Err(Step::Pull(chunk_size)),
        Err(e) => Err(Step::Error(e)),
    }
}

impl View for MuyZipido {
    type V = DecoderState;

    closed spec fn view(&self) -> DecoderState {
        DecoderState {
            pending: if self.phase == Phase::Finished {
                Seq::empty()
            } else {
                self.taken@ + self.input@
            },
            ended: self.input.spec_ended(),
            finished: self.phase == Phase::Finished,
        }
    }
}

impl MuyZipido {
    /// The representation invariant: what the decoder remembers of the entry
    /// it is in the middle of agrees with the bytes it has read of it.
    pub closed spec fn wf(&self) -> bool {
        &&& self.input.wf()
        &&& self.window.wf()
        &&& self.window.spec_capacity() == 4
        &&& match self.phase {
            Phase::Signature => self.taken@.len() == 0,
            Phase::Fields => self.taken@.len() == 4 && signature_kind(self.taken@)
                == SignatureKind::LocalFile,
            Phase::Name => header_read(self.taken@, self.header) && self.taken@.len() == 30,
            Phase::Extra => name_read(self.taken@, self.header, self.name@) && self.taken@.len()
                == 30 + self.header.filename_len,
            Phase::Sized => {
                &&& name_read(self.taken@, self.header, self.name@)
                &&& self.taken@.len() == body_start(self.header)
                &&& !self.header.streamed()
            },
            Phase::Scanning => {
                &&& name_read(self.taken@, self.header, self.name@)
                &&& self.taken@.len() == body_start(self.header) + self.acc@.len()
                &&& self.header.streamed()
                &&& self.acc@ == self.taken@.skip(body_start(self.header))
                &&& self.window@ == most_recent(self.acc@, 4)
                &&& self.acc@.len() <= self.scan_limit
                &&& forall|k: int| 4 <= k <= self.acc@.len() ==> !marker_ends_at(self.acc@, k)
            },
            Phase::Trailer => {
                &&& name_read(self.taken@, self.header, self.name@)
                &&& self.taken@.len() == body_start(self.header) + self.acc@.len() + 4
                &&& self.header.streamed()
                &&& self.acc@ == self.taken@.subrange(
                    body_start(self.header),
                    body_start(self.header) + self.acc@.len(),
                )
                &&& self.acc@.len() + 4 <= self.scan_limit + 1
                &&& first_marker_end(
                    self.taken@.skip(body_start(self.header)),
                    self.acc@.len() as int + 4,
                )
            },
            Phase::Finished => true,
        }
    }

    /// How many bytes the decoder asks for in one pull.
    pub closed spec fn spec_chunk_size(&self) -> usize {
        self.chunk_size
    }

    /// How many payload bytes a scan for a data descriptor goes through
    /// before it gives up.
    pub closed spec fn spec_scan_limit(&self) -> usize {
        self.scan_limit
    }

    /// A decoder at the start of an archive, which will ask for `chunk_size`
    /// bytes at a time.
    pub fn new(chunk_size: usize) -> (decoder: Self)
        ensures
            decoder.wf(),
            decoder@ == (DecoderState { pending: Seq::empty(), ended: false, finished: false }),
            decoder.spec_chunk_size() == chunk_size,
            decoder.spec_scan_limit() == DEFAULT_SCAN_LIMIT,
    {
        MuyZipido::with_scan_limit(chunk_size, DEFAULT_SCAN_LIMIT)
    }

    /// A decoder like that of `new`, whose scans for a data descriptor give up
    /// once they have gone through more than `scan_limit` payload bytes.
    pub fn with_scan_limit(chunk_size: usize, scan_limit: usize) -> (decoder: Self)
        ensures
            decoder.wf(),
            decoder@ == (DecoderState { pending: Seq::empty(), ended: false, finished: false }),
            decoder.spec_chunk_size() == chunk_size,
            decoder.spec_scan_limit() == scan_limit,
    {
        let decoder = MuyZipido {
            input: ReadBuffer::new(),
            chunk_size,
            scan_limit,
            phase: Phase::Signature,
            header: blank_header(),
            name: Vec::new(),
            acc: Vec::new(),
            window: CircularBuffer::new(SIGNATURE_LEN),
            taken: Ghost(Seq::empty()),
        };
        assert(decoder@.pending =~= Seq::<u8>::empty());
        decoder
    }

    /// Hands over what one pull from the source returned; an empty chunk says
    /// that the source has ended. A decoder that has finished ignores it.
    pub fn supply(&mut self, chunk: &[u8])
        requires
            old(self).wf(),
        ensures
            final(self).wf(),
            final(self).spec_chunk_size() == old(self).spec_chunk_size(),
            final(self).spec_scan_limit() == old(self).spec_scan_limit(),
            final(self)@ == if old(self)@.finished {
                old(self)@
            } else {
                DecoderState {
                    pending: old(self)@.pending + chunk@,
                    ended: old(self)@.ended || chunk@.len() == 0,
                    finished: false,
                }
            },
    {
        if self.phase != Phase::Finished {
            self.input.supply(chunk);
            assert(self@.pending =~= old(self)@.pending + chunk@);
        }
    }

    /// Whether the decoder has finished.
    pub fn is_finished(&self) -> (finished: bool)
        ensures
            finished == self@.finished,
    {
        self.phase == Phase::Finished
    }

    /// How many bytes the decoder asks for in one pull.
    pub fn chunk_size(&self) -> (n: usize)
        ensures
            n == self.spec_chunk_size(),
    {
        self.chunk_size
    }

    /// How many payload bytes a scan for a data descriptor goes through
    /// before it gives up.
    pub fn scan_limit(&self) -> (n: usize)
        ensures
            n == self.spec_scan_limit(),
    {
        self.scan_limit
    }

    /// Ends decoding and lets go of what was buffered for the entry at hand.
    fn finish(&mut self)
        requires
            old(self).input.wf(),
            old(self).window.wf(),
            old(self).window.spec_capacity() == 4,
        ensures
            final(self).wf(),
            final(self)@ == finished_state(old(self).input.spec_ended()),
            final(self).spec_chunk_size() == old(self).spec_chunk_size(),
            final(self).spec_scan_limit() == old(self).spec_scan_limit(),
    {
        self.phase = Phase::Finished;
        self.name = Vec::new();
        self.acc = Vec::new();
    }

    /// Ends decoding if the step that could not be taken is an error.
    fn stall(&mut self, step: Step<RawEntry>) -> (same: Step<RawEntry>)
        requires
            old(self).wf(),
            !old(self)@.finished,
            step == if old(self)@.ended {
                Step::<RawEntry>::Error(ZipError::UnexpectedEof)
            } else {
                Step::<RawEntry>::Pull(old(self).spec_chunk_size())
            },
        ensures
            same == step,
            final(self).wf(),
            final(self).spec_chunk_size() == old(self).spec_chunk_size(),
            final(self).spec_scan_limit() == old(self).spec_scan_limit(),
            final(self)@ == if old(self)@.ended {
                finished_state(true)
            } else {
                old(self)@
            },
    {
        match step {
            Step::Error(e) => {
                self.finish();
                Step::Error(e)
            },
            other => other,
        }
    }

    fn on_signature(&mut self) -> (r: Option<Step<RawEntry>>)
        requires
            old(self).wf(),
            old(self).phase == Phase::Signature,
        ensures
            final(self).wf(),
            final(self).spec_chunk_size() == old(self).spec_chunk_size(),
            final(self).spec_scan_limit() == old(self).spec_scan_limit(),
            match r {
                Some(step) => record_step(
                    old(self)@,
                    old(self).spec_chunk_size(),
                    old(self).spec_scan_limit() as nat,
                    step,
                    final(self)@,
                ),
                None => final(self)@ == old(self)@ && final(self).phase == Phase::Fields,
            },
    {
        assert(self@.pending =~= self.input@);
        match read_exact(&mut self.input, SIGNATURE_LEN, self.chunk_size) {
            Err(step) => Some(self.stall(step)),
            Ok(sig) => {
                match classify_signature(sig.as_slice()) {
                    SignatureKind::LocalFile => {
                        self.taken = Ghost(sig@);
                        self.phase = Phase::Fields;
                        assert(self@.pending =~= old(self)@.pending);
                        assert(sig@.take(4) =~= sig@);
                        None
                    },
                    SignatureKind::Unknown => {
                        let text = to_hex(sig.as_slice());
                        self.finish();
                        Some(Step::Error(ZipError::InvalidSignature(text)))
                    },
                    _ => {
                        self.finish();
                        Some(Step::End)
                    },
                }
            },
        }
    }

    fn on_fields(&mut self) -> (r: Option<Step<RawEntry>>)
        requires
            old(self).wf(),
            old(self).phase == Phase::Fields,
        ensures
            final(self).wf(),
            final(self).spec_chunk_size() == old(self).spec_chunk_size(),
            final(self).spec_scan_limit() == old(self).spec_scan_limit(),
            match r {
                Some(step) => record_step(
                    old(self)@,
                    old(self).spec_chunk_size(),
                    old(self).spec_scan_limit() as nat,
                    step,
                    final(self)@,
                ),
                None => final(self)@ == old(self)@ && final(self).phase == Phase::Name,
            },
    {
        let ghost pending = self@.pending;
        assert(pending.take(4) =~= self.taken@);
        match read_exact(&mut self.input, FIXED_FIELDS_LEN, self.chunk_size) {
            Err(step) => Some(self.stall(step)),
            Ok(fields) => {
                self.header = decode_local_header(fields.as_slice());
                self.taken = Ghost(self.taken@ + fields@);
                self.phase = Phase::Name;
                assert(self@.pending =~= pending);
                assert(self.taken@.take(4) =~= old(self).taken@);
                assert(self.taken@.subrange(4, 30) =~= fields@);
                None
            },
        }
    }

    fn on_name(&mut self) -> (r: Option<Step<RawEntry>>)
        requires
            old(self).wf(),
            old(self).phase == Phase::Name,
        ensures
            final(self).wf(),
            final(self).spec_chunk_size() == old(self).spec_chunk_size(),
            final(self).spec_scan_limit() == old(self).spec_scan_limit(),
            match r {
                Some(step) => record_step(
                    old(self)@,
                    old(self).spec_chunk_size(),
                    old(self).spec_scan_limit() as nat,
                    step,
                    final(self)@,
                ),
                None => final(self)@ == old(self)@ && final(self).phase == Phase::Extra,
            },
    {
        let ghost pending = self@.pending;
        proof {
            lemma_frame_after_header(
                self.taken@,
                self.input@,
                self.header,
                self.scan_limit as nat,
            );
        }
        match read_exact(&mut self.input, self.header.filename_len as usize, self.chunk_size) {
            Err(step) => Some(self.stall(step)),
            Ok(name) => {
                proof {
                    lemma_header_read_extend(self.taken@, name@, self.header);
                }
                self.taken = Ghost(self.taken@ + name@);
                self.name = name;
                self.phase = Phase::Extra;
                assert(self@.pending =~= pending);
                assert(self.taken@.subrange(30, 30 + self.header.filename_len) =~= self.name@);
                None
            },
        }
    }

    fn on_extra(&mut self) -> (r: Option<Step<RawEntry>>)
        requires
            old(self).wf(),
            old(self).phase == Phase::Extra,
        ensures
            final(self).wf(),
            final(self).spec_chunk_size() == old(self).spec_chunk_size(),
            final(self).spec_scan_limit() == old(self).spec_scan_limit(),
            match r {
                Some(step) => record_step(
                    old(self)@,
                    old(self).spec_chunk_size(),
                    old(self).spec_scan_limit() as nat,
                    step,
                    final(self)@,
                ),
                None => final(self)@ == old(self)@ && (final(self).phase == Phase::Sized
                    || final(self).phase == Phase::Scanning),
            },
    {
        let ghost pending = self@.pending;
        proof {
            lemma_frame_after_header(
                self.taken@,
                self.input@,
                self.header,
                self.scan_limit as nat,
            );
        }
        match read_exact(&mut self.input, self.header.extra_len as usize, self.chunk_size) {
            Err(step) => Some(self.stall(step)),
            Ok(extra) => {
                proof {
                    lemma_name_read_extend(self.taken@, extra@, self.header, self.name@);
                }
                self.taken = Ghost(self.taken@ + extra@);
                assert(self@.pending =~= pending);
                if self.header.has_data_descriptor() {
                    self.acc.clear();
                    self.window.clear();
                    self.phase = Phase::Scanning;
                    assert(self.acc@ =~= self.taken@.skip(body_start(self.header)));
                    assert(self.window@ =~= most_recent(self.acc@, 4));
                } else {
                    self.phase = Phase::Sized;
                }
                None
            },
        }
    }

    fn on_sized(&mut self) -> (step: Step<RawEntry>)
        requires
            old(self).wf(),
            old(self).phase == Phase::Sized,
        ensures
            final(self).wf(),
            final(self).spec_chunk_size() == old(self).spec_chunk_size(),
            final(self).spec_scan_limit() == old(self).spec_scan_limit(),
            record_step(
                old(self)@,
                old(self).spec_chunk_size(),
                old(self).spec_scan_limit() as nat,
                step,
                final(self)@,
            ),
    {
        let ghost pending = self@.pending;
        proof {
            lemma_frame_after_header(
                self.taken@,
                self.input@,
                self.header,
                self.scan_limit as nat,
            );
            lemma_name_read_extend(self.taken@, self.input@, self.header, self.name@);
        }
        let payload = if self.header.compressed_size > 0 {
            match read_exact(
                &mut self.input,
                self.header.compressed_size as usize,
                self.chunk_size,
            ) {
                Err(step) => {
                    return self.stall(step);
                },
                Ok(payload) => payload,
            }
        } else {
            Vec::new()
        };
        let mut filename = Vec::new();
        std::mem::swap(&mut filename, &mut self.name);
        self.taken = Ghost(Seq::empty());
        self.phase = Phase::Signature;
        let ghost end = body_start(self.header) + self.header.compressed_size;
        assert(payload@ =~= pending.subrange(body_start(self.header), end));
        assert(self@.pending =~= pending.skip(end));
        Step::Entry(RawEntry { header: self.header, filename, payload })
    }

    fn on_trailer(&mut self) -> (step: Step<RawEntry>)
        requires
            old(self).wf(),
            old(self).phase == Phase::Trailer,
        ensures
            final(self).wf(),
            final(self).spec_chunk_size() == old(self).spec_chunk_size(),
            final(self).spec_scan_limit() == old(self).spec_scan_limit(),
            record_step(
                old(self)@,
                old(self).spec_chunk_size(),
                old(self).spec_scan_limit() as nat,
                step,
                final(self)@,
            ),
    {
        let ghost pending = self@.pending;
        let ghost start = body_start(self.header);
        let ghost k = self.acc@.len() as int + 4;
        proof {
            lemma_frame_after_header(
                self.taken@,
                self.input@,
                self.header,
                self.scan_limit as nat,
            );
            lemma_name_read_extend(self.taken@, self.input@, self.header, self.name@);
            assert(pending.skip(start) =~= self.taken@.skip(start) + self.input@);
            lemma_marker_extend(self.taken@.skip(start), self.input@, k);
            lemma_marker_end_is(pending.skip(start), k);
        }
        match read_exact(&mut self.input, DESCRIPTOR_TAIL_LEN, self.chunk_size) {
            Err(step) => self.stall(step),
            Ok(_) => {
                let mut filename = Vec::new();
                std::mem::swap(&mut filename, &mut self.name);
                let mut payload = Vec::new();
                std::mem::swap(&mut payload, &mut self.acc);
                self.taken = Ghost(Seq::empty());
                self.phase = Phase::Signature;
                assert(payload@ =~= pending.skip(start).take(k - 4));
                assert(self@.pending =~= pending.skip(start + k + 12));
                Step::Entry(RawEntry { header: self.header, filename, payload })
            },
        }
    }

    /// Goes through the payload byte by byte, keeping the last four in the
    /// window, until the window holds the data-descriptor marker.
    fn process_with_descriptor(&mut self) -> (r: Option<Step<RawEntry>>)
        requires
            old(self).wf(),
            old(self).phase == Phase::Scanning,
        ensures
            final(self).wf(),
            final(self).spec_chunk_size() == old(self).spec_chunk_size(),
            final(self).spec_scan_limit() == old(self).spec_scan_limit(),
            match r {
                Some(step) => record_step(
                    old(self)@,
                    old(self).spec_chunk_size(),
                    old(self).spec_scan_limit() as nat,
                    step,
                    final(self)@,
                ),
                None => final(self)@ == old(self)@ && final(self).phase == Phase::Trailer,
            },
    {
        let ghost before = self@;
        let ghost start = body_start(self.header);
        loop
            invariant
                self.wf(),
                self.phase == Phase::Scanning,
                self@ == before,
                before == old(self)@,
                start == body_start(self.header),
                self.spec_chunk_size() == old(self).spec_chunk_size(),
                self.spec_scan_limit() == old(self).spec_scan_limit(),
            decreases self.input@.len(),
        {
            let ghost taken = self.taken@;
            let ghost rest = self.input@;
            let ghost scanned = self.acc@;
            proof {
                lemma_frame_after_header(taken, rest, self.header, self.scan_limit as nat);
                assert(before.pending.skip(start) =~= scanned + rest);
            }
            if self.input.available() == 0 {
                proof {
                    lemma_no_marker_so_far(scanned, rest, self.scan_limit as nat);
                }
                let step = match self.input.require(1) {
                    Err(e) => Step::Error(e),
                    _ => Step::Pull(self.chunk_size),
                };
                return Some(self.stall(step));
            }
            let byte = self.input.take_byte();
            self.acc.push(byte);
            self.window.write(byte);
            self.taken = Ghost(self.taken@.push(byte));
            proof {
                lemma_name_read_extend(taken, seq![byte], self.header, self.name@);
                assert(taken + seq![byte] =~= self.taken@);
                assert(self@.pending =~= before.pending);
                assert(self.acc@ =~= self.taken@.skip(start));
                assert(before.pending.skip(start) =~= self.acc@ + self.input@);
                lemma_most_recent_push(scanned, 4, byte);
                lemma_scan_one_more(scanned, byte);
            }
            if self.window.len() >= SIGNATURE_LEN {
                let last = self.window.get_last_n(SIGNATURE_LEN);
                if matches_descriptor_marker(last.as_slice()) {
                    proof {
                        lemma_marker_found(self.acc@, Seq::empty());
                    }
                    self.acc.truncate(self.acc.len() - SIGNATURE_LEN);
                    self.phase = Phase::Trailer;
                    assert(self.acc@ =~= self.taken@.subrange(start, start + scanned.len() - 3));
                    return None;
                }
            }
            if self.acc.len() > self.scan_limit {
                proof {
                    lemma_no_marker_so_far(self.acc@, self.input@, self.scan_limit as nat);
                }
                self.finish();
                return Some(Step::Error(ZipError::DescriptorNotFound));
            }
        }
    }

    /// Frames the next entry of the archive: header, name and stored payload,
    /// as they stand in the stream. What is returned is decided by the bytes
    /// handed over so far and by nothing else.
    pub fn next_record(&mut self) -> (step: Step<RawEntry>)
        requires
            old(self).wf(),
        ensures
            final(self).wf(),
            final(self).spec_chunk_size() == old(self).spec_chunk_size(),
            final(self).spec_scan_limit() == old(self).spec_scan_limit(),
            record_step(
                old(self)@,
                old(self).spec_chunk_size(),
                old(self).spec_scan_limit() as nat,
                step,
                final(self)@,
            ),
    {
        if self.phase == Phase::Finished {
            return Step::End;
        }
        if self.phase == Phase::Signature {
            if let Some(step) = self.on_signature() {
                return step;
            }
        }
        if self.phase == Phase::Fields {
            if let Some(step) = self.on_fields() {
                return step;
            }
        }
        if self.phase == Phase::Name {
            if let Some(step) = self.on_name() {
                return step;
            }
        }
        if self.phase == Phase::Extra {
            if let Some(step) = self.on_extra() {
                return step;
            }
        }
        if self.phase == Phase::Sized {
            return self.on_sized();
        }
        if self.phase == Phase::Scanning {
            if let Some(step) = self.process_with_descriptor() {
                return step;
            }
        }
        self.on_trailer()
    }

    /// Decodes the next entry of the archive: frames it, reads its name as
    /// text and decompresses its payload.
    pub fn next_entry(&mut self) -> (step: Step<ZipEntry>)
        requires
            old(self).wf(),
        ensures
            final(self).wf(),
            final(self).spec_chunk_size() == old(self).spec_chunk_size(),
            final(self).spec_scan_limit() == old(self).spec_scan_limit(),
            entry_step(
                old(self)@,
                old(self).spec_chunk_size(),
                old(self).spec_scan_limit() as nat,
                step,
                final(self)@,
            ),
    {
        match self.next_record() {
            Step::Pull(n) => Step::Pull(n),
            Step::End => Step::End,
            Step::Error(e) => Step::Error(e),
            Step::Entry(raw) => match raw.decode() {
                Ok(entry) => Step::Entry(entry),
                Err(e) => {
                    self.finish();
                    Step::Error(e)
                },
            },
        }
    }
}

/// A decoder that has finished gives out nothing more: every further step is
/// `End`, and leaves it as it is.
pub proof fn lemma_finished_gives_nothing(
    before: DecoderState,
    chunk_size: usize,
    limit: nat,
    step: Step<ZipEntry>,
    after: DecoderState,
)
    requires
        before.finished,
        entry_step(before, chunk_size, limit, step, after),
    ensures
        step is End,
        after == before,
{
}

/// Whatever goes wrong is final: a step that reports an error, or the end,
/// leaves the decoder finished.
pub proof fn lemma_errors_are_final(
    before: DecoderState,
    chunk_size: usize,
    limit: nat,
    step: Step<ZipEntry>,
    after: DecoderState,
)
    requires
        entry_step(before, chunk_size, limit, step, after),
        step is Error || step is End,
    ensures
        after.finished,
{
}

/// Four bytes that are no known signature, where an entry should begin, are
/// reported in hexadecimal as an invalid signature, and the decoder finishes
/// without an entry.
pub proof fn lemma_unknown_signature_fails(
    before: DecoderState,
    chunk_size: usize,
    limit: nat,
    step: Step<ZipEntry>,
    after: DecoderState,
)
    requires
        !before.finished,
        before.pending.len() >= 4,
        signature_kind(before.pending.take(4)) == SignatureKind::Unknown,
        entry_step(before, chunk_size, limit, step, after),
    ensures
        step matches Step::Error(ZipError::InvalidSignature(text)) && text@ == hex_lower(
            before.pending.take(4),
        ),
        after.finished,
{
}

/// The signature of the central directory or of its end record, where an
/// entry should begin, ends the archive cleanly: no entry and no error.
pub proof fn lemma_directory_ends_the_entries(
    before: DecoderState,
    chunk_size: usize,
    limit: nat,
    step: Step<ZipEntry>,
    after: DecoderState,
)
    requires
        !before.finished,
        before.pending.len() >= 4,
        signature_kind(before.pending.take(4)) == SignatureKind::CentralDirectory
            || signature_kind(before.pending.take(4)) == SignatureKind::EndOfCentralDirectory,
        entry_step(before, chunk_size, limit, step, after),
    ensures
        step is End,
        after.finished,
{
}

/// A source that ends before the payload is as long as the header declares
/// makes the decoder fail with `UnexpectedEof`.
pub proof fn lemma_truncated_payload_fails(
    h: LocalFileHeader,
    name: Seq<u8>,
    extra: Seq<u8>,
    part: Seq<u8>,
    before: DecoderState,
    chunk_size: usize,
    limit: nat,
    step: Step<ZipEntry>,
    after: DecoderState,
)
    requires
        describes(h, name, extra),
        !h.streamed(),
        part.len() < h.compressed_size,
        !before.finished,
        before.ended,
        before.pending == header_bytes(h, name, extra) + part,
        entry_step(before, chunk_size, limit, step, after),
    ensures
        step == Step::<ZipEntry>::Error(ZipError::UnexpectedEof),
        after.finished,
{
    lemma_header_bytes_frame(h, name, extra, part, limit);
}

/// An entry of known size that is stored uncompressed decodes to the very
/// bytes and the very name that were written, and the decoder goes on with
/// what follows the entry.
pub proof fn lemma_stored_entry_round_trips(
    h: LocalFileHeader,
    filename: Seq<char>,
    extra: Seq<u8>,
    content: Seq<u8>,
    rest: Seq<u8>,
    before: DecoderState,
    chunk_size: usize,
    limit: nat,
    step: Step<ZipEntry>,
    after: DecoderState,
)
    requires
        describes(h, encode_utf8(filename), extra),
        !h.streamed(),
        h.compression == 0,
        h.compressed_size == content.len(),
        !before.finished,
        before.pending == sized_entry(h, encode_utf8(filename), extra, content) + rest,
        entry_step(before, chunk_size, limit, step, after),
    ensures
        step matches Step::Entry(entry) && entry.filename@ == filename && entry.data@ == content
            && entry.uncompressed_size == h.uncompressed_size,
        after == (DecoderState { pending: rest, ended: before.ended, finished: false }),
{
    lemma_sized_entry_frames(h, encode_utf8(filename), extra, content, rest, limit);
    encode_utf8_valid_utf8(filename);
    encode_utf8_decode_utf8(filename);
}

/// An entry of known size whose payload is a deflate stream decodes to what
/// the deflate decoder makes of the payload, under the name that was written.
pub proof fn lemma_deflated_entry_round_trips(
    h: LocalFileHeader,
    filename: Seq<char>,
    extra: Seq<u8>,
    compressed: Seq<u8>,
    content: Seq<u8>,
    rest: Seq<u8>,
    before: DecoderState,
    chunk_size: usize,
    limit: nat,
    step: Step<ZipEntry>,
    after: DecoderState,
)
    requires
        describes(h, encode_utf8(filename), extra),
        !h.streamed(),
        h.compression == 8,
        h.compressed_size == compressed.len(),
        compressed.len() > 0,
        inflated(compressed) == Some(content),
        !before.finished,
        before.pending == sized_entry(h, encode_utf8(filename), extra, compressed) + rest,
        entry_step(before, chunk_size, limit, step, after),
    ensures
        step matches Step::Entry(entry) && entry.filename@ == filename && entry.data@ == content
            && entry.uncompressed_size == h.uncompressed_size,
        after == (DecoderState { pending: rest, ended: before.ended, finished: false }),
{
    lemma_sized_entry_frames(h, encode_utf8(filename), extra, compressed, rest, limit);
    encode_utf8_valid_utf8(filename);
    encode_utf8_decode_utf8(filename);
}

/// An entry of unknown size that is stored uncompressed, whose payload does
/// not hold the marker, decodes to exactly the payload: the marker and the
/// twelve bytes after it are taken off the stream and kept out of the data.
pub proof fn lemma_streamed_entry_round_trips(
    h: LocalFileHeader,
    filename: Seq<char>,
    extra: Seq<u8>,
    content: Seq<u8>,
    tail: Seq<u8>,
    rest: Seq<u8>,
    before: DecoderState,
    chunk_size: usize,
    limit: nat,
    step: Step<ZipEntry>,
    after: DecoderState,
)
    requires
        describes(h, encode_utf8(filename), extra),
        h.streamed(),
        h.compression == 0,
        tail.len() == 12,
        forall|j: int| 4 <= j <= content.len() ==> !marker_ends_at(content, j),
        content.len() + 3 <= limit,
        !before.finished,
        before.pending == streamed_entry(h, encode_utf8(filename), extra, content, tail) + rest,
        entry_step(before, chunk_size, limit, step, after),
    ensures
        step matches Step::Entry(entry) && entry.filename@ == filename && entry.data@ == content
            && entry.uncompressed_size == h.uncompressed_size,
        after == (DecoderState { pending: rest, ended: before.ended, finished: false }),
{
    lemma_streamed_entry_frames(h, encode_utf8(filename), extra, content, tail, rest, limit);
    encode_utf8_valid_utf8(filename);
    encode_utf8_decode_utf8(filename);
}

/// An entry whose method is neither store nor deflate, and whose payload is
/// not known to be empty, makes the decoder fail with `UnsupportedMethod` and
/// the method's number.
pub proof fn lemma_unsupported_method_fails(
    h: LocalFileHeader,
    name: Seq<u8>,
    extra: Seq<u8>,
    payload: Seq<u8>,
    rest: Seq<u8>,
    before: DecoderState,
    chunk_size: usize,
    limit: nat,
    step: Step<ZipEntry>,
    after: DecoderState,
)
    requires
        describes(h, name, extra),
        !h.streamed(),
        h.compression != 0 && h.compression != 8,
        h.compressed_size == payload.len(),
        payload.len() > 0,
        !before.finished,
        before.pending == sized_entry(h, name, extra, payload) + rest,
        entry_step(before, chunk_size, limit, step, after),
    ensures
        step == Step::<ZipEntry>::Error(ZipError::UnsupportedMethod(h.compression)),
        after.finished,
{
    lemma_sized_entry_frames(h, name, extra, payload, rest, limit);
}

} // verus!
