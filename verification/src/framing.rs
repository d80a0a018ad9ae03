//! Where the records of an archive begin and end in the byte stream.
//!
//! `frame` says what the bytes at an entry boundary hold, as far as they
//! decide it: the next record with its extent, the end of the local entries,
//! a fault, or not yet enough to tell.

use crate::circular_buffer::most_recent;
use crate::header::fields_bytes;
use crate::header::header_of;
use crate::header::is_descriptor_marker;
use crate::header::lemma_fields_round_trip;
use crate::header::signature_kind;
use crate::header::LocalFileHeader;
use crate::header::SignatureKind;
use vstd::prelude::*;

verus! {

/// Length of a local file header up to the file name: signature and fields.
pub open spec fn name_start() -> int {
    30
}

/// Where the payload of an entry with header `h` starts, counted from the
/// entry's signature.
pub open spec fn body_start(h: LocalFileHeader) -> int {
    30 + h.filename_len + h.extra_len
}

/// Whether the data-descriptor marker `50 4B 07 08` ends just before index
/// `k` of `body`.
pub open spec fn marker_ends_at(body: Seq<u8>, k: int) -> bool {
    &&& 4 <= k <= body.len()
    &&& body[k - 4] == 0x50
    &&& body[k - 3] == 0x4b
    &&& body[k - 2] == 0x07
    &&& body[k - 1] == 0x08
}

/// Whether the first marker in `body` ends just before index `k`.
pub open spec fn first_marker_end(body: Seq<u8>, k: int) -> bool {
    &&& marker_ends_at(body, k)
    &&& forall|j: int| 4 <= j < k ==> !marker_ends_at(body, j)
}

/// Whether `body` holds a marker that a scan reaches before it gives up: the
/// scan gives up once it has gone through more than `limit` bytes.
pub open spec fn marker_within(body: Seq<u8>, limit: nat) -> bool {
    exists|k: int| first_marker_end(body, k) && k <= limit + 1
}

/// Where the first marker in `body` ends, if there is one.
pub open spec fn marker_end(body: Seq<u8>) -> int {
    choose|k: int| first_marker_end(body, k)
}

/// What the bytes at an entry boundary hold.
pub enum Framed {
    /// More bytes are needed to tell.
    Incomplete,
    /// The central directory or its end record begins: no more entries.
    End,
    /// The first four bytes are no known signature.
    BadSignature,
    /// The entry ends in a data descriptor, and the scan gave up on it.
    NoDescriptor,
    /// A whole entry: its header, the bytes of its name, its payload as
    /// stored, and how many bytes it takes up in all.
    Record { header: LocalFileHeader, name: Seq<u8>, payload: Seq<u8>, consumed: int },
}

/// An entry whose header gives its size: the payload is the
/// `compressed_size` bytes after the extra field.
pub open spec fn frame_sized(s: Seq<u8>, h: LocalFileHeader) -> Framed {
    let end = body_start(h) + h.compressed_size;
    if s.len() < end {
        Framed::Incomplete
    } else {
        Framed::Record {
            header: h,
            name: s.subrange(name_start(), name_start() + h.filename_len),
            payload: s.subrange(body_start(h), end),
            consumed: end,
        }
    }
}

/// An entry whose size is not known in advance: the payload runs up to the
/// first data-descriptor marker, and the marker and twelve more bytes belong
/// to the entry.
pub open spec fn frame_streamed(s: Seq<u8>, h: LocalFileHeader, limit: nat) -> Framed {
    let body = s.skip(body_start(h));
    if marker_within(body, limit) {
        let k = marker_end(body);
        if body.len() < k + 12 {
            Framed::Incomplete
        } else {
            Framed::Record {
                header: h,
                name: s.subrange(name_start(), name_start() + h.filename_len),
                payload: body.take(k - 4),
                consumed: body_start(h) + k + 12,
            }
        }
    } else if body.len() > limit {
        Framed::NoDescriptor
    } else {
        Framed::Incomplete
    }
}

/// What follows a header `h` that has been read in full.
pub open spec fn frame_body(s: Seq<u8>, h: LocalFileHeader, limit: nat) -> Framed {
    if s.len() < body_start(h) {
        Framed::Incomplete
    } else if h.streamed() {
        frame_streamed(s, h, limit)
    } else {
        frame_sized(s, h)
    }
}

/// What follows a local-file signature.
pub open spec fn frame_local(s: Seq<u8>, limit: nat) -> Framed {
    if s.len() < name_start() {
        Framed::Incomplete
    } else {
        frame_body(s, header_of(s.subrange(4, name_start())), limit)
    }
}

/// What the bytes `s` at an entry boundary hold, with a scan for data
/// descriptors that gives up after more than `limit` bytes.
pub open spec fn frame(s: Seq<u8>, limit: nat) -> Framed {
    if s.len() < 4 {
        Framed::Incomplete
    } else {
        match signature_kind(s.take(4)) {
            SignatureKind::LocalFile => frame_local(s, limit),
            SignatureKind::CentralDirectory => Framed::End,
            SignatureKind::EndOfCentralDirectory => Framed::End,
            SignatureKind::Unknown => Framed::BadSignature,
        }
    }
}

/// There is at most one place where the first marker ends.
pub proof fn lemma_first_marker_unique(body: Seq<u8>, a: int, b: int)
    requires
        first_marker_end(body, a),
        first_marker_end(body, b),
    ensures
        a == b,
{
    if a < b {
        assert(marker_ends_at(body, a));
    }
    if b < a {
        assert(marker_ends_at(body, b));
    }
}

/// Once the first marker is known to end at `k`, that is where `marker_end`
/// puts it.
pub proof fn lemma_marker_end_is(body: Seq<u8>, k: int)
    requires
        first_marker_end(body, k),
    ensures
        marker_end(body) == k,
{
    lemma_first_marker_unique(body, k, marker_end(body));
}

/// Bytes that come later do not move a marker: what holds of the first `k`
/// bytes of `body` holds of them in any extension.
pub proof fn lemma_marker_extend(body: Seq<u8>, more: Seq<u8>, k: int)
    requires
        k <= body.len(),
    ensures
        marker_ends_at(body + more, k) == marker_ends_at(body, k),
        first_marker_end(body + more, k) == first_marker_end(body, k),
{
    let longer = body + more;
    assert forall|j: int| 4 <= j <= k implies #[trigger] marker_ends_at(longer, j)
        == marker_ends_at(body, j) by {}
    assert forall|j: int| 4 <= j <= k implies #[trigger] marker_ends_at(body, j)
        == marker_ends_at(longer, j) by {}
}

/// One more byte scanned: a stretch that held no marker holds none that ends
/// before the new byte, and holds one that ends with it exactly when its last
/// four bytes are the marker.
pub proof fn lemma_scan_one_more(scanned: Seq<u8>, byte: u8)
    requires
        forall|k: int| 4 <= k <= scanned.len() ==> !marker_ends_at(scanned, k),
    ensures
        forall|j: int| 4 <= j <= scanned.len() ==> !marker_ends_at(scanned.push(byte), j),
        marker_ends_at(scanned.push(byte), scanned.len() as int + 1) == (scanned.len() + 1 >= 4
            && is_descriptor_marker(most_recent(scanned.push(byte), 4))),
{
    let longer = scanned.push(byte);
    assert forall|j: int| 4 <= j <= scanned.len() implies !marker_ends_at(longer, j) by {
        assert(!marker_ends_at(scanned, j));
    }
}

/// A stretch without a marker decides nothing by itself, and it decides that
/// there is no descriptor once it is longer than the scan's limit.
pub proof fn lemma_no_marker_so_far(scanned: Seq<u8>, rest: Seq<u8>, limit: nat)
    requires
        forall|k: int| 4 <= k <= scanned.len() ==> !marker_ends_at(scanned, k),
        rest.len() == 0 || scanned.len() > limit,
    ensures
        !marker_within(scanned + rest, limit),
{
    let body = scanned + rest;
    assert forall|k: int| !(#[trigger] first_marker_end(body, k) && k <= limit + 1) by {
        if 4 <= k <= scanned.len() {
            assert(!marker_ends_at(scanned, k));
        }
    }
}

/// A marker at the very end of a stretch that held none before is the first
/// marker of whatever the stretch is the beginning of.
pub proof fn lemma_marker_found(scanned: Seq<u8>, rest: Seq<u8>)
    requires
        forall|k: int| 4 <= k < scanned.len() ==> !marker_ends_at(scanned, k),
        marker_ends_at(scanned, scanned.len() as int),
    ensures
        first_marker_end(scanned, scanned.len() as int),
        first_marker_end(scanned + rest, scanned.len() as int),
{
    lemma_marker_extend(scanned, rest, scanned.len() as int);
}

/// A payload that does not itself hold the marker, followed by the marker, is
/// cut exactly where it ends: the marker cannot be found early, not even
/// straddling the payload's end.
pub proof fn lemma_clean_payload_is_cut(payload: Seq<u8>, after: Seq<u8>)
    requires
        forall|j: int| 4 <= j <= payload.len() ==> !marker_ends_at(payload, j),
        after.len() >= 4,
        marker_ends_at(after, 4),
    ensures
        first_marker_end(payload + after, payload.len() as int + 4),
        marker_end(payload + after) == payload.len() + 4,
{
    let body = payload + after;
    let n = payload.len() as int;
    assert(marker_ends_at(body, n + 4));
    assert forall|j: int| 4 <= j < n + 4 implies !marker_ends_at(body, j) by {
        if j <= n {
            assert(!marker_ends_at(payload, j));
        }
    }
    lemma_marker_end_is(body, n + 4);
}

/// What the bytes have decided stays decided: once `frame` says anything but
/// `Incomplete`, no bytes that arrive later change what it says. So it does
/// not matter in what chunks a stream arrives.
pub proof fn lemma_frame_settled(s: Seq<u8>, more: Seq<u8>, limit: nat)
    requires
        !(frame(s, limit) is Incomplete),
    ensures
        frame(s + more, limit) == frame(s, limit),
{
    let t = s + more;
    assert(t.take(4) =~= s.take(4));
    if signature_kind(s.take(4)) == SignatureKind::LocalFile {
        assert(t.subrange(4, name_start()) =~= s.subrange(4, name_start()));
        let h = header_of(s.subrange(4, name_start()));
        let start = body_start(h);
        assert(t.subrange(name_start(), name_start() + h.filename_len) =~= s.subrange(
            name_start(),
            name_start() + h.filename_len,
        ));
        if h.streamed() {
            let body = s.skip(start);
            assert(t.skip(start) =~= body + more);
            if marker_within(body, limit) {
                let k = choose|k: int| first_marker_end(body, k) && k <= limit + 1;
                lemma_marker_end_is(body, k);
                lemma_marker_extend(body, more, k);
                lemma_marker_end_is(body + more, k);
                assert((body + more).take(k - 4) =~= body.take(k - 4));
            } else {
                assert forall|j: int| !(#[trigger] first_marker_end(body + more, j) && j <= limit
                    + 1) by {
                    if j <= limit + 1 {
                        lemma_marker_extend(body, more, j);
                    }
                }
            }
        } else {
            let end = start + h.compressed_size;
            assert(t.subrange(start, end) =~= s.subrange(start, end));
        }
    }
}

/// The signature that opens a local file header.
pub open spec fn local_signature() -> Seq<u8> {
    seq![0x50u8, 0x4b, 0x03, 0x04]
}

/// The marker that opens a data descriptor.
pub open spec fn descriptor_marker() -> Seq<u8> {
    seq![0x50u8, 0x4b, 0x07, 0x08]
}

/// Whether the lengths in `h` are those of `name` and `extra`.
pub open spec fn describes(h: LocalFileHeader, name: Seq<u8>, extra: Seq<u8>) -> bool {
    h.filename_len == name.len() && h.extra_len == extra.len()
}

/// A local file header as it is written: signature, fields, name, extra field.
pub open spec fn header_bytes(h: LocalFileHeader, name: Seq<u8>, extra: Seq<u8>) -> Seq<u8> {
    local_signature() + fields_bytes(h) + name + extra
}

/// An entry of known size as it is written: the header, then the payload.
pub open spec fn sized_entry(
    h: LocalFileHeader,
    name: Seq<u8>,
    extra: Seq<u8>,
    payload: Seq<u8>,
) -> Seq<u8> {
    header_bytes(h, name, extra) + payload
}

/// An entry of unknown size as it is written: the header, the payload, the
/// marker, and the twelve bytes of the descriptor.
pub open spec fn streamed_entry(
    h: LocalFileHeader,
    name: Seq<u8>,
    extra: Seq<u8>,
    payload: Seq<u8>,
    tail: Seq<u8>,
) -> Seq<u8> {
    header_bytes(h, name, extra) + payload + descriptor_marker() + tail
}

proof fn lemma_parts(a: Seq<u8>, b: Seq<u8>, c: Seq<u8>, d: Seq<u8>, e: Seq<u8>)
    ensures
        (a + b + c + d + e).len() == a.len() + b.len() + c.len() + d.len() + e.len(),
        (a + b + c + d + e).take(a.len() as int) == a,
        (a + b + c + d + e).subrange(a.len() as int, (a.len() + b.len()) as int) == b,
        (a + b + c + d + e).subrange(
            (a.len() + b.len()) as int,
            (a.len() + b.len() + c.len()) as int,
        ) == c,
        (a + b + c + d + e).skip((a.len() + b.len() + c.len() + d.len()) as int) == e,
{
    let s = a + b + c + d + e;
    let ab = (a.len() + b.len()) as int;
    let abc = (a.len() + b.len() + c.len()) as int;
    let abcd = (a.len() + b.len() + c.len() + d.len()) as int;
    assert(s.take(a.len() as int) =~= a);
    assert(s.subrange(a.len() as int, ab) =~= b);
    assert(s.subrange(ab, abc) =~= c);
    assert(s.skip(abcd) =~= e);
}

/// What a written header decides: the bytes that follow it are framed as the
/// body of an entry with that header and that name.
pub proof fn lemma_header_bytes_frame(
    h: LocalFileHeader,
    name: Seq<u8>,
    extra: Seq<u8>,
    rest: Seq<u8>,
    limit: nat,
)
    requires
        describes(h, name, extra),
    ensures
        header_bytes(h, name, extra).len() == body_start(h),
        frame(header_bytes(h, name, extra) + rest, limit) == frame_body(
            header_bytes(h, name, extra) + rest,
            h,
            limit,
        ),
        (header_bytes(h, name, extra) + rest).subrange(
            name_start(),
            name_start() + h.filename_len,
        ) == name,
        (header_bytes(h, name, extra) + rest).skip(body_start(h)) == rest,
{
    lemma_fields_round_trip(h, Seq::empty());
    assert(fields_bytes(h) + Seq::<u8>::empty() =~= fields_bytes(h));
    lemma_parts(local_signature(), fields_bytes(h), name, extra, rest);
    lemma_parts(local_signature(), fields_bytes(h), name, extra, Seq::empty());
    assert(header_bytes(h, name, extra) + Seq::<u8>::empty() =~= header_bytes(h, name, extra));
}

/// Framing undoes writing, for an entry of known size: whatever the header,
/// the name, the extra field and the payload are, and whatever follows the
/// entry, `frame` gives back the header, the name and the payload, and takes
/// exactly the entry's bytes.
pub proof fn lemma_sized_entry_frames(
    h: LocalFileHeader,
    name: Seq<u8>,
    extra: Seq<u8>,
    payload: Seq<u8>,
    rest: Seq<u8>,
    limit: nat,
)
    requires
        describes(h, name, extra),
        !h.streamed(),
        h.compressed_size == payload.len(),
    ensures
        frame(sized_entry(h, name, extra, payload) + rest, limit) == (Framed::Record {
            header: h,
            name,
            payload,
            consumed: sized_entry(h, name, extra, payload).len() as int,
        }),
        (sized_entry(h, name, extra, payload) + rest).skip(
            sized_entry(h, name, extra, payload).len() as int,
        ) == rest,
{
    let s = sized_entry(h, name, extra, payload) + rest;
    lemma_header_bytes_frame(h, name, extra, payload + rest, limit);
    assert(s =~= header_bytes(h, name, extra) + (payload + rest));
    assert(s.subrange(body_start(h), body_start(h) + h.compressed_size) =~= payload);
    assert(s.skip(sized_entry(h, name, extra, payload).len() as int) =~= rest);
}

/// Where the first marker of a streamed entry's body is known to end, and the
/// descriptor's twelve bytes have arrived, the entry is cut there.
pub proof fn lemma_cut_at_marker(s: Seq<u8>, h: LocalFileHeader, limit: nat, k: int)
    requires
        s.len() >= body_start(h),
        first_marker_end(s.skip(body_start(h)), k),
        k <= limit + 1,
        s.len() >= body_start(h) + k + 12,
    ensures
        frame_streamed(s, h, limit) == (Framed::Record {
            header: h,
            name: s.subrange(name_start(), name_start() + h.filename_len),
            payload: s.skip(body_start(h)).take(k - 4),
            consumed: body_start(h) + k + 12,
        }),
{
    lemma_marker_end_is(s.skip(body_start(h)), k);
}

proof fn lemma_regroup(head: Seq<u8>, payload: Seq<u8>, mark: Seq<u8>, tail: Seq<u8>, rest: Seq<u8>)
    ensures
        (head + payload + mark + tail) + rest == head + (payload + (mark + tail + rest)),
        ((head + payload + mark + tail) + rest).skip((head + payload + mark + tail).len() as int)
            == rest,
        (payload + (mark + tail + rest)).take(payload.len() as int) == payload,
        (head + payload + mark + tail).len() == head.len() + payload.len() + mark.len()
            + tail.len(),
{
    let entry = head + payload + mark + tail;
    assert(entry + rest =~= head + (payload + (mark + tail + rest)));
    assert((entry + rest).skip(entry.len() as int) =~= rest);
    assert((payload + (mark + tail + rest)).take(payload.len() as int) =~= payload);
}

/// Framing undoes writing, for an entry of unknown size whose payload does
/// not hold the marker and is short enough for the scan: `frame` gives back
/// the header, the name and the payload without marker and descriptor, and
/// takes exactly the entry's bytes.
pub proof fn lemma_streamed_entry_frames(
    h: LocalFileHeader,
    name: Seq<u8>,
    extra: Seq<u8>,
    payload: Seq<u8>,
    tail: Seq<u8>,
    rest: Seq<u8>,
    limit: nat,
)
    requires
        describes(h, name, extra),
        h.streamed(),
        tail.len() == 12,
        forall|j: int| 4 <= j <= payload.len() ==> !marker_ends_at(payload, j),
        payload.len() + 3 <= limit,
    ensures
        frame(streamed_entry(h, name, extra, payload, tail) + rest, limit) == (Framed::Record {
            header: h,
            name,
            payload,
            consumed: streamed_entry(h, name, extra, payload, tail).len() as int,
        }),
        (streamed_entry(h, name, extra, payload, tail) + rest).skip(
            streamed_entry(h, name, extra, payload, tail).len() as int,
        ) == rest,
{
    let head = header_bytes(h, name, extra);
    let after = descriptor_marker() + tail + rest;
    let body = payload + after;
    let k = payload.len() as int + 4;
    lemma_regroup(head, payload, descriptor_marker(), tail, rest);
    lemma_header_bytes_frame(h, name, extra, body, limit);
    lemma_clean_payload_is_cut(payload, after);
    lemma_cut_at_marker(head + body, h, limit, k);
}

} // verus!
