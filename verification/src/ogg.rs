//! The Ogg page structure that decides how symphonia's Ogg reader treats a
//! body: capture patterns, page headers, the pages that begin logical streams,
//! and the serial numbers that pages name.
use vstd::prelude::*;

verus! {

/// `p` occurs in `s` at position `i`.
pub open spec fn bytes_occur_at(s: Seq<u8>, p: Seq<u8>, i: int) -> bool {
    0 <= i && i + p.len() <= s.len() && s.subrange(i, i + p.len()) == p
}

/// The capture pattern `OggS` that starts every Ogg page.
pub open spec fn ogg_capture_pattern() -> Seq<u8> {
    seq![0x4fu8, 0x67u8, 0x67u8, 0x53u8]
}

/// The start of a Vorbis identification header: packet type 1 and `vorbis`.
pub open spec fn vorbis_identification() -> Seq<u8> {
    seq![0x01u8, 0x76u8, 0x6fu8, 0x72u8, 0x62u8, 0x69u8, 0x73u8]
}

/// The page header whose capture pattern is at `j` is whole and marks the
/// beginning of a logical stream (bit 1 of its header-type byte).
pub open spec fn begins_stream(body: Seq<u8>, j: int) -> bool {
    &&& bytes_occur_at(body, ogg_capture_pattern(), j)
    &&& j + 27 <= body.len()
    &&& (body[j + 5] / 2) % 2 == 1
}

/// Where the first packet of the page at `j` starts: after the 27-byte page
/// header and its segment table, whose length is byte 26.
pub open spec fn first_packet_start(body: Seq<u8>, j: int) -> int {
    j + 27 + body[j + 26]
}

/// Some page that begins a logical stream carries a first packet that starts
/// like a Vorbis identification header.
pub open spec fn opens_vorbis_stream(body: Seq<u8>) -> bool {
    exists|j: int| #[trigger] begins_stream(body, j)
        && bytes_occur_at(body, vorbis_identification(), first_packet_start(body, j))
}

pub(crate) fn bytes_occur_at_index(v: &[u8], p: &[u8], i: usize) -> (r: bool)
    requires
        i + p@.len() <= v@.len(),
    ensures
        r == bytes_occur_at(v@, p@, i as int),
{
    let mut k: usize = 0;
    while k < p.len()
        invariant
            k <= p@.len(),
            i + p@.len() <= v@.len(),
            p@.len() == p.len(),
            v@.len() == v.len(),
            forall|j: int| 0 <= j < k ==> v@[i + j] == p@[j],
        decreases p@.len() - k,
    {
        if v[i + k] != p[k] {
            assert(v@.subrange(i as int, i + p@.len())[k as int] != p@[k as int]);
            return false;
        }
        k = k + 1;
    }
    assert(v@.subrange(i as int, i + p@.len()) =~= p@);
    true
}

fn has_vorbis_stream_start(body: &[u8], capture: &[u8], vorbis: &[u8]) -> (r: bool)
    requires
        capture@ == ogg_capture_pattern(),
        vorbis@ == vorbis_identification(),
    ensures
        r == opens_vorbis_stream(body@),
{
    if body.len() < 27 {
        assert forall|j: int| !#[trigger] begins_stream(body@, j) by {}
        return false;
    }
    let last = body.len() - 27;
    let mut j: usize = 0;
    loop
        invariant
            capture@ == ogg_capture_pattern(),
            vorbis@ == vorbis_identification(),
            27 <= body@.len(),
            body@.len() == body.len(),
            last == body@.len() - 27,
            j <= last,
            forall|k: int| 0 <= k < j && #[trigger] begins_stream(body@, k)
                ==> !bytes_occur_at(body@, vorbis_identification(), first_packet_start(body@, k)),
        ensures
            forall|k: int| 0 <= k <= last && #[trigger] begins_stream(body@, k)
                ==> !bytes_occur_at(body@, vorbis_identification(), first_packet_start(body@, k)),
        decreases last - j,
    {
        let flags: u8 = body[j + 5];
        if bytes_occur_at_index(body, capture, j) && (flags / 2) % 2 == 1 {
            let rest: usize = body.len() - (j + 27);
            let segments: usize = body[j + 26] as usize;
            if segments <= rest && vorbis.len() <= rest - segments {
                let start: usize = j + 27 + segments;
                if bytes_occur_at_index(body, vorbis, start) {
                    assert(begins_stream(body@, j as int));
                    return true;
                }
            }
        }
        if j == last {
            break;
        }
        j = j + 1;
    }
    assert forall|k: int| #[trigger] begins_stream(body@, k)
        implies !bytes_occur_at(body@, vorbis_identification(), first_packet_start(body@, k)) by {
        assert(0 <= k <= last);
    }
    false
}

/// The serial number that the page header at `j` names: bytes 14 to 17.
pub open spec fn serial_at(body: Seq<u8>, j: int) -> Seq<u8> {
    body.subrange(j + 14, j + 18)
}

/// Entry `k` of the segment table of the page at `j`.
pub open spec fn segment(body: Seq<u8>, j: int, k: int) -> u8 {
    body[j + 27 + k]
}

/// The total of the first `n` entries of the segment table of the page at `j`.
pub open spec fn segments_total(body: Seq<u8>, j: int, n: nat) -> int
    decreases n,
{
    if n == 0 {
        0
    } else {
        segments_total(body, j, (n - 1) as nat) + segment(body, j, n - 1)
    }
}

/// One past the last byte of the page at `j`: its 27-byte header, its
/// segment table and the segments.
pub open spec fn page_end(body: Seq<u8>, j: int) -> int {
    first_packet_start(body, j) + segments_total(body, j, body[j + 26] as nat)
}

/// The page at `j` completes a packet: some segment is shorter than 255 bytes.
pub open spec fn completes_packet(body: Seq<u8>, j: int) -> bool {
    exists|k: int| 0 <= k < body[j + 26] && #[trigger] segment(body, j, k) < 255
}

/// The first position at or after `pos` where the capture pattern occurs; the
/// body's length when there is none.
pub open spec fn next_capture(body: Seq<u8>, pos: int) -> int
    decreases body.len() - pos,
{
    if pos < 0 || pos + 4 > body.len() {
        body.len() as int
    } else if bytes_occur_at(body, ogg_capture_pattern(), pos) {
        pos
    } else {
        next_capture(body, pos + 1)
    }
}

/// The serial numbers of the logical streams that the Ogg reader sets up from
/// `j` on: the pages that begin streams, each read at the first capture
/// pattern after the previous page, that complete a packet.
pub open spec fn leading_serials(body: Seq<u8>, j: int) -> Seq<Seq<u8>>
    decreases body.len() - j,
{
    if begins_stream(body, j) && page_end(body, j) <= body.len() {
        let next = next_capture(body, page_end(body, j));
        let rest = if j < next <= body.len() { leading_serials(body, next) } else { Seq::empty() };
        if completes_packet(body, j) {
            seq![serial_at(body, j)] + rest
        } else {
            rest
        }
    } else {
        Seq::empty()
    }
}

/// Every page header in `body` names one of the logical streams that the
/// reader sets up from the pages at its start.
pub open spec fn streams_known(body: Seq<u8>) -> bool {
    forall|k: int| #[trigger] bytes_occur_at(body, ogg_capture_pattern(), k) && k + 18 <= body.len()
        ==> leading_serials(body, 0).contains(serial_at(body, k))
}

/// An Ogg stream from its first byte whose pages all name logical streams
/// that begin at its start, none of them Vorbis. On such a body the probe
/// picks the Ogg reader; the Vorbis mapper, which can panic on a crafted setup
/// header, is never chosen, since the reader chooses a stream's mapper from
/// the first packet of the page that begins it; and every page found near the
/// end belongs to a stream set up at the start, so the reader never bisects
/// for the end of a chained stream (where a page that runs past the bisection
/// bound underflows a length).
pub open spec fn is_plain_ogg_body(body: Seq<u8>) -> bool {
    &&& bytes_occur_at(body, ogg_capture_pattern(), 0)
    &&& streams_known(body)
    &&& !opens_vorbis_stream(body)
}

/// The serial numbers of the pages at `offsets`.
pub open spec fn serials_of(body: Seq<u8>, offsets: Seq<usize>) -> Seq<Seq<u8>> {
    offsets.map_values(|o: usize| serial_at(body, o as int))
}

proof fn lemma_segments_total_nonneg(body: Seq<u8>, j: int, n: nat)
    ensures
        segments_total(body, j, n) >= 0,
    decreases n,
{
    if n > 0 {
        lemma_segments_total_nonneg(body, j, (n - 1) as nat);
    }
}

proof fn lemma_next_capture_range(body: Seq<u8>, pos: int)
    requires
        0 <= pos <= body.len(),
    ensures
        pos <= next_capture(body, pos) <= body.len(),
    decreases body.len() - pos,
{
    if pos + 4 <= body.len() && !bytes_occur_at(body, ogg_capture_pattern(), pos) {
        lemma_next_capture_range(body, pos + 1);
    }
}

fn segments_total_of(body: &[u8], j: usize) -> (r: usize)
    requires
        j + 27 <= body@.len(),
        j + 27 + body@[j + 26] <= body@.len(),
    ensures
        r == segments_total(body@, j as int, body@[j + 26] as nat),
        r <= 255 * 255,
{
    let len = body.len();
    let n: usize = body[j + 26] as usize;
    let mut total: usize = 0;
    let mut k: usize = 0;
    while k < n
        invariant
            k <= n,
            n == body@[j + 26],
            n <= 255,
            j + 27 + n <= body@.len(),
            body@.len() == body.len(),
            total == segments_total(body@, j as int, k as nat),
            total <= 255 * k,
        decreases n - k,
    {
        assert(segments_total(body@, j as int, (k + 1) as nat)
            == segments_total(body@, j as int, k as nat) + segment(body@, j as int, k as int));
        total = total + body[j + 27 + k] as usize;
        k = k + 1;
    }
    total
}

fn completes_packet_at(body: &[u8], j: usize) -> (r: bool)
    requires
        j + 27 <= body@.len(),
        j + 27 + body@[j + 26] <= body@.len(),
    ensures
        r == completes_packet(body@, j as int),
{
    let len = body.len();
    let n: usize = body[j + 26] as usize;
    let mut k: usize = 0;
    while k < n
        invariant
            k <= n,
            n == body@[j + 26],
            j + 27 + n <= body@.len(),
            body@.len() == body.len(),
            forall|m: int| 0 <= m < k ==> #[trigger] segment(body@, j as int, m) >= 255,
        decreases n - k,
    {
        if body[j + 27 + k] < 255 {
            assert(segment(body@, j as int, k as int) < 255);
            return true;
        }
        k = k + 1;
    }
    false
}

fn next_capture_from(body: &[u8], capture: &[u8], pos: usize) -> (r: usize)
    requires
        capture@ == ogg_capture_pattern(),
        pos <= body@.len(),
    ensures
        r == next_capture(body@, pos as int),
{
    let mut i: usize = pos;
    while 4 <= body.len() - i
        invariant
            capture@ == ogg_capture_pattern(),
            pos <= i <= body@.len(),
            body@.len() == body.len(),
            next_capture(body@, pos as int) == next_capture(body@, i as int),
        decreases body.len() - i,
    {
        if bytes_occur_at_index(body, capture, i) {
            return i;
        }
        i = i + 1;
    }
    body.len()
}

fn leading_pages(body: &[u8], capture: &[u8]) -> (r: Vec<usize>)
    requires
        capture@ == ogg_capture_pattern(),
    ensures
        forall|i: int| 0 <= i < r@.len() ==> #[trigger] r@[i] + 18 <= body@.len(),
        serials_of(body@, r@) == leading_serials(body@, 0),
{
    let mut found: Vec<usize> = Vec::new();
    let mut j: usize = 0;
    assert(serials_of(body@, found@) =~= Seq::<Seq<u8>>::empty());
    assert(leading_serials(body@, 0) =~= serials_of(body@, found@) + leading_serials(body@, 0));
    loop
        invariant
            capture@ == ogg_capture_pattern(),
            j <= body@.len(),
            body@.len() == body.len(),
            forall|i: int| 0 <= i < found@.len() ==> #[trigger] found@[i] + 18 <= body@.len(),
            leading_serials(body@, 0) == serials_of(body@, found@) + leading_serials(body@, j as int),
        ensures
            forall|i: int| 0 <= i < found@.len() ==> #[trigger] found@[i] + 18 <= body@.len(),
            leading_serials(body@, 0) == serials_of(body@, found@),
        decreases body.len() - j,
    {
        let whole: bool = 27 <= body.len() && j <= body.len() - 27 && bytes_occur_at_index(body, capture, j)
            && (body[j + 5] / 2) % 2 == 1 && (body[j + 26] as usize) <= body.len() - (j + 27);
        if !whole {
            proof {
                if j + 27 <= body@.len() {
                    lemma_segments_total_nonneg(body@, j as int, body@[j + 26] as nat);
                }
            }
            assert(!(begins_stream(body@, j as int) && page_end(body@, j as int) <= body@.len()));
            assert(serials_of(body@, found@) + Seq::<Seq<u8>>::empty() =~= serials_of(body@, found@));
            break;
        }
        let start: usize = j + 27 + body[j + 26] as usize;
        let total = segments_total_of(body, j);
        if total > body.len() - start {
            assert(serials_of(body@, found@) + Seq::<Seq<u8>>::empty() =~= serials_of(body@, found@));
            break;
        }
        let end: usize = start + total;
        proof {
            lemma_next_capture_range(body@, end as int);
        }
        let next = next_capture_from(body, capture, end);
        let ghost rest = leading_serials(body@, next as int);
        if completes_packet_at(body, j) {
            let ghost before = found@;
            found.push(j);
            assert(serials_of(body@, found@) =~= serials_of(body@, before) + seq![serial_at(body@, j as int)]);
            assert(leading_serials(body@, j as int) == seq![serial_at(body@, j as int)] + rest);
            assert(serials_of(body@, before) + (seq![serial_at(body@, j as int)] + rest)
                =~= serials_of(body@, found@) + rest);
        } else {
            assert(leading_serials(body@, j as int) == rest);
        }
        j = next;
    }
    found
}

fn same_serials(body: &[u8], a: usize, b: usize) -> (r: bool)
    requires
        a + 18 <= body@.len(),
        b + 18 <= body@.len(),
    ensures
        r == (serial_at(body@, a as int) == serial_at(body@, b as int)),
{
    let ghost x = serial_at(body@, a as int);
    let ghost y = serial_at(body@, b as int);
    let mut k: usize = 0;
    while k < 4
        invariant
            k <= 4,
            a + 18 <= body@.len(),
            b + 18 <= body@.len(),
            body@.len() == body.len(),
            x == serial_at(body@, a as int),
            y == serial_at(body@, b as int),
            forall|m: int| 0 <= m < k ==> #[trigger] x[m] == y[m],
        decreases 4 - k,
    {
        assert(x[k as int] == body@[a + 14 + k] && y[k as int] == body@[b + 14 + k]);
        if body[a + 14 + k] != body[b + 14 + k] {
            return false;
        }
        k = k + 1;
    }
    assert(x =~= y);
    true
}

fn serial_listed(body: &[u8], found: &Vec<usize>, k: usize) -> (r: bool)
    requires
        k + 18 <= body@.len(),
        forall|i: int| 0 <= i < found@.len() ==> #[trigger] found@[i] + 18 <= body@.len(),
    ensures
        r == serials_of(body@, found@).contains(serial_at(body@, k as int)),
{
    let ghost listed = serials_of(body@, found@);
    let mut i: usize = 0;
    while i < found.len()
        invariant
            i <= found@.len(),
            k + 18 <= body@.len(),
            listed == serials_of(body@, found@),
            forall|m: int| 0 <= m < found@.len() ==> #[trigger] found@[m] + 18 <= body@.len(),
            forall|m: int| 0 <= m < i ==> #[trigger] listed[m] != serial_at(body@, k as int),
        decreases found.len() - i,
    {
        assert(found@[i as int] + 18 <= body@.len());
        if same_serials(body, found[i], k) {
            assert(listed[i as int] == serial_at(body@, k as int));
            return true;
        }
        i = i + 1;
    }
    false
}

fn all_streams_known(body: &[u8], capture: &[u8]) -> (r: bool)
    requires
        capture@ == ogg_capture_pattern(),
    ensures
        r == streams_known(body@),
{
    let found = leading_pages(body, capture);
    if body.len() < 18 {
        return true;
    }
    let last: usize = body.len() - 18;
    let mut k: usize = 0;
    loop
        invariant
            capture@ == ogg_capture_pattern(),
            18 <= body@.len(),
            body@.len() == body.len(),
            last == body@.len() - 18,
            k <= last,
            forall|i: int| 0 <= i < found@.len() ==> #[trigger] found@[i] + 18 <= body@.len(),
            serials_of(body@, found@) == leading_serials(body@, 0),
            forall|m: int| 0 <= m < k && #[trigger] bytes_occur_at(body@, ogg_capture_pattern(), m)
                ==> leading_serials(body@, 0).contains(serial_at(body@, m)),
        ensures
            forall|m: int| 0 <= m <= last && #[trigger] bytes_occur_at(body@, ogg_capture_pattern(), m)
                ==> leading_serials(body@, 0).contains(serial_at(body@, m)),
        decreases last - k,
    {
        if bytes_occur_at_index(body, capture, k) && !serial_listed(body, &found, k) {
            return false;
        }
        if k == last {
            break;
        }
        k = k + 1;
    }
    true
}

/// Whether `body` is a plain Ogg stream (`is_plain_ogg_body`).
pub fn is_plain_ogg(body: &[u8]) -> (r: bool)
    ensures
        r == is_plain_ogg_body(body@),
{
    let capture: [u8; 4] = [0x4f, 0x67, 0x67, 0x53];
    let vorbis: [u8; 7] = [0x01, 0x76, 0x6f, 0x72, 0x62, 0x69, 0x73];
    assert(capture@ =~= ogg_capture_pattern());
    assert(vorbis@ =~= vorbis_identification());
    if body.len() < 4 {
        return false;
    }
    bytes_occur_at_index(body, capture.as_slice(), 0) && all_streams_known(body, capture.as_slice())
        && !has_vorbis_stream_start(body, capture.as_slice(), vorbis.as_slice())
}

} // verus!
