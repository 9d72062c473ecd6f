//! Top-level MP4 box walks over the bytes of a fragmented MP4 file.
//!
//! A box is a big-endian `u32` size, four type bytes, and `size - 8` bytes of
//! payload. A walk starts at offset 0, advances by each box's declared size,
//! and ends at the first offset where fewer than 8 bytes are left, where the
//! declared size is under 8, or where the box would run past the end.

use crate::text::{fixed6, push_fixed6};
use vstd::prelude::*;
use vstd::string::*;

verus! {

/// Why a transcoded file could not be turned into a media fragment.
#[derive(Debug, Clone, Copy, PartialEq, Eq, Structural)]
pub enum SegmentError {
    /// The walk ended without meeting a `moof` box.
    MalformedFragment,
}

/// The type bytes `ftyp`.
pub open spec fn ftyp_tag() -> Seq<u8> {
    seq![0x66u8, 0x74u8, 0x79u8, 0x70u8]
}

/// The type bytes `moov`.
pub open spec fn moov_tag() -> Seq<u8> {
    seq![0x6du8, 0x6fu8, 0x6fu8, 0x76u8]
}

/// The type bytes `moof`.
pub open spec fn moof_tag() -> Seq<u8> {
    seq![0x6du8, 0x6fu8, 0x6fu8, 0x66u8]
}

/// The big-endian 32-bit number at `off`.
pub open spec fn be32(data: Seq<u8>, off: int) -> int {
    data[off] as int * 16777216 + data[off + 1] as int * 65536 + data[off + 2] as int * 256
        + data[off + 3] as int
}

/// The declared size of the box at `off`.
pub open spec fn box_size(data: Seq<u8>, off: int) -> int {
    be32(data, off)
}

/// The four type bytes of the box at `off`.
pub open spec fn box_type(data: Seq<u8>, off: int) -> Seq<u8> {
    data.subrange(off + 4, off + 8)
}

/// Whether a whole box stands at `off`: eight bytes of header are there, the
/// declared size covers them, and the box ends within the data.
pub open spec fn box_at(data: Seq<u8>, off: int) -> bool {
    &&& 0 <= off
    &&& off + 8 <= data.len()
    &&& box_size(data, off) >= 8
    &&& off + box_size(data, off) <= data.len()
}

/// The offset of the first `moof` box that the walk from `off` meets.
pub open spec fn fragment_start(data: Seq<u8>, off: int) -> Option<int>
    decreases data.len() - off,
{
    if !box_at(data, off) {
        None
    } else if box_type(data, off) == moof_tag() {
        Some(off)
    } else {
        fragment_start(data, off + box_size(data, off))
    }
}

/// The `ftyp` and `moov` boxes that the walk from `off` meets before the
/// first `moof`, whole and in order.
pub open spec fn init_bytes(data: Seq<u8>, off: int) -> Seq<u8>
    decreases data.len() - off,
{
    if !box_at(data, off) {
        Seq::empty()
    } else if box_type(data, off) == moof_tag() {
        Seq::empty()
    } else if box_type(data, off) == ftyp_tag() || box_type(data, off) == moov_tag() {
        data.subrange(off, off + box_size(data, off)) + init_bytes(
            data,
            off + box_size(data, off),
        )
    } else {
        init_bytes(data, off + box_size(data, off))
    }
}

/// The types of all boxes that the walk from `off` meets.
pub open spec fn box_types(data: Seq<u8>, off: int) -> Seq<Seq<u8>>
    decreases data.len() - off,
{
    if !box_at(data, off) {
        Seq::empty()
    } else {
        seq![box_type(data, off)] + box_types(data, off + box_size(data, off))
    }
}

/// Where the walk from `off` ends.
pub open spec fn walk_end(data: Seq<u8>, off: int) -> int
    decreases data.len() - off,
{
    if !box_at(data, off) {
        off
    } else {
        walk_end(data, off + box_size(data, off))
    }
}

/// Reads the declared size of the box whose header starts at `off`.
fn read_size(data: &[u8], off: usize) -> (size: u64)
    requires
        off + 8 <= data@.len(),
    ensures
        size as int == box_size(data@, off as int),
        size <= 0xFFFF_FFFF,
{
    let len: usize = data.len();
    let b0: u64 = data[off] as u64;
    let b1: u64 = data[off + 1] as u64;
    let b2: u64 = data[off + 2] as u64;
    let b3: u64 = data[off + 3] as u64;
    b0 * 16777216 + b1 * 65536 + b2 * 256 + b3
}

/// Whether the box whose header starts at `off` has the type `a b c d`.
fn has_type(data: &[u8], off: usize, a: u8, b: u8, c: u8, d: u8) -> (yes: bool)
    requires
        off + 8 <= data@.len(),
    ensures
        yes == (box_type(data@, off as int) == seq![a, b, c, d]),
{
    let len: usize = data.len();
    let yes = data[off + 4] == a && data[off + 5] == b && data[off + 6] == c && data[off + 7] == d;
    proof {
        let t = box_type(data@, off as int);
        assert(t.len() == 4);
        assert(t[0] == data@[off + 4]);
        assert(t[1] == data@[off + 5]);
        assert(t[2] == data@[off + 6]);
        assert(t[3] == data@[off + 7]);
        if yes {
            assert(t =~= seq![a, b, c, d]);
        } else {
            assert(seq![a, b, c, d][0] == a);
            assert(seq![a, b, c, d][1] == b);
            assert(seq![a, b, c, d][2] == c);
            assert(seq![a, b, c, d][3] == d);
        }
    }
    yes
}

/// Appends the bytes `from..to` of `data` to `out`.
fn extend_from_range(out: &mut Vec<u8>, data: &[u8], from: usize, to: usize)
    requires
        from <= to <= data@.len(),
    ensures
        final(out)@ == old(out)@ + data@.subrange(from as int, to as int),
{
    let ghost base = out@;
    let mut i: usize = from;
    assert(out@ =~= base + data@.subrange(from as int, i as int));
    while i < to
        invariant
            from <= i <= to,
            to <= data@.len(),
            out@ == base + data@.subrange(from as int, i as int),
        decreases to - i,
    {
        out.push(data[i]);
        i = i + 1;
        assert(out@ =~= base + data@.subrange(from as int, i as int));
    }
}

/// Drops the initialization header of a transcoded fragment: returns the
/// bytes from the first `moof` box to the end of `data`.
pub fn strip_init_header(data: &[u8]) -> (result: Result<Vec<u8>, SegmentError>)
    ensures
        match fragment_start(data@, 0) {
            Some(start) => result is Ok && result->Ok_0@ == data@.subrange(
                start,
                data@.len() as int,
            ),
            None => result == Err::<Vec<u8>, SegmentError>(SegmentError::MalformedFragment),
        },
        result is Ok ==> result->Ok_0@.len() >= 8 && result->Ok_0@.subrange(4, 8) == moof_tag(),
{
    let len: usize = data.len();
    let mut offset: usize = 0;
    while len - offset >= 8
        invariant
            len == data@.len(),
            offset <= len,
            fragment_start(data@, 0) == fragment_start(data@, offset as int),
        decreases len - offset,
    {
        let size: u64 = read_size(data, offset);
        if size < 8 || size > (len - offset) as u64 {
            return Err(SegmentError::MalformedFragment);
        }
        if has_type(data, offset, 0x6d, 0x6f, 0x6f, 0x66) {
            let mut fragment: Vec<u8> = Vec::new();
            extend_from_range(&mut fragment, data, offset, len);
            proof {
                let tail = data@.subrange(offset as int, len as int);
                assert(fragment@ =~= tail);
                assert(tail.subrange(4, 8) =~= box_type(data@, offset as int));
            }
            return Ok(fragment);
        }
        offset = offset + size as usize;
    }
    Err(SegmentError::MalformedFragment)
}

/// The initialization segment of a transcoded file: its `ftyp` and `moov`
/// boxes up to the first `moof`, joined in the order met.
pub fn generate_init_segment(data: &[u8]) -> (init: Vec<u8>)
    ensures
        init@ == init_bytes(data@, 0),
{
    let len: usize = data.len();
    let mut init: Vec<u8> = Vec::new();
    let mut offset: usize = 0;
    assert(init@ + init_bytes(data@, 0) =~= init_bytes(data@, 0));
    while len - offset >= 8
        invariant
            len == data@.len(),
            offset <= len,
            init@ + init_bytes(data@, offset as int) == init_bytes(data@, 0),
        decreases len - offset,
    {
        let size: u64 = read_size(data, offset);
        if size < 8 || size > (len - offset) as u64 {
            assert(init@ =~= init@ + init_bytes(data@, offset as int));
            return init;
        }
        if has_type(data, offset, 0x6d, 0x6f, 0x6f, 0x66) {
            assert(init@ =~= init@ + init_bytes(data@, offset as int));
            return init;
        }
        let end: usize = offset + size as usize;
        let ghost before = init@;
        if has_type(data, offset, 0x66, 0x74, 0x79, 0x70) || has_type(
            data,
            offset,
            0x6d,
            0x6f,
            0x6f,
            0x76,
        ) {
            extend_from_range(&mut init, data, offset, end);
        }
        assert(init@ + init_bytes(data@, end as int) =~= before + init_bytes(
            data@,
            offset as int,
        ));
        offset = end;
    }
    assert(init@ =~= init@ + init_bytes(data@, offset as int));
    init
}

/// For a file that opens with one `ftyp` box and one `moov` box, followed by
/// a `moof` box or by nothing that walks, the initialization segment is
/// those two boxes and nothing else: a walk over it meets `ftyp`, then
/// `moov`, and ends at its last byte.
pub proof fn lemma_init_segment_shape(data: Seq<u8>)
    requires
        box_at(data, 0),
        box_type(data, 0) == ftyp_tag(),
        box_at(data, box_size(data, 0)),
        box_type(data, box_size(data, 0)) == moov_tag(),
        !box_at(data, box_size(data, 0) + box_size(data, box_size(data, 0))) || box_type(
            data,
            box_size(data, 0) + box_size(data, box_size(data, 0)),
        ) == moof_tag(),
    ensures
        init_bytes(data, 0) == data.subrange(
            0,
            box_size(data, 0) + box_size(data, box_size(data, 0)),
        ),
        box_types(init_bytes(data, 0), 0) == seq![ftyp_tag(), moov_tag()],
        walk_end(init_bytes(data, 0), 0) == init_bytes(data, 0).len(),
{
    let s1 = box_size(data, 0);
    let s2 = box_size(data, s1);
    let end = s1 + s2;
    assert(ftyp_tag()[0] != moof_tag()[0]);
    assert(moov_tag()[3] != moof_tag()[3]);
    assert(init_bytes(data, end) =~= Seq::<u8>::empty());
    assert(init_bytes(data, s1) =~= data.subrange(s1, end));
    let init = init_bytes(data, 0);
    assert(init =~= data.subrange(0, end));
    assert(box_size(init, 0) == s1);
    assert(box_type(init, 0) =~= box_type(data, 0));
    assert(box_at(init, 0));
    assert(box_size(init, s1) == s2);
    assert(box_type(init, s1) =~= box_type(data, s1));
    assert(box_at(init, s1));
    assert(!box_at(init, end));
    assert(box_types(init, end) =~= Seq::<Seq<u8>>::empty());
    assert(box_types(init, s1) =~= seq![moov_tag()]);
    assert(box_types(init, 0) =~= seq![ftyp_tag(), moov_tag()]);
    assert(walk_end(init, end) == end);
    assert(walk_end(init, s1) == end);
}

/// For a file that opens with one `ftyp` box, one `moov` box and a `moof`
/// box, the initialization segment followed by the stripped fragment is
/// the file again: nothing is lost and nothing is kept twice.
pub proof fn lemma_init_and_fragment_make_the_file(data: Seq<u8>)
    requires
        box_at(data, 0),
        box_type(data, 0) == ftyp_tag(),
        box_at(data, box_size(data, 0)),
        box_type(data, box_size(data, 0)) == moov_tag(),
        box_at(data, box_size(data, 0) + box_size(data, box_size(data, 0))),
        box_type(data, box_size(data, 0) + box_size(data, box_size(data, 0))) == moof_tag(),
    ensures
        fragment_start(data, 0) == Some(box_size(data, 0) + box_size(data, box_size(data, 0))),
        init_bytes(data, 0) + data.subrange(
            box_size(data, 0) + box_size(data, box_size(data, 0)),
            data.len() as int,
        ) == data,
{
    let s1 = box_size(data, 0);
    let end = s1 + box_size(data, s1);
    lemma_init_segment_shape(data);
    assert(ftyp_tag()[0] != moof_tag()[0]);
    assert(moov_tag()[3] != moof_tag()[3]);
    assert(fragment_start(data, end) == Some(end));
    assert(fragment_start(data, s1) == Some(end));
    assert(init_bytes(data, 0) + data.subrange(end, data.len() as int) =~= data);
}

/// Where the walk finds a `moof` box, it finds a whole box of that type at
/// or after the offset where it started.
pub proof fn lemma_fragment_start_is_moof(data: Seq<u8>, off: int)
    requires
        0 <= off,
        fragment_start(data, off) is Some,
    ensures
        off <= fragment_start(data, off)->Some_0,
        box_at(data, fragment_start(data, off)->Some_0),
        box_type(data, fragment_start(data, off)->Some_0) == moof_tag(),
    decreases data.len() - off,
{
    if box_at(data, off) && box_type(data, off) != moof_tag() {
        lemma_fragment_start_is_moof(data, off + box_size(data, off));
    }
}

/// The texts of a list of arguments.
pub open spec fn texts(args: Seq<String>) -> Seq<Seq<char>> {
    Seq::new(args.len(), |i: int| args[i]@)
}

/// The encoder arguments that cut `duration` microseconds of `source` from
/// `start` on into one fragmented MP4 at `output`, with the output
/// timestamps shifted by `start`.
pub open spec fn transcode_args(
    source: Seq<char>,
    start: nat,
    duration: nat,
    output: Seq<char>,
) -> Seq<Seq<char>> {
    seq![
        "-y"@,
        "-ss"@,
        fixed6(start),
        "-i"@,
        source,
        "-t"@,
        fixed6(duration),
        "-movflags"@,
        "frag_keyframe+empty_moov+default_base_moof"@,
        "-output_ts_offset"@,
        fixed6(start),
        output,
    ]
}

/// The encoder arguments that write one video frame of `source` as
/// fragmented MP4 to `output`.
pub open spec fn init_args(source: Seq<char>, output: Seq<char>) -> Seq<Seq<char>> {
    seq![
        "-y"@,
        "-i"@,
        source,
        "-frames:v"@,
        "1"@,
        "-movflags"@,
        "frag_keyframe+empty_moov+default_base_moof"@,
        output,
    ]
}

/// A time in microseconds as seconds with six decimals.
pub fn seconds_text(micros: u64) -> (text: String)
    ensures
        text@ == fixed6(micros as nat),
{
    let mut text = String::new();
    push_fixed6(&mut text, micros);
    assert(text@ =~= fixed6(micros as nat));
    text
}

/// The arguments for the encoder to transcode the segment that starts at
/// `start` and lasts `duration`, both in microseconds, from `source` into
/// the scratch file `output`.
pub fn transcode_at(source: &str, start: u64, duration: u64, output: &str) -> (args: Vec<String>)
    ensures
        texts(args@) == transcode_args(source@, start as nat, duration as nat, output@),
{
    let mut args: Vec<String> = Vec::new();
    args.push(String::from_str("-y"));
    args.push(String::from_str("-ss"));
    args.push(seconds_text(start));
    args.push(String::from_str("-i"));
    args.push(String::from_str(source));
    args.push(String::from_str("-t"));
    args.push(seconds_text(duration));
    args.push(String::from_str("-movflags"));
    args.push(String::from_str("frag_keyframe+empty_moov+default_base_moof"));
    args.push(String::from_str("-output_ts_offset"));
    args.push(seconds_text(start));
    args.push(String::from_str(output));
    assert(texts(args@) =~= transcode_args(source@, start as nat, duration as nat, output@));
    args
}

/// The arguments for the encoder to write the one-frame file from which
/// the initialization segment of `source` is taken.
pub fn init_segment_args(source: &str, output: &str) -> (args: Vec<String>)
    ensures
        texts(args@) == init_args(source@, output@),
{
    let mut args: Vec<String> = Vec::new();
    args.push(String::from_str("-y"));
    args.push(String::from_str("-i"));
    args.push(String::from_str(source));
    args.push(String::from_str("-frames:v"));
    args.push(String::from_str("1"));
    args.push(String::from_str("-movflags"));
    args.push(String::from_str("frag_keyframe+empty_moov+default_base_moof"));
    args.push(String::from_str(output));
    assert(texts(args@) =~= init_args(source@, output@));
    args
}

} // verus!
