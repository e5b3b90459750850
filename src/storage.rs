//! Segment references: where a segment lives until it is needed.
//!
//! A reference either holds its segment in memory or names a file that holds
//! the segment in a framed, versioned encoding. The frame is checked here; the
//! payload inside it is the segment's serialized form.

use vstd::prelude::*;
use vstd::string::StrSliceExecFns;

use crate::segment::{ResolutionError, Segment, SegmentView};

verus! {

/// What resolving a reference promises of a result: a well-formed segment
/// equal to the reference's target, or an error exactly where the reference
/// has no target.
pub open spec fn resolves_to(target: Option<SegmentView>, res: Result<Segment, ResolutionError>) -> bool {
    match res {
        Ok(s) => target == Some(s@) && s.wf(),
        Err(_) => target is None,
    }
}

/// A reference to a segment that can be materialized on demand.
///
/// Resolution has no effect beyond reading storage, and resolving the same
/// reference again gives an equal segment.
pub trait SegmentRef: Sized {
    /// The segment this reference stands for, or `None` where it cannot be
    /// materialized.
    spec fn target(&self) -> Option<SegmentView>;

    /// Materializes the referenced segment.
    fn resolve(&self) -> (r: Result<Segment, ResolutionError>)
        ensures
            resolves_to(self.target(), r),
    ;
}

/// Two results of resolving the same reference agree: both succeed with
/// equal segments, or both fail.
pub proof fn lemma_resolve_idempotent<R: SegmentRef>(
    reference: &R,
    first: Result<Segment, ResolutionError>,
    second: Result<Segment, ResolutionError>,
)
    requires
        resolves_to(reference.target(), first),
        resolves_to(reference.target(), second),
    ensures
        first is Ok <==> second is Ok,
        first matches Ok(a) ==> second matches Ok(b) && a@ == b@,
{
}

/// A reference that holds its segment in memory.
pub struct SimpleSegmentRef {
    segment: Segment,
}

impl SimpleSegmentRef {
    /// The segment held is well formed.
    #[verifier::type_invariant]
    spec fn inv(&self) -> bool {
        self.segment.wf()
    }

    /// The segment held.
    pub closed spec fn held(&self) -> SegmentView {
        self.segment@
    }

    /// A reference holding `segment`.
    pub fn new(segment: Segment) -> (r: SimpleSegmentRef)
        requires
            segment.wf(),
        ensures
            r.held() == segment@,
            r.target() == Some(segment@),
    {
        SimpleSegmentRef { segment }
    }
}

impl SegmentRef for SimpleSegmentRef {
    open spec fn target(&self) -> Option<SegmentView> {
        Some(self.held())
    }

    fn resolve(&self) -> (r: Result<Segment, ResolutionError>) {
        proof {
            use_type_invariant(self);
        }
        Ok(self.segment.duplicate())
    }
}

/// Resolving an in-memory reference always succeeds, and two resolutions
/// give the segment held.
pub proof fn lemma_simple_resolve_always_succeeds(
    reference: &SimpleSegmentRef,
    first: Result<Segment, ResolutionError>,
    second: Result<Segment, ResolutionError>,
)
    requires
        resolves_to(reference.target(), first),
        resolves_to(reference.target(), second),
    ensures
        first matches Ok(a) && a@ == reference.held(),
        second matches Ok(b) && b@ == reference.held(),
{
}

/// Why stored bytes do not carry a segment frame.
#[derive(Debug, PartialEq, Eq, Structural)]
pub enum FrameError {
    /// Fewer bytes than a frame header.
    Truncated,
    /// The header does not start with the segment tag.
    BadMagic,
    /// The header names an encoding version this library does not read.
    UnsupportedVersion(u32),
}

/// The encoding version written by this library.
pub const FRAME_VERSION: u32 = 1;

/// Length in bytes of a frame header: a four-byte tag and a little-endian
/// version.
pub const FRAME_HEADER_LEN: usize = 8;

/// The four-byte tag that starts every segment file.
pub open spec fn frame_magic() -> Seq<u8> {
    seq![0x52u8, 0x30u8, 0x53u8, 0x47u8]
}

/// The little-endian bytes of a word.
pub open spec fn le_bytes(x: u32) -> Seq<u8> {
    seq![(x & 0xff) as u8, ((x >> 8) & 0xff) as u8, ((x >> 16) & 0xff) as u8, ((x >> 24) & 0xff) as u8]
}

/// The word whose little-endian bytes start `s`.
pub open spec fn le_word(s: Seq<u8>) -> u32 {
    (s[0] as u32) | ((s[1] as u32) << 8) | ((s[2] as u32) << 16) | ((s[3] as u32) << 24)
}

proof fn lemma_le_round_trip(x: u32)
    ensures
        le_word(le_bytes(x)) == x,
{
    let b0 = (x & 0xff) as u8;
    let b1 = ((x >> 8) & 0xff) as u8;
    let b2 = ((x >> 16) & 0xff) as u8;
    let b3 = ((x >> 24) & 0xff) as u8;
    assert(((b0 as u32) | ((b1 as u32) << 8) | ((b2 as u32) << 16) | ((b3 as u32) << 24)) == x)
        by (bit_vector)
        requires
            b0 == (x & 0xff) as u8,
            b1 == ((x >> 8) & 0xff) as u8,
            b2 == ((x >> 16) & 0xff) as u8,
            b3 == ((x >> 24) & 0xff) as u8,
    ;
}

/// The framed form of a payload: tag, version, payload.
pub open spec fn framed(payload: Seq<u8>) -> Seq<u8> {
    frame_magic() + le_bytes(FRAME_VERSION) + payload
}

/// What reading a frame gives: the payload, or why there is none.
pub open spec fn unframed(s: Seq<u8>) -> Result<Seq<u8>, FrameError> {
    if s.len() < FRAME_HEADER_LEN {
        Err(FrameError::Truncated)
    } else if s.subrange(0, 4) != frame_magic() {
        Err(FrameError::BadMagic)
    } else if le_word(s.subrange(4, 8)) != FRAME_VERSION {
        Err(FrameError::UnsupportedVersion(le_word(s.subrange(4, 8))))
    } else {
        Ok(s.subrange(8, s.len() as int))
    }
}

/// Reading back a framed payload gives the payload.
pub proof fn lemma_frame_round_trip(payload: Seq<u8>)
    ensures
        unframed(framed(payload)) == Ok::<Seq<u8>, FrameError>(payload),
{
    let f = framed(payload);
    lemma_le_round_trip(FRAME_VERSION);
    assert(f.subrange(0, 4) =~= frame_magic());
    assert(f.subrange(4, 8) =~= le_bytes(FRAME_VERSION));
    assert(f.subrange(8, f.len() as int) =~= payload);
}

/// The framed form of a payload.
pub fn frame_segment(payload: &[u8]) -> (r: Vec<u8>)
    ensures
        r@ == framed(payload@),
{
    let mut r: Vec<u8> = vec![0x52u8, 0x30u8, 0x53u8, 0x47u8];
    let v = FRAME_VERSION;
    r.push((v & 0xff) as u8);
    r.push(((v >> 8) & 0xff) as u8);
    r.push(((v >> 16) & 0xff) as u8);
    r.push(((v >> 24) & 0xff) as u8);
    let ghost header = r@;
    assert(header =~= frame_magic() + le_bytes(FRAME_VERSION));
    let mut i: usize = 0;
    while i < payload.len()
        invariant
            i <= payload@.len(),
            r@ == header + payload@.subrange(0, i as int),
        decreases payload@.len() - i,
    {
        r.push(payload[i]);
        i = i + 1;
        assert(r@ =~= header + payload@.subrange(0, i as int));
    }
    assert(payload@.subrange(0, payload@.len() as int) =~= payload@);
    r
}

/// The payload of framed bytes, or why they carry no frame.
pub fn unframe_segment(bytes: &[u8]) -> (r: Result<Vec<u8>, FrameError>)
    ensures
        r matches Ok(p) ==> unframed(bytes@) == Ok::<Seq<u8>, FrameError>(p@),
        r matches Err(e) ==> unframed(bytes@) == Err::<Seq<u8>, FrameError>(e),
{
    if bytes.len() < FRAME_HEADER_LEN {
        return Err(FrameError::Truncated);
    }
    if bytes[0] != 0x52u8 || bytes[1] != 0x30u8 || bytes[2] != 0x53u8 || bytes[3] != 0x47u8 {
        assert(bytes@.subrange(0, 4) != frame_magic()) by {
            if bytes@.subrange(0, 4) == frame_magic() {
                assert(bytes@.subrange(0, 4)[0] == bytes@[0]);
                assert(bytes@.subrange(0, 4)[1] == bytes@[1]);
                assert(bytes@.subrange(0, 4)[2] == bytes@[2]);
                assert(bytes@.subrange(0, 4)[3] == bytes@[3]);
            }
        }
        return Err(FrameError::BadMagic);
    }
    assert(bytes@.subrange(0, 4) =~= frame_magic());
    let version: u32 = (bytes[4] as u32) | ((bytes[5] as u32) << 8) | ((bytes[6] as u32) << 16)
        | ((bytes[7] as u32) << 24);
    assert(version == le_word(bytes@.subrange(4, 8)));
    if version != FRAME_VERSION {
        return Err(FrameError::UnsupportedVersion(version));
    }
    let mut p: Vec<u8> = Vec::new();
    let mut i: usize = FRAME_HEADER_LEN;
    while i < bytes.len()
        invariant
            FRAME_HEADER_LEN <= i <= bytes@.len(),
            p@ == bytes@.subrange(8, i as int),
        decreases bytes@.len() - i,
    {
        p.push(bytes[i]);
        i = i + 1;
        assert(p@ =~= bytes@.subrange(8, i as int));
    }
    Ok(p)
}

/// The decimal digits of a number.
pub open spec fn decimal(n: nat) -> Seq<char>
    decreases n,
{
    if n < 10 {
        seq![digit_char(n)]
    } else {
        decimal(n / 10).push(digit_char(n % 10))
    }
}

/// The character of a decimal digit.
pub open spec fn digit_char(d: nat) -> char {
    if d == 0 { '0' }
    else if d == 1 { '1' }
    else if d == 2 { '2' }
    else if d == 3 { '3' }
    else if d == 4 { '4' }
    else if d == 5 { '5' }
    else if d == 6 { '6' }
    else if d == 7 { '7' }
    else if d == 8 { '8' }
    else { '9' }
}

/// The one-character string of a decimal digit.
fn digit_str(d: u32) -> (r: &'static str)
    requires
        d < 10,
    ensures
        r@ == seq![digit_char(d as nat)],
{
    proof {
        reveal_strlit("0");
        reveal_strlit("1");
        reveal_strlit("2");
        reveal_strlit("3");
        reveal_strlit("4");
        reveal_strlit("5");
        reveal_strlit("6");
        reveal_strlit("7");
        reveal_strlit("8");
        reveal_strlit("9");
    }
    let r = if d == 0 { "0" } else if d == 1 { "1" } else if d == 2 { "2" } else if d == 3 { "3" }
        else if d == 4 { "4" } else if d == 5 { "5" } else if d == 6 { "6" } else if d == 7 { "7" }
        else if d == 8 { "8" } else { "9" };
    assert(r@ =~= seq![digit_char(d as nat)]);
    r
}

/// The decimal digits of a number, without sign or padding.
pub fn decimal_string(n: u32) -> (r: String)
    ensures
        r@ == decimal(n as nat),
    decreases n,
{
    if n < 10 {
        digit_str(n).to_owned()
    } else {
        let high = decimal_string(n / 10);
        let r = high.concat(digit_str(n % 10));
        assert(r@ =~= decimal(n as nat));
        r
    }
}

/// The file extension of a stored segment.
pub open spec fn segment_extension() -> Seq<char> {
    seq!['.', 's', 'e', 'g']
}

/// A file name inside a directory: an empty directory is the current one,
/// and a separator is put in only where the directory does not end in one.
pub open spec fn join_path(dir: Seq<char>, name: Seq<char>) -> Seq<char> {
    if dir.len() == 0 || dir.last() == '/' {
        dir + name
    } else {
        dir + seq!['/'] + name
    }
}

/// The path of the file that holds the segment with `index` inside `dir`.
pub open spec fn segment_path(dir: Seq<char>, index: u32) -> Seq<char> {
    join_path(dir, decimal(index as nat) + segment_extension())
}

/// A reference to a segment stored in a file. The file is named after the
/// segment's index inside a directory chosen by the caller; the caller writes
/// [frame_segment]'s bytes there and reads them back through
/// [unframe_segment].
pub struct FileSegmentRef {
    path: String,
}

impl FileSegmentRef {
    /// The path of the file.
    pub closed spec fn spec_path(&self) -> Seq<char> {
        self.path@
    }

    /// A reference to the file inside `dir` that holds `segment`.
    pub fn new(segment: &Segment, dir: &str) -> (r: FileSegmentRef)
        ensures
            r.spec_path() == segment_path(dir@, segment.index),
    {
        let digits = decimal_string(segment.index);
        let name = digits.concat(".seg");
        proof {
            reveal_strlit(".seg");
            assert(name@ =~= decimal(segment.index as nat) + segment_extension());
        }
        let len = dir.unicode_len();
        let d = dir.to_owned();
        let path = if len == 0 || dir.get_char(len - 1) == '/' {
            d.concat(name.as_str())
        } else {
            let with_sep = d.concat("/");
            proof {
                reveal_strlit("/");
            }
            with_sep.concat(name.as_str())
        };
        assert(path@ =~= segment_path(dir@, segment.index));
        FileSegmentRef { path }
    }

    /// The path of the file.
    pub fn path(&self) -> (r: &str)
        ensures
            r@ == self.spec_path(),
    {
        self.path.as_str()
    }
}

} // verus!
