//! Segments: the independently provable slices of one execution, and the
//! claims they give rise to.

use vstd::prelude::*;

use crate::image::{
    copy_bytes, copy_words, memory_root_of, zero_digest, Digest, MemoryImage, SystemState,
    WORD_SIZE,
};

verus! {

/// How a segment or a session ended.
#[derive(Clone, Copy, Debug, PartialEq, Eq, Structural)]
pub enum ExitCode {
    /// The guest halted with the given user code.
    Halted(u32),
    /// The guest paused with the given user code and may be resumed.
    Paused(u32),
    /// The host split the execution here; another segment follows.
    SystemSplit,
    /// The execution reached the session's cycle limit.
    SessionLimit,
}

impl ExitCode {
    /// Whether a run that ends this way commits public output.
    pub open spec fn spec_expects_output(self) -> bool {
        self is Halted || self is Paused
    }

    /// Whether a run that ends this way commits public output.
    pub fn expects_output(&self) -> (r: bool)
        ensures
            r == self.spec_expects_output(),
    {
        match self {
            ExitCode::Halted(_) | ExitCode::Paused(_) => true,
            _ => false,
        }
    }
}

/// The public output of a run: its journal and the digests of the claims it
/// still assumes.
pub struct Output {
    pub journal: Vec<u8>,
    pub assumptions: Vec<Digest>,
}

/// The mathematical value of an [Output].
pub ghost struct OutputView {
    pub journal: Seq<u8>,
    pub assumptions: Seq<Seq<u8>>,
}

/// The views of a list of digests.
pub open spec fn digests_view(ds: Seq<Digest>) -> Seq<Seq<u8>> {
    ds.map_values(|d: Digest| d@)
}

impl View for Output {
    type V = OutputView;

    open spec fn view(&self) -> OutputView {
        OutputView { journal: self.journal@, assumptions: digests_view(self.assumptions@) }
    }
}

/// A copy of a list of digests.
pub fn copy_digests(ds: &Vec<Digest>) -> (r: Vec<Digest>)
    ensures
        digests_view(r@) == digests_view(ds@),
{
    let mut r: Vec<Digest> = Vec::new();
    let mut i: usize = 0;
    while i < ds.len()
        invariant
            i <= ds@.len(),
            r@.len() == i,
            forall|j: int| 0 <= j < i ==> (#[trigger] r@[j])@ == ds@[j]@,
        decreases ds@.len() - i,
    {
        r.push(ds[i].duplicate());
        i = i + 1;
    }
    assert(digests_view(r@) =~= digests_view(ds@));
    r
}

impl Output {
    /// A copy of this output.
    pub fn duplicate(&self) -> (r: Output)
        ensures
            r@ == self@,
    {
        Output { journal: copy_bytes(&self.journal), assumptions: copy_digests(&self.assumptions) }
    }
}

/// The view of an optional output.
pub open spec fn output_view(o: Option<Output>) -> Option<OutputView> {
    match o {
        Some(out) => Some(out@),
        None => None,
    }
}

/// A copy of an optional output.
pub fn copy_output(o: &Option<Output>) -> (r: Option<Output>)
    ensures
        output_view(r) == output_view(*o),
{
    match o {
        Some(out) => Some(out.duplicate()),
        None => None,
    }
}

/// Whether a list of page indices is strictly increasing, hence free of
/// repeats.
pub open spec fn strictly_increasing(s: Seq<u32>) -> bool {
    forall|i: int, j: int| 0 <= i < j < s.len() ==> s[i] < s[j]
}

fn check_strictly_increasing(v: &Vec<u32>) -> (r: bool)
    ensures
        r == strictly_increasing(v@),
{
    let mut i: usize = 1;
    if v.len() == 0 {
        return true;
    }
    while i < v.len()
        invariant
            1 <= i <= v@.len(),
            forall|a: int, b: int| 0 <= a < b < i ==> #[trigger] v@[a] < #[trigger] v@[b],
        decreases v@.len() - i,
    {
        if v[i - 1] >= v[i] {
            assert(v@[i - 1] >= v@[i as int]);
            return false;
        }
        assert forall|a: int, b: int| 0 <= a < b < i + 1 implies #[trigger] v@[a] < #[trigger] v@[b] by {
            if b == i && a < i - 1 {
                assert(v@[a] < v@[i - 1]);
            }
        }
        i = i + 1;
    }
    true
}

/// The pages first read and first written during a segment, each as an
/// increasing list of page indices.
pub struct PageFaults {
    pub reads: Vec<u32>,
    pub writes: Vec<u32>,
}

impl View for PageFaults {
    type V = (Seq<u32>, Seq<u32>);

    open spec fn view(&self) -> (Seq<u32>, Seq<u32>) {
        (self.reads@, self.writes@)
    }
}

impl PageFaults {
    /// Each list is strictly increasing.
    pub open spec fn wf(&self) -> bool {
        strictly_increasing(self.reads@) && strictly_increasing(self.writes@)
    }

    /// No faults at all.
    pub fn empty() -> (r: PageFaults)
        ensures
            r@ == (Seq::<u32>::empty(), Seq::<u32>::empty()),
            r.wf(),
    {
        PageFaults { reads: Vec::new(), writes: Vec::new() }
    }

    /// The faults with the given page indices, or `None` where a list is not
    /// strictly increasing.
    pub fn new(reads: Vec<u32>, writes: Vec<u32>) -> (r: Option<PageFaults>)
        ensures
            r is Some <==> strictly_increasing(reads@) && strictly_increasing(writes@),
            r matches Some(f) ==> f@ == (reads@, writes@) && f.wf(),
    {
        if check_strictly_increasing(&reads) && check_strictly_increasing(&writes) {
            Some(PageFaults { reads, writes })
        } else {
            None
        }
    }

    /// A copy of these faults.
    pub fn duplicate(&self) -> (r: PageFaults)
        ensures
            r@ == self@,
    {
        PageFaults { reads: copy_words(&self.reads), writes: copy_words(&self.writes) }
    }
}

/// One system call made by the guest: the words handed back to it and the two
/// registers it returned in.
pub struct SyscallRecord {
    pub to_guest: Vec<u32>,
    pub regs: (u32, u32),
}

impl View for SyscallRecord {
    type V = (Seq<u32>, (u32, u32));

    open spec fn view(&self) -> (Seq<u32>, (u32, u32)) {
        (self.to_guest@, self.regs)
    }
}

/// The views of a list of system call records.
pub open spec fn syscalls_view(s: Seq<SyscallRecord>) -> Seq<(Seq<u32>, (u32, u32))> {
    s.map_values(|r: SyscallRecord| r@)
}

fn copy_syscalls(s: &Vec<SyscallRecord>) -> (r: Vec<SyscallRecord>)
    ensures
        syscalls_view(r@) == syscalls_view(s@),
{
    let mut r: Vec<SyscallRecord> = Vec::new();
    let mut i: usize = 0;
    while i < s.len()
        invariant
            i <= s@.len(),
            r@.len() == i,
            forall|j: int| 0 <= j < i ==> (#[trigger] r@[j])@ == s@[j]@,
        decreases s@.len() - i,
    {
        r.push(SyscallRecord { to_guest: copy_words(&s[i].to_guest), regs: s[i].regs });
        i = i + 1;
    }
    assert(syscalls_view(r@) =~= syscalls_view(s@));
    r
}

/// The mathematical value of a [Segment].
pub ghost struct SegmentView {
    pub pre_image: (u32, Seq<(u32, u32)>),
    pub post_state: (u32, Seq<u8>),
    pub output: Option<OutputView>,
    pub faults: (Seq<u32>, Seq<u32>),
    pub syscalls: Seq<(Seq<u32>, (u32, u32))>,
    pub split_insn: Option<u32>,
    pub exit_code: ExitCode,
    pub po2: u32,
    pub index: u32,
    pub cycles: u32,
}

/// One chunk of execution, proven in a single call to the proof system.
pub struct Segment {
    pub pre_image: MemoryImage,
    /// The state at the end of the segment as the emulator saw it; the claim's
    /// post state differs from it (see [Segment::get_claim]).
    pub post_state: SystemState,
    pub output: Option<Output>,
    pub faults: PageFaults,
    pub syscalls: Vec<SyscallRecord>,
    pub split_insn: Option<u32>,
    pub exit_code: ExitCode,
    /// The cycle budget of this segment, as a power of two.
    pub po2: u32,
    /// The position of this segment within its session.
    pub index: u32,
    /// The cycles spent on user instructions.
    pub cycles: u32,
}

impl View for Segment {
    type V = SegmentView;

    open spec fn view(&self) -> SegmentView {
        SegmentView {
            pre_image: (self.pre_image.pc, self.pre_image.words@),
            post_state: (self.post_state.pc, self.post_state.merkle_root@),
            output: output_view(self.output),
            faults: self.faults@,
            syscalls: syscalls_view(self.syscalls@),
            split_insn: self.split_insn,
            exit_code: self.exit_code,
            po2: self.po2,
            index: self.index,
            cycles: self.cycles,
        }
    }
}

impl Segment {
    /// The pre-image is valid, the fault lists are strictly increasing, and
    /// the cycle budget fits in 64 bits.
    pub open spec fn wf(&self) -> bool {
        self.pre_image.wf() && self.faults.wf() && self.po2 < 64
    }

    /// Builds a segment from its parts.
    pub fn new(
        pre_image: MemoryImage,
        post_state: SystemState,
        output: Option<Output>,
        faults: PageFaults,
        syscalls: Vec<SyscallRecord>,
        exit_code: ExitCode,
        split_insn: Option<u32>,
        po2: u32,
        index: u32,
        cycles: u32,
    ) -> (r: Segment)
        requires
            pre_image.wf(),
            faults.wf(),
            po2 < 64,
        ensures
            r.wf(),
            r.pre_image.pc == pre_image.pc,
            r.pre_image.words@ == pre_image.words@,
            r.post_state.pc == post_state.pc,
            r.post_state.merkle_root@ == post_state.merkle_root@,
            output_view(r.output) == output_view(output),
            r.faults@ == faults@,
            syscalls_view(r.syscalls@) == syscalls_view(syscalls@),
            r.split_insn == split_insn,
            r.exit_code == exit_code,
            r.po2 == po2,
            r.index == index,
            r.cycles == cycles,
    {
        Segment {
            pre_image,
            post_state,
            output,
            faults,
            syscalls,
            split_insn,
            exit_code,
            po2,
            index,
            cycles,
        }
    }

    /// A copy of this segment.
    pub fn duplicate(&self) -> (r: Segment)
        ensures
            r@ == self@,
    {
        Segment {
            pre_image: self.pre_image.duplicate(),
            post_state: self.post_state.duplicate(),
            output: copy_output(&self.output),
            faults: self.faults.duplicate(),
            syscalls: copy_syscalls(&self.syscalls),
            split_insn: self.split_insn,
            exit_code: self.exit_code,
            po2: self.po2,
            index: self.index,
            cycles: self.cycles,
        }
    }

    /// The claim that a proof of this segment attests to.
    ///
    /// Its post state has the program counter one word past the segment's
    /// post state. A halted segment does not change memory after its halting
    /// instruction, so its post root is the root of its pre-image; otherwise
    /// it is the root of the segment's post state.
    pub fn get_claim(&self) -> (r: Result<ReceiptClaim, SessionError>)
        requires
            self.wf(),
        ensures
            r is Err <==> self.post_state.pc + WORD_SIZE > u32::MAX,
            r matches Err(e) ==> e == SessionError::InvalidPc,
            r matches Ok(c) ==> {
                &&& c.pre.pc == self.pre_image.pc
                &&& c.pre.merkle_root@ == memory_root_of(self.pre_image.words@)
                &&& c.post.pc == self.post_state.pc + WORD_SIZE
                &&& c.post.merkle_root@ == (if self.exit_code is Halted {
                    memory_root_of(self.pre_image.words@)
                } else {
                    self.post_state.merkle_root@
                })
                &&& c.exit_code == self.exit_code
                &&& c.input@ == zero_digest()
                &&& output_view(c.output) == output_view(self.output)
            },
    {
        let pc = match self.post_state.pc.checked_add(WORD_SIZE) {
            Some(pc) => pc,
            None => return Err(SessionError::InvalidPc),
        };
        let merkle_root = match self.exit_code {
            ExitCode::Halted(_) => self.pre_image.compute_root_hash(),
            _ => self.post_state.merkle_root.duplicate(),
        };
        Ok(ReceiptClaim {
            pre: SystemState::of_image(&self.pre_image),
            post: SystemState { pc, merkle_root },
            exit_code: self.exit_code,
            input: Digest::zero(),
            output: copy_output(&self.output),
        })
    }
}

/// The statement that a proof attests to: the machine went from `pre` to
/// `post`, ended with `exit_code`, and committed `output`.
pub struct ReceiptClaim {
    pub pre: SystemState,
    pub post: SystemState,
    pub exit_code: ExitCode,
    /// The digest of the input; always zero on this host.
    pub input: Digest,
    pub output: Option<Output>,
}

/// Why a segment reference could not be turned into a segment.
#[derive(Debug)]
pub enum ResolutionError {
    /// The storage behind the reference could not be read or written.
    Io(String),
    /// The stored bytes do not carry a segment frame of a known version.
    Frame(crate::storage::FrameError),
    /// The segment could not be encoded for storage.
    Encode(String),
    /// The framed payload could not be decoded into a segment.
    Decode(String),
}

/// Why a session or segment operation failed.
#[derive(Debug)]
pub enum SessionError {
    /// The session has no segments.
    EmptySession,
    /// The exit code does not commit output, yet a journal or assumptions are
    /// present.
    InconsistentSession,
    /// The post program counter plus one word overflows.
    InvalidPc,
    /// A segment could not be resolved.
    Resolution(ResolutionError),
    /// A cycle total does not fit in 64 bits.
    CycleOverflow,
}

} // verus!
