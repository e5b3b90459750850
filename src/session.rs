//! Sessions: the ordered segments of one complete run, with its output and
//! final memory, and the claim derived from them.

use vstd::prelude::*;
use vstd::arithmetic::power2::pow2;
use vstd::bits::{lemma_u64_pow2_no_overflow, lemma_u64_shl_is_mul};

use crate::image::{copy_bytes, memory_root_of, zero_digest, Digest, MemoryImage, SystemState, WORD_SIZE};
use crate::segment::{
    digests_view, output_view, ExitCode, Output, OutputView, ReceiptClaim, Segment, SegmentView,
    SessionError,
};
use crate::storage::SegmentRef;

verus! {

/// A claim this run relied on: already proven, with the bytes of its
/// receipt, or still unresolved, with the digest of the claim.
pub enum Assumption {
    Proven(Vec<u8>),
    Unresolved(Digest),
}

/// The claim digests of the unresolved assumptions, in order.
pub open spec fn unresolved_claims(s: Seq<Assumption>) -> Seq<Seq<u8>>
    decreases s.len(),
{
    if s.len() == 0 {
        Seq::empty()
    } else {
        let rest = unresolved_claims(s.drop_last());
        match s.last() {
            Assumption::Unresolved(d) => rest.push(d@),
            Assumption::Proven(_) => rest,
        }
    }
}

/// The total prover cycles of a list of segments: each costs two to the
/// power of its `po2`.
pub open spec fn total_cycles(s: Seq<SegmentView>) -> nat
    decreases s.len(),
{
    if s.len() == 0 {
        0
    } else {
        total_cycles(s.drop_last()) + pow2(s.last().po2 as nat)
    }
}

/// The total user cycles of a list of segments.
pub open spec fn user_cycles(s: Seq<SegmentView>) -> nat
    decreases s.len(),
{
    if s.len() == 0 {
        0
    } else {
        user_cycles(s.drop_last()) + s.last().cycles as nat
    }
}

/// The record of one run: its segments in order, the journal it committed,
/// how it ended, its final memory, and the assumptions it made.
pub struct Session<R: SegmentRef> {
    pub segments: Vec<R>,
    pub journal: Option<Vec<u8>>,
    pub exit_code: ExitCode,
    pub post_image: MemoryImage,
    pub assumptions: Vec<Assumption>,
}

impl<R: SegmentRef> Session<R> {
    /// The targets of the segment references, in order.
    pub open spec fn targets(&self) -> Seq<Option<SegmentView>> {
        self.segments@.map_values(|r: R| r.target())
    }

    /// Every segment reference can be resolved.
    pub open spec fn all_resolvable(&self) -> bool {
        forall|i: int| 0 <= i < self.segments@.len() ==> (#[trigger] self.segments@[i]).target() is Some
    }

    /// The segments of the session, where all can be resolved.
    pub open spec fn segment_views(&self) -> Seq<SegmentView> {
        self.segments@.map_values(|r: R| r.target()->Some_0)
    }

    /// The session's exit code forbids output, yet it holds a journal or
    /// assumptions.
    pub open spec fn inconsistent(&self) -> bool {
        !self.exit_code.spec_expects_output() && (self.journal is Some || self.assumptions@.len() > 0)
    }

    /// The output that the session's claim commits.
    pub open spec fn claim_output(&self) -> Option<OutputView> {
        if self.exit_code.spec_expects_output() {
            match self.journal {
                Some(j) => Some(OutputView { journal: j@, assumptions: unresolved_claims(self.assumptions@) }),
                None => None,
            }
        } else {
            None
        }
    }

    /// Builds a session from its parts.
    pub fn new(
        segments: Vec<R>,
        journal: Option<Vec<u8>>,
        exit_code: ExitCode,
        post_image: MemoryImage,
        assumptions: Vec<Assumption>,
    ) -> (r: Session<R>)
        requires
            post_image.wf(),
        ensures
            r.segments@ == segments@,
            r.journal == journal,
            r.exit_code == exit_code,
            r.post_image == post_image,
            r.assumptions@ == assumptions@,
    {
        Session { segments, journal, exit_code, post_image, assumptions }
    }

    /// The number of segments.
    pub fn segment_count(&self) -> (r: usize)
        ensures
            r == self.segments@.len(),
    {
        self.segments.len()
    }

    /// Resolves every segment reference, in order.
    pub fn resolve(&self) -> (r: Result<Vec<Segment>, SessionError>)
        ensures
            r is Ok <==> self.all_resolvable(),
            r matches Ok(v) ==> v@.len() == self.segments@.len() && forall|i: int|
                0 <= i < v@.len() ==> #[trigger] v@[i]@ == self.segment_views()[i] && v@[i].wf(),
            r matches Err(e) ==> e is Resolution,
    {
        let mut out: Vec<Segment> = Vec::new();
        let mut i: usize = 0;
        while i < self.segments.len()
            invariant
                i <= self.segments@.len(),
                out@.len() == i,
                forall|j: int| 0 <= j < i ==> (#[trigger] self.segments@[j]).target() is Some,
                forall|j: int| 0 <= j < i ==> #[trigger] out@[j]@ == self.segment_views()[j] && out@[j].wf(),
            decreases self.segments@.len() - i,
        {
            match self.segments[i].resolve() {
                Ok(s) => {
                    out.push(s);
                },
                Err(e) => {
                    return Err(SessionError::Resolution(e));
                },
            }
            i = i + 1;
        }
        Ok(out)
    }

    /// The claim that a proof of this session attests to.
    ///
    /// Its pre state is that of the first segment's pre-image. Its post
    /// program counter is one word past the final image's. A halted run does
    /// not change memory after its halting instruction, so the post root is
    /// that of the last segment's pre-image; otherwise it is the final
    /// image's. Proven assumptions are left out of the output: the verifier
    /// accounts for them separately.
    pub fn get_claim(&self) -> (r: Result<ReceiptClaim, SessionError>)
        requires
            self.post_image.wf(),
        ensures
            r matches Err(SessionError::EmptySession) <==> self.segments@.len() == 0,
            r matches Err(SessionError::Resolution(_)) <==> self.segments@.len() > 0 && (
                self.segments@[0].target() is None || self.segments@.last().target() is None),
            r matches Err(SessionError::InconsistentSession) <==> self.segments@.len() > 0
                && self.segments@[0].target() is Some && self.segments@.last().target() is Some
                && self.inconsistent(),
            r matches Err(SessionError::InvalidPc) <==> self.segments@.len() > 0
                && self.segments@[0].target() is Some && self.segments@.last().target() is Some
                && !self.inconsistent() && self.post_image.pc + WORD_SIZE > u32::MAX,
            !(r matches Err(SessionError::CycleOverflow)),
            r matches Ok(c) ==> {
                let first = self.segments@[0].target()->Some_0;
                let last = self.segments@.last().target()->Some_0;
                &&& c.pre.pc == first.pre_image.0
                &&& c.pre.merkle_root@ == memory_root_of(first.pre_image.1)
                &&& c.post.pc == self.post_image.pc + WORD_SIZE
                &&& c.post.merkle_root@ == (if self.exit_code is Halted {
                    memory_root_of(last.pre_image.1)
                } else {
                    memory_root_of(self.post_image.words@)
                })
                &&& c.exit_code == self.exit_code
                &&& c.input@ == zero_digest()
                &&& output_view(c.output) == self.claim_output()
            },
    {
        if self.segments.len() == 0 {
            return Err(SessionError::EmptySession);
        }
        let first = match self.segments[0].resolve() {
            Ok(s) => s,
            Err(e) => return Err(SessionError::Resolution(e)),
        };
        let last = match self.segments[self.segments.len() - 1].resolve() {
            Ok(s) => s,
            Err(e) => return Err(SessionError::Resolution(e)),
        };
        let output = if self.exit_code.expects_output() {
            match &self.journal {
                Some(j) => Some(
                    Output { journal: copy_bytes(j), assumptions: self.unresolved_assumptions() },
                ),
                None => None,
            }
        } else {
            if self.journal.is_some() || self.assumptions.len() > 0 {
                return Err(SessionError::InconsistentSession);
            }
            None
        };
        let pc = match self.post_image.pc.checked_add(WORD_SIZE) {
            Some(pc) => pc,
            None => return Err(SessionError::InvalidPc),
        };
        let merkle_root = match self.exit_code {
            ExitCode::Halted(_) => last.pre_image.compute_root_hash(),
            _ => self.post_image.compute_root_hash(),
        };
        Ok(ReceiptClaim {
            pre: SystemState::of_image(&first.pre_image),
            post: SystemState { pc, merkle_root },
            exit_code: self.exit_code,
            input: Digest::zero(),
            output,
        })
    }

    /// The digests of the unresolved assumptions, in order.
    pub fn unresolved_assumptions(&self) -> (r: Vec<Digest>)
        ensures
            digests_view(r@) == unresolved_claims(self.assumptions@),
    {
        let mut out: Vec<Digest> = Vec::new();
        let mut i: usize = 0;
        while i < self.assumptions.len()
            invariant
                i <= self.assumptions@.len(),
                digests_view(out@) == unresolved_claims(self.assumptions@.subrange(0, i as int)),
            decreases self.assumptions@.len() - i,
        {
            let ghost before = out@;
            assert(self.assumptions@.subrange(0, i + 1).drop_last() =~= self.assumptions@.subrange(0, i as int));
            match &self.assumptions[i] {
                Assumption::Unresolved(d) => {
                    out.push(d.duplicate());
                    assert(digests_view(out@) =~= digests_view(before).push(d@));
                },
                Assumption::Proven(_) => {},
            }
            i = i + 1;
        }
        assert(self.assumptions@.subrange(0, self.assumptions@.len() as int) =~= self.assumptions@);
        out
    }

    /// The cycle totals of the session: the cycles a prover spends, with
    /// each segment padded to its power of two, and the cycles spent on user
    /// instructions. This resolves every segment.
    pub fn get_cycles(&self) -> (r: Result<(u64, u64), SessionError>)
        ensures
            r matches Err(SessionError::Resolution(_)) <==> !self.all_resolvable(),
            r matches Err(SessionError::CycleOverflow) <==> self.all_resolvable() && (
                total_cycles(self.segment_views()) > u64::MAX || user_cycles(self.segment_views()) > u64::MAX),
            r matches Err(e) ==> e is Resolution || e is CycleOverflow,
            r matches Ok((t, u)) ==> t == total_cycles(self.segment_views()) && u == user_cycles(
                self.segment_views(),
            ),
    {
        let segments = match self.resolve() {
            Ok(v) => v,
            Err(e) => return Err(e),
        };
        let ghost views = self.segment_views();
        let mut total: u64 = 0;
        let mut user: u64 = 0;
        let mut i: usize = 0;
        while i < segments.len()
            invariant
                i <= segments@.len(),
                segments@.len() == views.len(),
                forall|j: int| 0 <= j < segments@.len() ==> #[trigger] segments@[j]@ == views[j] && segments@[j].wf(),
                total == total_cycles(views.subrange(0, i as int)),
                user == user_cycles(views.subrange(0, i as int)),
                self.all_resolvable(),
                views == self.segment_views(),
            decreases segments@.len() - i,
        {
            assert(views.subrange(0, i + 1).drop_last() =~= views.subrange(0, i as int));
            assert(views.subrange(0, i + 1).last() == views[i as int]);
            let po2 = segments[i].po2 as u64;
            proof {
                assert(segments@[i as int]@ == views[i as int] && segments@[i as int].wf());
                lemma_u64_pow2_no_overflow(po2 as nat);
                assert(1 * pow2(po2 as nat) == pow2(po2 as nat));
                lemma_u64_shl_is_mul(1u64, po2);
            }
            let padded: u64 = 1u64 << po2;
            match total.checked_add(padded) {
                Some(t) => total = t,
                None => {
                    proof { lemma_cycles_grow(views, i as int + 1); }
                    return Err(SessionError::CycleOverflow);
                },
            }
            match user.checked_add(segments[i].cycles as u64) {
                Some(u) => user = u,
                None => {
                    proof { lemma_cycles_grow(views, i as int + 1); }
                    return Err(SessionError::CycleOverflow);
                },
            }
            i = i + 1;
        }
        assert(views.subrange(0, views.len() as int) =~= views);
        Ok((total, user))
    }
}

/// Cycle totals never shrink as segments are added.
proof fn lemma_cycles_grow(s: Seq<SegmentView>, k: int)
    requires
        0 <= k <= s.len(),
    ensures
        total_cycles(s.subrange(0, k)) <= total_cycles(s),
        user_cycles(s.subrange(0, k)) <= user_cycles(s),
    decreases s.len() - k,
{
    if k < s.len() {
        lemma_cycles_grow(s, k + 1);
        assert(s.subrange(0, k + 1).drop_last() =~= s.subrange(0, k));
    } else {
        assert(s.subrange(0, k) =~= s);
    }
}

} // verus!
