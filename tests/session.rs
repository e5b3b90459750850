use zkvm_host::image::{Digest, MemoryImage, SystemState, PAGE_SIZE, PAGE_TABLE_START, WORD_SIZE};
use zkvm_host::segment::{ExitCode, Output, PageFaults, Segment, SessionError, SyscallRecord};
use zkvm_host::session::{Assumption, Session};
use zkvm_host::storage::{SegmentRef, SimpleSegmentRef};

fn image(pc: u32, words: Vec<(u32, u32)>) -> MemoryImage {
    MemoryImage::new(pc, words).expect("valid image")
}

fn digest(b: u8) -> Digest {
    Digest { bytes: vec![b; 32] }
}

fn segment(pre: MemoryImage, exit_code: ExitCode, po2: u32, index: u32, cycles: u32) -> Segment {
    Segment::new(
        pre,
        SystemState { pc: 0x2000, merkle_root: digest(7) },
        None,
        PageFaults::empty(),
        Vec::new(),
        exit_code,
        None,
        po2,
        index,
        cycles,
    )
}

fn root_of(words: Vec<(u32, u32)>) -> Vec<u8> {
    image(0, words).compute_root_hash().bytes
}

fn two_segment_session(
    exit_code: ExitCode,
    journal: Option<Vec<u8>>,
    assumptions: Vec<Assumption>,
) -> Session<SimpleSegmentRef> {
    let first = segment(image(0x1000, vec![(0x1000, 1)]), ExitCode::SystemSplit, 10, 0, 900);
    let last = segment(image(0x1400, vec![(0x1000, 2)]), exit_code, 12, 1, 3000);
    Session::new(
        vec![SimpleSegmentRef::new(first), SimpleSegmentRef::new(last)],
        journal,
        exit_code,
        image(0x1800, vec![(0x1000, 3)]),
        assumptions,
    )
}

#[test]
fn platform_constants_agree() {
    assert_eq!(WORD_SIZE as usize, risc0_zkvm_platform::WORD_SIZE);
    assert_eq!(PAGE_SIZE as usize, risc0_zkvm_platform::PAGE_SIZE);
    assert_eq!(PAGE_TABLE_START as usize, risc0_zkvm_platform::memory::PAGE_TABLE.start());
}

#[test]
fn memory_image_rejects_bad_addresses() {
    assert!(MemoryImage::new(0, vec![(0x1002, 1)]).is_none());
    assert!(MemoryImage::new(0, vec![(PAGE_TABLE_START, 1)]).is_none());
    assert!(MemoryImage::new(0, vec![(0x1000, 1), (PAGE_TABLE_START - 4, 9)]).is_some());
}

#[test]
fn root_hash_depends_on_memory() {
    let a = root_of(vec![(0x1000, 1)]);
    let b = root_of(vec![(0x1000, 2)]);
    assert_eq!(a.len(), 32);
    assert_ne!(a, b);
    assert_eq!(a, root_of(vec![(0x1000, 1)]));
}

#[test]
fn system_memory_words_are_held_and_hashed() {
    let system = risc0_zkvm_platform::memory::SYSTEM.start() as u32;
    let plain = root_of(vec![(0x1000, 1)]);
    let with_registers = root_of(vec![(0x1000, 1), (system, 0x55), (system + 4, 0x66)]);
    assert_ne!(plain, with_registers);
    assert_eq!(with_registers, root_of(vec![(0x1000, 1), (system, 0x55), (system + 4, 0x66)]));
}

#[test]
fn later_word_entries_overwrite_earlier_ones() {
    assert_eq!(root_of(vec![(0x1000, 1), (0x1000, 2)]), root_of(vec![(0x1000, 2)]));
}

#[test]
fn claim_over_images_with_system_memory() {
    let system = risc0_zkvm_platform::memory::SYSTEM.start() as u32;
    let first = segment(image(0x1000, vec![(0x1000, 1)]), ExitCode::SystemSplit, 10, 0, 900);
    let last_words = vec![(0x1000, 2), (system, 7)];
    let last = segment(image(0x1400, last_words.clone()), ExitCode::Halted(0), 12, 1, 3000);
    let s = Session::new(
        vec![SimpleSegmentRef::new(first), SimpleSegmentRef::new(last)],
        Some(vec![]),
        ExitCode::Halted(0),
        image(0x1800, vec![(0x1000, 3), (system + 8, 9)]),
        Vec::new(),
    );
    let c = s.get_claim().expect("claim");
    assert_eq!(c.post.merkle_root.bytes, root_of(last_words));
}

#[test]
fn page_faults_must_increase() {
    assert!(PageFaults::new(vec![1, 2, 5], vec![3]).is_some());
    assert!(PageFaults::new(vec![1, 1], vec![]).is_none());
    assert!(PageFaults::new(vec![], vec![4, 2]).is_none());
}

#[test]
fn session_claim_pre_and_post_pc() {
    let s = two_segment_session(ExitCode::Halted(0), Some(vec![1, 2, 3]), Vec::new());
    let c = s.get_claim().expect("claim");
    assert_eq!(c.pre.pc, 0x1000);
    assert_eq!(c.pre.merkle_root.bytes, root_of(vec![(0x1000, 1)]));
    assert_eq!(c.post.pc, 0x1800 + 4);
    assert_eq!(c.input.bytes, vec![0u8; 32]);
    assert_eq!(c.exit_code, ExitCode::Halted(0));
}

#[test]
fn halted_claim_uses_last_pre_image_root() {
    let s = two_segment_session(ExitCode::Halted(0), Some(vec![]), Vec::new());
    let c = s.get_claim().expect("claim");
    let last_pre = root_of(vec![(0x1000, 2)]);
    let post = root_of(vec![(0x1000, 3)]);
    assert_eq!(c.post.merkle_root.bytes, last_pre);
    assert_ne!(c.post.merkle_root.bytes, post);
}

#[test]
fn paused_claim_uses_post_image_root() {
    let s = two_segment_session(ExitCode::Paused(1), Some(vec![]), Vec::new());
    let c = s.get_claim().expect("claim");
    assert_eq!(c.post.merkle_root.bytes, root_of(vec![(0x1000, 3)]));
}

#[test]
fn claim_output_keeps_only_unresolved_assumptions() {
    let s = two_segment_session(
        ExitCode::Halted(0),
        Some(vec![9, 8]),
        vec![Assumption::Proven(vec![1, 2]), Assumption::Unresolved(digest(5)), Assumption::Proven(vec![])],
    );
    let c = s.get_claim().expect("claim");
    let out = c.output.expect("output");
    assert_eq!(out.journal, vec![9, 8]);
    assert_eq!(out.assumptions.len(), 1);
    assert_eq!(out.assumptions[0].bytes, vec![5u8; 32]);
}

#[test]
fn halted_without_journal_has_no_output() {
    let s = two_segment_session(ExitCode::Halted(0), None, Vec::new());
    assert!(s.get_claim().expect("claim").output.is_none());
}

#[test]
fn inconsistent_session_with_journal() {
    let s = two_segment_session(ExitCode::SessionLimit, Some(vec![1]), Vec::new());
    assert!(matches!(s.get_claim(), Err(SessionError::InconsistentSession)));
}

#[test]
fn inconsistent_session_with_assumptions() {
    let s = two_segment_session(ExitCode::SystemSplit, None, vec![Assumption::Unresolved(digest(1))]);
    assert!(matches!(s.get_claim(), Err(SessionError::InconsistentSession)));
}

#[test]
fn session_limit_without_output_is_consistent() {
    let s = two_segment_session(ExitCode::SessionLimit, None, Vec::new());
    let c = s.get_claim().expect("claim");
    assert!(c.output.is_none());
    assert_eq!(c.post.merkle_root.bytes, root_of(vec![(0x1000, 3)]));
}

#[test]
fn empty_session_has_no_claim() {
    let s: Session<SimpleSegmentRef> =
        Session::new(Vec::new(), None, ExitCode::Halted(0), image(0, vec![]), Vec::new());
    assert!(matches!(s.get_claim(), Err(SessionError::EmptySession)));
    assert_eq!(s.segment_count(), 0);
    assert!(matches!(s.get_cycles(), Ok((0, 0))));
}

#[test]
fn session_post_pc_overflow() {
    let seg = segment(image(0, vec![]), ExitCode::Halted(0), 10, 0, 1);
    let s = Session::new(
        vec![SimpleSegmentRef::new(seg)],
        Some(vec![]),
        ExitCode::Halted(0),
        image(u32::MAX - 2, vec![]),
        Vec::new(),
    );
    assert!(matches!(s.get_claim(), Err(SessionError::InvalidPc)));
}

#[test]
fn session_cycles() {
    let s = two_segment_session(ExitCode::Halted(0), Some(vec![]), Vec::new());
    let (total, user) = s.get_cycles().expect("cycles");
    assert_eq!(total, 5120);
    assert_eq!(user, 3900);
    assert_eq!(s.segment_count(), 2);
}

#[test]
fn session_resolve_keeps_order() {
    let s = two_segment_session(ExitCode::Halted(0), Some(vec![]), Vec::new());
    let segs = s.resolve().expect("resolve");
    assert_eq!(segs.len(), 2);
    assert_eq!(segs[0].index, 0);
    assert_eq!(segs[1].index, 1);
    assert_eq!(segs[1].po2, 12);
}

#[test]
fn segment_claim_halted_and_split() {
    let halted = segment(image(0x1000, vec![(0x1000, 2)]), ExitCode::Halted(3), 10, 0, 5);
    let c = halted.get_claim().expect("claim");
    assert_eq!(c.pre.pc, 0x1000);
    assert_eq!(c.post.pc, 0x2004);
    assert_eq!(c.post.merkle_root.bytes, root_of(vec![(0x1000, 2)]));
    let split = segment(image(0x1000, vec![(0x1000, 2)]), ExitCode::SystemSplit, 10, 0, 5);
    let c = split.get_claim().expect("claim");
    assert_eq!(c.post.merkle_root.bytes, vec![7u8; 32]);
    assert!(c.output.is_none());
}

#[test]
fn segment_claim_keeps_output_and_checks_pc() {
    let mut seg = segment(image(0, vec![]), ExitCode::Paused(0), 10, 0, 5);
    seg.output = Some(Output { journal: vec![4, 5], assumptions: vec![digest(2)] });
    let c = seg.get_claim().expect("claim");
    let out = c.output.expect("output");
    assert_eq!(out.journal, vec![4, 5]);
    assert_eq!(out.assumptions[0].bytes, vec![2u8; 32]);
    seg.post_state.pc = u32::MAX;
    assert!(matches!(seg.get_claim(), Err(SessionError::InvalidPc)));
}

#[test]
fn simple_reference_resolves_idempotently() {
    let mut seg = segment(image(0x10, vec![(0x20, 1)]), ExitCode::Halted(0), 11, 4, 77);
    seg.syscalls = vec![SyscallRecord { to_guest: vec![1, 2], regs: (3, 4) }];
    seg.split_insn = Some(9);
    let r = SimpleSegmentRef::new(seg);
    let a = r.resolve().expect("first");
    let b = r.resolve().expect("second");
    for s in [&a, &b] {
        assert_eq!(s.pre_image.pc, 0x10);
        assert_eq!(s.pre_image.words, vec![(0x20, 1)]);
        assert_eq!(s.syscalls[0].to_guest, vec![1, 2]);
        assert_eq!(s.syscalls[0].regs, (3, 4));
        assert_eq!(s.split_insn, Some(9));
        assert_eq!((s.po2, s.index, s.cycles), (11, 4, 77));
        assert_eq!(s.post_state.merkle_root.bytes, vec![7u8; 32]);
    }
}

#[test]
fn exit_codes_that_expect_output() {
    assert!(ExitCode::Halted(1).expects_output());
    assert!(ExitCode::Paused(0).expects_output());
    assert!(!ExitCode::SystemSplit.expects_output());
    assert!(!ExitCode::SessionLimit.expects_output());
}
