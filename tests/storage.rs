use zkvm_host::image::{Digest, MemoryImage, SystemState};
use zkvm_host::segment::{ExitCode, PageFaults, Segment};
use zkvm_host::storage::{decimal_string, frame_segment, unframe_segment, FileSegmentRef, FrameError};

#[test]
fn frame_round_trip() {
    let payload = vec![1u8, 2, 3, 250];
    let framed = frame_segment(&payload);
    assert_eq!(framed.len(), 12);
    assert_eq!(&framed[..8], &[0x52, 0x30, 0x53, 0x47, 1, 0, 0, 0]);
    assert_eq!(unframe_segment(&framed), Ok(payload));
    assert_eq!(unframe_segment(&frame_segment(&[])), Ok(vec![]));
}

#[test]
fn unframe_errors() {
    assert_eq!(unframe_segment(&[0x52, 0x30, 0x53]), Err(FrameError::Truncated));
    assert_eq!(unframe_segment(&[0, 0x30, 0x53, 0x47, 1, 0, 0, 0]), Err(FrameError::BadMagic));
    assert_eq!(
        unframe_segment(&[0x52, 0x30, 0x53, 0x47, 2, 1, 0, 0]),
        Err(FrameError::UnsupportedVersion(258))
    );
}

#[test]
fn file_reference_path_follows_index() {
    let seg = Segment::new(
        MemoryImage::new(0, vec![]).expect("image"),
        SystemState { pc: 0, merkle_root: Digest::zero() },
        None,
        PageFaults::empty(),
        Vec::new(),
        ExitCode::SystemSplit,
        None,
        10,
        417,
        0,
    );
    let r = FileSegmentRef::new(&seg, "/tmp/segments");
    assert_eq!(r.path(), "/tmp/segments/417.seg");
    assert_eq!(FileSegmentRef::new(&seg, "/tmp/segments/").path(), "/tmp/segments/417.seg");
    assert_eq!(FileSegmentRef::new(&seg, "").path(), "417.seg");
    assert_eq!(FileSegmentRef::new(&seg, "/").path(), "/417.seg");
}

#[test]
fn decimal_strings() {
    assert_eq!(decimal_string(0), "0");
    assert_eq!(decimal_string(10), "10");
    assert_eq!(decimal_string(907), "907");
    assert_eq!(decimal_string(u32::MAX), "4294967295");
}
