use bookmux::status::{status_of, Failure, FailureClass, SourceError, STATUS_OK};

const ALL: [Failure; 5] = [
    Failure::UnreachableSource,
    Failure::UnsupportedCodec,
    Failure::Truncated,
    Failure::CodecMismatch,
    Failure::OutputWriteFailure,
];

#[test]
fn success_is_zero() {
    assert_eq!(STATUS_OK, 0);
    assert_eq!(status_of(Ok(())), 0);
}

#[test]
fn each_failure_has_its_own_nonzero_code() {
    assert_eq!(Failure::UnreachableSource.code(), 1);
    assert_eq!(Failure::UnsupportedCodec.code(), 2);
    assert_eq!(Failure::Truncated.code(), 3);
    assert_eq!(Failure::CodecMismatch.code(), 4);
    assert_eq!(Failure::OutputWriteFailure.code(), 5);
    for (i, a) in ALL.iter().enumerate() {
        assert_ne!(a.code(), 0);
        assert_eq!(status_of(Err(*a)), a.code());
        for b in &ALL[i + 1..] {
            assert_ne!(a.code(), b.code());
        }
    }
}

#[test]
fn codes_are_read_back() {
    for failure in ALL {
        assert_eq!(Failure::from_code(failure.code()), Some(failure));
    }
    assert_eq!(Failure::from_code(0), None);
    assert_eq!(Failure::from_code(6), None);
    assert_eq!(Failure::from_code(-1), None);
    assert_eq!(Failure::from_code(i32::MAX), None);
    assert_eq!(Failure::from_code(i32::MIN), None);
}

#[test]
fn failures_fall_into_three_classes() {
    assert_eq!(Failure::UnreachableSource.class(), FailureClass::Transport);
    assert_eq!(Failure::UnsupportedCodec.class(), FailureClass::Format);
    assert_eq!(Failure::Truncated.class(), FailureClass::Format);
    assert_eq!(Failure::CodecMismatch.class(), FailureClass::Format);
    assert_eq!(Failure::OutputWriteFailure.class(), FailureClass::Output);
}

#[test]
fn reader_errors_map_to_failures() {
    assert_eq!(SourceError::Unreachable.failure(), Failure::UnreachableSource);
    assert_eq!(SourceError::UnsupportedCodec.failure(), Failure::UnsupportedCodec);
    assert_eq!(SourceError::Truncated.failure(), Failure::Truncated);
}

#[test]
fn reader_errors_are_read_back() {
    assert_eq!(SourceError::from_code(1), Some(SourceError::Unreachable));
    assert_eq!(SourceError::from_code(2), Some(SourceError::UnsupportedCodec));
    assert_eq!(SourceError::from_code(3), Some(SourceError::Truncated));
    for code in [0, 4, 5, 6, -1, i32::MAX, i32::MIN] {
        assert_eq!(SourceError::from_code(code), None);
    }
    for error in [SourceError::Unreachable, SourceError::UnsupportedCodec, SourceError::Truncated] {
        assert_eq!(SourceError::from_code(error.failure().code()), Some(error));
    }
}
