use supavoice::error::CoreError;

#[test]
fn configuration_problems_are_told_from_run_time_faults() {
    assert!(CoreError::DeviceUnavailable.is_configuration());
    assert!(CoreError::ModelUnavailable.is_configuration());
    for fault in [
        CoreError::StreamFormatUnsupported,
        CoreError::SinkIOError,
        CoreError::ActiveSessionConflict,
        CoreError::AudioFormatMismatch,
        CoreError::DecodeInitFailure,
        CoreError::DecodeFailure,
    ] {
        assert!(!fault.is_configuration(), "{:?}", fault);
    }
}

#[test]
fn kinds_are_distinct() {
    let kinds = [
        CoreError::DeviceUnavailable,
        CoreError::StreamFormatUnsupported,
        CoreError::SinkIOError,
        CoreError::ActiveSessionConflict,
        CoreError::AudioFormatMismatch,
        CoreError::ModelUnavailable,
        CoreError::DecodeInitFailure,
        CoreError::DecodeFailure,
    ];
    for (i, a) in kinds.iter().enumerate() {
        for (j, b) in kinds.iter().enumerate() {
            assert_eq!(a == b, i == j);
        }
    }
}
