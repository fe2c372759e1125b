use c0pl4nd::reporting::{drain_crash_spool, ReportingMode, SpoolStep};

#[test]
fn the_spool_is_drained_as_the_user_agreed() {
    assert_eq!(drain_crash_spool(true, ReportingMode::Off), SpoolStep::Leave);
    assert_eq!(drain_crash_spool(true, ReportingMode::AskEachTime), SpoolStep::Ask);
    assert_eq!(drain_crash_spool(true, ReportingMode::Always), SpoolStep::Send);
    assert_eq!(drain_crash_spool(false, ReportingMode::Always), SpoolStep::Leave);
    assert_eq!(drain_crash_spool(false, ReportingMode::AskEachTime), SpoolStep::Leave);
}
