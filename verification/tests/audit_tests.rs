use kendra::audit::PermissionAuditLogger;

#[test]
fn test_audit_logger_path_and_line() {
    let logger = PermissionAuditLogger::new("/tmp/audit.log");
    assert_eq!(logger.log_path(), "/tmp/audit.log");
    assert_eq!(logger.log_line("{\"tool_name\":\"bash\"}"), "{\"tool_name\":\"bash\"}\n");
}
