use relay_hook_transpiler::{DebugContext, DebugLevel};

#[test]
fn debug_test_debug_level_ordering() {
    assert!(DebugLevel::Off < DebugLevel::Error);
    assert!(DebugLevel::Error < DebugLevel::Warn);
    assert!(DebugLevel::Trace < DebugLevel::Verbose);
}

#[test]
fn test_debug_level_from_str() {
    assert_eq!("trace".parse::<DebugLevel>().unwrap(), DebugLevel::Trace);
    assert_eq!("off".parse::<DebugLevel>().unwrap(), DebugLevel::Off);
    assert_eq!("5".parse::<DebugLevel>().unwrap(), DebugLevel::Verbose);
}

#[test]
fn test_debug_context_filtering() {
    let mut ctx = DebugContext::new(DebugLevel::Warn);
    ctx.trace("should not be logged");
    ctx.warn("should be logged");
    ctx.error("should be logged");

    let logs = ctx.get_logs();
    assert_eq!(logs.len(), 2);
    assert_eq!(logs[0].level, DebugLevel::Warn);
    assert_eq!(logs[1].level, DebugLevel::Error);
}

#[test]
fn test_debug_entry_with_position() {
    let mut ctx = DebugContext::new(DebugLevel::Trace);
    ctx.log_at(DebugLevel::Error, "syntax error", Some(42), Some(10));

    let logs = ctx.get_logs();
    assert_eq!(logs[0].line, Some(42));
    assert_eq!(logs[0].column, Some(10));
}
