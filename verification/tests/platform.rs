use mathtex::platform::{
    CollectingDiagnosticSink, ConfigurablePlatform, Diagnostic, DiagnosticSeverity, DiagnosticSink,
    HostClock, HostLimits, NoopDiagnosticSink, NoopPlatform, Platform,
};

#[test]
fn collecting_diagnostic_sink_records_snapshots_and_drains() {
    let mut sink = CollectingDiagnosticSink::new();

    sink.emit(Diagnostic {
        severity: DiagnosticSeverity::Warning,
        message: "missing glyph".to_string(),
    });

    assert_eq!(sink.len(), 1);
    assert_eq!(sink.snapshot()[0].message, "missing glyph");
    assert_eq!(sink.drain()[0].severity, DiagnosticSeverity::Warning);
    assert!(sink.is_empty());
}

#[test]
fn host_limits_default_to_a_mebibyte_of_input() {
    let limits = HostLimits::default();
    assert_eq!(limits.max_input_bytes, 1 << 20);
    assert_eq!(limits.max_resource_requests, 256);
    assert_eq!(limits.max_layout_nodes, 1 << 20);
}

#[test]
fn configurable_platform_reports_its_settings() {
    let limits = HostLimits { max_input_bytes: 10, max_resource_requests: 2, max_layout_nodes: 3 };
    let clock = HostClock { seconds: 5, micros: 6 };
    let mut platform = ConfigurablePlatform::new(CollectingDiagnosticSink::new(), limits).with_clock(clock);
    assert_eq!(platform.limits(), limits);
    assert_eq!(platform.host_limits(), limits);
    assert_eq!(platform.clock(), clock);
    assert_eq!(platform.host_clock(), clock);
    platform.diagnostics().emit(Diagnostic { severity: DiagnosticSeverity::Info, message: "a".into() });
    platform.diagnostics().emit(Diagnostic { severity: DiagnosticSeverity::Error, message: "b".into() });
    assert_eq!(platform.diagnostic_sink().len(), 2);
    assert_eq!(platform.diagnostic_sink().snapshot()[1].message, "b");
    assert_eq!(ConfigurablePlatform::with_diagnostics(NoopDiagnosticSink).host_limits(), HostLimits::default());
}

#[test]
fn noop_platform_uses_defaults_unless_told_otherwise() {
    let clock = HostClock { seconds: 1, micros: 2 };
    assert_eq!(NoopPlatform::default().limits(), HostLimits::default());
    assert_eq!(NoopPlatform::default().clock(), HostClock::default());
    assert_eq!(NoopPlatform::with_clock(clock).clock(), clock);
    let limits = HostLimits { max_input_bytes: 1, max_resource_requests: 1, max_layout_nodes: 1 };
    assert_eq!(NoopPlatform::with_limits(limits).limits(), limits);
    assert_eq!(NoopPlatform::default().linebreak_next(), None);
}

#[test]
fn clearing_a_sink_forgets_everything() {
    let mut sink = CollectingDiagnosticSink::default();
    sink.emit(Diagnostic { severity: DiagnosticSeverity::Info, message: "x".into() });
    sink.clear();
    assert_eq!(sink.len(), 0);
    assert!(sink.drain().is_empty());
}

#[test]
fn library_platforms_offer_no_line_breaks() {
    let p = NoopPlatform::with_limits(HostLimits::default());
    assert_eq!(p.linebreak_next(), None);
    assert_eq!(p.clock(), HostClock::default());
}
