//! Host runtime services kept separate from engine semantics: diagnostics, limits and clock.
use vstd::prelude::*;

verus! {

/// Severity level of a diagnostic message.
#[derive(Clone, Copy, Debug, PartialEq, Eq, Structural)]
#[non_exhaustive]
pub enum DiagnosticSeverity {
    /// Informational message, no action required.
    Info,
    /// Warning that may indicate a problem but does not stop rendering.
    Warning,
    /// Error that prevented successful rendering.
    Error,
}

/// A single diagnostic message emitted by the engine.
#[derive(Debug, PartialEq, Eq)]
pub struct Diagnostic {
    /// Severity level of the diagnostic.
    pub severity: DiagnosticSeverity,
    /// Human readable diagnostic text.
    pub message: String,
}

impl View for Diagnostic {
    type V = (DiagnosticSeverity, Seq<char>);

    open spec fn view(&self) -> (DiagnosticSeverity, Seq<char>) {
        (self.severity, self.message@)
    }
}

impl Clone for Diagnostic {
    fn clone(&self) -> (r: Self)
        ensures
            r@ == self@,
    {
        Diagnostic { severity: self.severity, message: self.message.clone() }
    }
}

/// Receiver for diagnostic messages emitted during engine execution.
pub trait DiagnosticSink {
    /// Accepts and handles a single diagnostic message.
    fn emit(&mut self, diagnostic: Diagnostic);
}

/// Host imposed upper bounds on engine resource consumption.
#[derive(Clone, Copy, Debug, PartialEq, Eq, Structural)]
pub struct HostLimits {
    /// Maximum input bytes accepted for one fragment.
    pub max_input_bytes: usize,
    /// Maximum resource requests made while executing one fragment.
    pub max_resource_requests: usize,
    /// Maximum layout nodes an engine session should emit.
    pub max_layout_nodes: usize,
}

/// The limits a host gets unless it configures others: 1 MiB of input, 256 resource
/// requests and 2^20 layout nodes.
pub open spec fn default_limits() -> HostLimits {
    HostLimits { max_input_bytes: 0x10_0000, max_resource_requests: 256, max_layout_nodes: 0x10_0000 }
}

impl Default for HostLimits {
    fn default() -> (r: Self)
        ensures
            r == default_limits(),
    {
        assert(1usize << 20 == 0x10_0000) by (bit_vector);
        HostLimits { max_input_bytes: 1usize << 20, max_resource_requests: 256, max_layout_nodes: 1usize << 20 }
    }
}

/// Host clock value in seconds and microseconds.
#[derive(Clone, Copy, Debug, PartialEq, Eq, Structural)]
pub struct HostClock {
    /// Seconds since the host defined epoch.
    pub seconds: i32,
    /// Microseconds within the current second.
    pub micros: i32,
}

impl Default for HostClock {
    fn default() -> (r: Self)
        ensures
            r == (HostClock { seconds: 0, micros: 0 }),
    {
        HostClock { seconds: 0, micros: 0 }
    }
}

/// Parameters for a host driven line break request passed to the platform.
#[derive(Clone, Copy, Debug, PartialEq, Eq)]
pub struct LinebreakRequest<'a> {
    /// Generated engine font identifier active for the text.
    pub font: i32,
    /// Generated engine locale identifier active for the text.
    pub locale: i32,
    /// Text slice owned by generated engine memory for this call.
    pub text: &'a [u16],
}

/// Signals that a host configured resource limit was exceeded.
#[derive(Clone, Copy, Debug, PartialEq, Eq, Structural)]
#[non_exhaustive]
pub enum LimitError {
    /// Input byte count exceeded the configured maximum.
    InputTooLarge {
        /// Actual byte count seen.
        actual: usize,
        /// Configured byte limit.
        limit: usize,
    },
    /// Resource request count exceeded the configured maximum.
    TooManyResourceRequests {
        /// Actual request count.
        actual: usize,
        /// Configured request limit.
        limit: usize,
    },
    /// Layout node count exceeded the configured maximum.
    TooManyLayoutNodes {
        /// Actual node count.
        actual: usize,
        /// Configured node limit.
        limit: usize,
    },
}

/// Host runtime services that must remain separate from engine semantics.
pub trait Platform {
    /// Sink that receives this platform's diagnostics.
    type Sink: DiagnosticSink;

    /// Returns the diagnostic sink for this platform.
    fn diagnostics(&mut self) -> &mut Self::Sink;

    /// Returns host resource limits, defaulting to `HostLimits::default()`.
    fn limits(&self) -> HostLimits {
        HostLimits::default()
    }

    /// Deterministic clock value visible to generated TeX code.
    fn clock(&self) -> HostClock {
        HostClock::default()
    }

    /// Called before the engine begins line break iteration for a paragraph.
    fn linebreak_start(&self, request: LinebreakRequest<'_>) {
    }

    /// Returns the next line break position, or `None` to use the built in algorithm.
    fn linebreak_next(&self) -> Option<i32> {
        None
    }
}

/// Diagnostic sink that discards all messages.
#[derive(Clone, Copy, Debug)]
pub struct NoopDiagnosticSink;

impl Default for NoopDiagnosticSink {
    fn default() -> (r: Self) {
        NoopDiagnosticSink
    }
}

impl DiagnosticSink for NoopDiagnosticSink {
    fn emit(&mut self, diagnostic: Diagnostic) {
    }
}

/// Diagnostic sink that accumulates messages, in the order they were emitted.
#[derive(Debug)]
pub struct CollectingDiagnosticSink {
    diagnostics: Vec<Diagnostic>,
}

/// Views of a sequence of diagnostics.
pub open spec fn diagnostic_views(s: Seq<Diagnostic>) -> Seq<(DiagnosticSeverity, Seq<char>)> {
    s.map_values(|d: Diagnostic| d@)
}

fn clone_diagnostics(v: &Vec<Diagnostic>) -> (r: Vec<Diagnostic>)
    ensures
        diagnostic_views(r@) == diagnostic_views(v@),
{
    let mut out: Vec<Diagnostic> = Vec::with_capacity(v.len());
    let mut i: usize = 0;
    while i < v.len()
        invariant
            0 <= i <= v@.len(),
            out@.len() == i,
            forall|j: int| 0 <= j < i ==> (#[trigger] out@[j])@ == v@[j]@,
        decreases v@.len() - i,
    {
        out.push(v[i].clone());
        i += 1;
    }
    assert(diagnostic_views(out@) =~= diagnostic_views(v@));
    out
}

impl CollectingDiagnosticSink {
    /// The diagnostics collected so far, oldest first.
    pub closed spec fn collected(&self) -> Seq<(DiagnosticSeverity, Seq<char>)> {
        diagnostic_views(self.diagnostics@)
    }

    /// Creates an empty collecting sink.
    pub fn new() -> (r: Self)
        ensures
            r.collected() == Seq::<(DiagnosticSeverity, Seq<char>)>::empty(),
    {
        let r = CollectingDiagnosticSink { diagnostics: Vec::new() };
        assert(r.collected() =~= Seq::<(DiagnosticSeverity, Seq<char>)>::empty());
        r
    }

    /// Returns a copy of all accumulated diagnostics without consuming them.
    pub fn snapshot(&self) -> (r: Vec<Diagnostic>)
        ensures
            diagnostic_views(r@) == self.collected(),
    {
        clone_diagnostics(&self.diagnostics)
    }

    /// Removes and returns all accumulated diagnostics.
    pub fn drain(&mut self) -> (r: Vec<Diagnostic>)
        ensures
            diagnostic_views(r@) == old(self).collected(),
            final(self).collected() == Seq::<(DiagnosticSeverity, Seq<char>)>::empty(),
    {
        let mut taken: Vec<Diagnostic> = Vec::new();
        std::mem::swap(&mut taken, &mut self.diagnostics);
        assert(self.collected() =~= Seq::<(DiagnosticSeverity, Seq<char>)>::empty());
        taken
    }

    /// Returns the number of accumulated diagnostics.
    pub fn len(&self) -> (r: usize)
        ensures
            r == self.collected().len(),
    {
        self.diagnostics.len()
    }

    /// Returns true when no diagnostics have been collected.
    pub fn is_empty(&self) -> (r: bool)
        ensures
            r == (self.collected().len() == 0),
    {
        self.diagnostics.len() == 0
    }

    /// Discards all accumulated diagnostics.
    pub fn clear(&mut self)
        ensures
            final(self).collected() == Seq::<(DiagnosticSeverity, Seq<char>)>::empty(),
    {
        self.diagnostics.clear();
        assert(self.collected() =~= Seq::<(DiagnosticSeverity, Seq<char>)>::empty());
    }
}

impl Default for CollectingDiagnosticSink {
    fn default() -> (r: Self)
        ensures
            r.collected() == Seq::<(DiagnosticSeverity, Seq<char>)>::empty(),
    {
        CollectingDiagnosticSink::new()
    }
}

impl DiagnosticSink for CollectingDiagnosticSink {
    fn emit(&mut self, diagnostic: Diagnostic)
        ensures
            final(self).collected() == old(self).collected().push(diagnostic@),
    {
        self.diagnostics.push(diagnostic);
        assert(self.collected() =~= old(self).collected().push(diagnostic@));
    }
}

/// Platform implementation composed from a diagnostic sink, host limits, and a clock.
#[derive(Clone, Debug)]
pub struct ConfigurablePlatform<D> {
    diagnostics: D,
    limits: HostLimits,
    clock: HostClock,
}

impl<D> ConfigurablePlatform<D> {
    /// The diagnostic sink this platform holds.
    pub closed spec fn spec_sink(&self) -> D {
        self.diagnostics
    }

    /// The limits this platform reports.
    pub closed spec fn spec_limits(&self) -> HostLimits {
        self.limits
    }

    /// The clock value this platform reports.
    pub closed spec fn spec_clock(&self) -> HostClock {
        self.clock
    }

    /// Creates a platform with the given diagnostic sink and limits.
    pub fn new(diagnostics: D, limits: HostLimits) -> (r: Self)
        ensures
            r.spec_sink() == diagnostics,
            r.spec_limits() == limits,
            r.spec_clock() == (HostClock { seconds: 0, micros: 0 }),
    {
        ConfigurablePlatform { diagnostics, limits, clock: HostClock::default() }
    }

    /// Creates a platform with the given diagnostic sink and default limits.
    pub fn with_diagnostics(diagnostics: D) -> (r: Self)
        ensures
            r.spec_sink() == diagnostics,
            r.spec_limits() == default_limits(),
            r.spec_clock() == (HostClock { seconds: 0, micros: 0 }),
    {
        ConfigurablePlatform { diagnostics, limits: HostLimits::default(), clock: HostClock::default() }
    }

    /// Returns a copy of this platform with the clock set to `clock`.
    pub fn with_clock(self, clock: HostClock) -> (r: Self)
        ensures
            r.spec_sink() == self.spec_sink(),
            r.spec_limits() == self.spec_limits(),
            r.spec_clock() == clock,
    {
        let mut s = self;
        s.clock = clock;
        s
    }

    /// Returns a reference to the underlying diagnostic sink.
    pub fn diagnostic_sink(&self) -> (r: &D)
        ensures
            *r == self.spec_sink(),
    {
        &self.diagnostics
    }

    /// Returns the configured host limits.
    pub fn host_limits(&self) -> (r: HostLimits)
        ensures
            r == self.spec_limits(),
    {
        self.limits
    }

    /// Returns the configured host clock.
    pub fn host_clock(&self) -> (r: HostClock)
        ensures
            r == self.spec_clock(),
    {
        self.clock
    }
}

impl<D: DiagnosticSink> Platform for ConfigurablePlatform<D> {
    type Sink = D;

    fn diagnostics(&mut self) -> (r: &mut D) {
        &mut self.diagnostics
    }

    fn limits(&self) -> (r: HostLimits)
        ensures
            r == self.spec_limits(),
    {
        self.limits
    }

    fn clock(&self) -> (r: HostClock)
        ensures
            r == self.spec_clock(),
    {
        self.clock
    }

    /// This platform has no line breaks of its own to offer.
    fn linebreak_next(&self) -> (r: Option<i32>)
        ensures
            r is None,
    {
        None
    }
}

/// Minimal deterministic platform for tests, embedded use, and early bootstrap.
#[derive(Clone, Copy, Debug)]
pub struct NoopPlatform {
    diagnostics: NoopDiagnosticSink,
    limits: HostLimits,
    clock: HostClock,
}

impl NoopPlatform {
    /// The limits this platform reports.
    pub closed spec fn spec_limits(&self) -> HostLimits {
        self.limits
    }

    /// The clock value this platform reports.
    pub closed spec fn spec_clock(&self) -> HostClock {
        self.clock
    }

    /// Creates a noop platform with the given host limits.
    pub fn with_limits(limits: HostLimits) -> (r: Self)
        ensures
            r.spec_limits() == limits,
            r.spec_clock() == (HostClock { seconds: 0, micros: 0 }),
    {
        NoopPlatform { diagnostics: NoopDiagnosticSink, limits, clock: HostClock::default() }
    }

    /// Creates a noop platform with the given clock value.
    pub fn with_clock(clock: HostClock) -> (r: Self)
        ensures
            r.spec_limits() == default_limits(),
            r.spec_clock() == clock,
    {
        NoopPlatform { diagnostics: NoopDiagnosticSink, limits: HostLimits::default(), clock }
    }
}

impl Default for NoopPlatform {
    fn default() -> (r: Self)
        ensures
            r.spec_limits() == default_limits(),
            r.spec_clock() == (HostClock { seconds: 0, micros: 0 }),
    {
        NoopPlatform {
            diagnostics: NoopDiagnosticSink,
            limits: HostLimits::default(),
            clock: HostClock::default(),
        }
    }
}

impl Platform for NoopPlatform {
    type Sink = NoopDiagnosticSink;

    fn diagnostics(&mut self) -> (r: &mut NoopDiagnosticSink) {
        &mut self.diagnostics
    }

    fn limits(&self) -> (r: HostLimits)
        ensures
            r == self.spec_limits(),
    {
        self.limits
    }

    fn clock(&self) -> (r: HostClock)
        ensures
            r == self.spec_clock(),
    {
        self.clock
    }

    /// This platform has no line breaks of its own to offer.
    fn linebreak_next(&self) -> (r: Option<i32>)
        ensures
            r is None,
    {
        None
    }
}

/// What a collecting sink holds after emitting diagnostics one after the other, each emit
/// appending one.
pub open spec fn collected_after(
    start: Seq<(DiagnosticSeverity, Seq<char>)>,
    emitted: Seq<(DiagnosticSeverity, Seq<char>)>,
) -> Seq<(DiagnosticSeverity, Seq<char>)>
    decreases emitted.len(),
{
    if emitted.len() == 0 {
        start
    } else {
        collected_after(start, emitted.drop_last()).push(emitted.last())
    }
}

/// A sink that was created, drained or cleared and then sent diagnostics holds exactly them,
/// in order: a snapshot (which leaves the sink as it is) gives them all, and its length
/// counts them.
pub proof fn lemma_sink_holds_emissions_in_order(emitted: Seq<(DiagnosticSeverity, Seq<char>)>)
    ensures
        collected_after(Seq::empty(), emitted) == emitted,
        collected_after(Seq::empty(), emitted).len() == emitted.len(),
    decreases emitted.len(),
{
    if emitted.len() > 0 {
        lemma_sink_holds_emissions_in_order(emitted.drop_last());
        assert(emitted.drop_last().push(emitted.last()) =~= emitted);
    }
}

} // verus!
