//! Diagnostics: the severity vocabulary, the structured diagnostic record,
//! and the sink that retains error-level diagnostics in emission order.
use vstd::prelude::*;

verus! {

/// The severity of a reported problem. Only the first four levels are
/// retained by the sink; the others are dropped at emission time.
#[derive(Clone, Copy, PartialEq, Eq, Structural, Debug)]
pub enum Level {
    Bug,
    Fatal,
    PhaseFatal,
    Error,
    Warning,
    Note,
    Help,
    Cancelled,
}

/// True for the severities that the sink retains.
pub open spec fn is_error_level(l: Level) -> bool {
    l == Level::Bug || l == Level::Fatal || l == Level::PhaseFatal || l == Level::Error
}

/// Executable test for `is_error_level`.
pub fn is_error_level_ex(l: Level) -> (r: bool)
    ensures
        r == is_error_level(l),
{
    match l {
        Level::Bug => true,
        Level::Fatal => true,
        Level::PhaseFatal => true,
        Level::Error => true,
        _ => false,
    }
}

/// The presentation style of one message segment.
#[derive(Clone, Copy, PartialEq, Eq, Structural, Debug)]
pub enum Style {
    NoStyle,
    Level(Level),
    Highlight,
}

/// One styled segment of a diagnostic message.
pub struct MsgPart {
    pub text: String,
    pub style: Style,
}

/// One source location range, as line and column numbers.
#[derive(Clone, Copy, PartialEq, Eq, Structural, Debug)]
pub struct Span {
    pub start_line: u64,
    pub start_col: u64,
    pub end_line: u64,
    pub end_col: u64,
}

/// One reported problem: a severity, a styled message, zero or more source
/// ranges, nested sub-diagnostics, and an optional stable error code.
/// Children may carry lower severities than their parent and are never
/// filtered on their own.
pub struct Diagnostic {
    pub level: Level,
    pub message: Vec<MsgPart>,
    pub span: Vec<Span>,
    pub children: Vec<Diagnostic>,
    pub code: Option<String>,
}

/// A diagnostic with the given fatal message as its single unstyled-span
/// segment and nothing else: the shape used for every synthesized failure.
pub open spec fn is_simple_fatal(d: Diagnostic, msg: Seq<char>) -> bool {
    &&& d.level == Level::Fatal
    &&& d.message@.len() == 1
    &&& d.message@[0].text@ == msg
    &&& d.message@[0].style == Style::Level(Level::Fatal)
    &&& d.span@.len() == 0
    &&& d.children@.len() == 0
    &&& d.code is None
}

impl Diagnostic {
    /// The synthesized diagnostic for an abrupt failure: severity `Fatal`,
    /// one message segment holding `msg`, no spans, children or code.
    pub fn simple_fatal(msg: String) -> (r: Diagnostic)
        ensures
            is_simple_fatal(r, msg@),
    {
        let mut message: Vec<MsgPart> = Vec::new();
        message.push(MsgPart { text: msg, style: Style::Level(Level::Fatal) });
        Diagnostic {
            level: Level::Fatal,
            message,
            span: Vec::new(),
            children: Vec::new(),
            code: None,
        }
    }
}

/// An accumulator for the diagnostics emitted during one parse attempt. It
/// retains exactly the error-level diagnostics, in emission order, and is
/// created fresh for each attempt so nothing leaks between requests.
pub struct DiagnosticsEmitter {
    diagnostics: Vec<Diagnostic>,
}

impl View for DiagnosticsEmitter {
    type V = Seq<Diagnostic>;

    closed spec fn view(&self) -> Seq<Diagnostic> {
        self.diagnostics@
    }
}

impl DiagnosticsEmitter {
    /// A fresh, empty sink.
    pub fn new() -> (r: DiagnosticsEmitter)
        ensures
            r@ == Seq::<Diagnostic>::empty(),
    {
        DiagnosticsEmitter { diagnostics: Vec::new() }
    }

    /// Records `d` iff its severity is error-level; anything milder is
    /// silently dropped. No deduplication: equal diagnostics are all kept.
    pub fn emit(&mut self, d: Diagnostic)
        ensures
            final(self)@ == if is_error_level(d.level) {
                old(self)@.push(d)
            } else {
                old(self)@
            },
    {
        if is_error_level_ex(d.level) {
            self.diagnostics.push(d);
        }
    }

    /// Hands out everything recorded so far, consuming the sink.
    pub fn drain(self) -> (r: Vec<Diagnostic>)
        ensures
            r@ == self@,
    {
        self.diagnostics
    }
}

} // verus!
