//! The parse engine: it invokes the external parser collaborator on one
//! source text, funnels both of the collaborator's failure channels through a
//! fresh diagnostic sink, and classifies the attempt into a tri-state
//! outcome.
use vstd::prelude::*;
use crate::diag::{Diagnostic, DiagnosticsEmitter, is_simple_fatal};
use crate::text::line_safe;
use vstd::string::*;

verus! {

/// What the parser collaborator returns for a given source text: either the
/// serialized syntax tree or the message of the error that prevented one
/// from being built. Both depend on the text alone.
pub uninterp spec fn parser_outcome(s: Seq<char>) -> Result<Seq<char>, Seq<char>>;

/// Relies on `syn::parse_file` and `syn_serde::json::to_string`: the text is
/// parsed as a Rust source file and, on success, the syntax tree is
/// serialized as one compact JSON document; on failure the parser's error is
/// rendered as its display message. Each is a function of the text alone,
/// which is what `parser_outcome` names. The serialization holds no control
/// character: the compact form writes no whitespace between tokens, and
/// control characters inside strings are escaped.
#[verifier::external_body]
fn run_parser(source: &str) -> (r: Result<String, String>)
    ensures
        r matches Ok(t) ==> parser_outcome(source@) matches Ok(a) && t@ == a && line_safe(a),
        r matches Err(m) ==> parser_outcome(source@) matches Err(e) && m@ == e,
{
    match syn::parse_file(source) {
        Ok(file) => Ok(syn_serde::json::to_string(&file)),
        Err(e) => Err(e.to_string()),
    }
}

/// The three-way outcome of a parse attempt: `Success` when a syntax tree
/// was built and no error-level diagnostic was retained, `Error` when a tree
/// was built alongside retained errors, `Fatal` when no tree could be built.
#[derive(Clone, Copy, PartialEq, Eq, Structural, Debug)]
pub enum ParseStatus {
    Success,
    Error,
    Fatal,
}

/// The protocol token for a status.
pub open spec fn status_text(s: ParseStatus) -> Seq<char> {
    match s {
        ParseStatus::Success => "ok"@,
        ParseStatus::Error => "error"@,
        ParseStatus::Fatal => "fatal"@,
    }
}

impl ParseStatus {
    /// The token this status is written as on the wire.
    pub fn encode(&self) -> (r: String)
        ensures
            r@ == status_text(*self),
    {
        match self {
            ParseStatus::Success => String::from_str("ok"),
            ParseStatus::Error => String::from_str("error"),
            ParseStatus::Fatal => String::from_str("fatal"),
        }
    }
}

/// The parsed syntax tree, held as the single-line JSON document the parser
/// collaborator serialized it to. The library carries it through opaquely.
pub struct Ast {
    pub text: String,
}

/// An AST payload is well-formed when its text can sit inside one protocol
/// line.
pub open spec fn ast_wf(a: Ast) -> bool {
    line_safe(a.text@)
}

/// Representation of the parsed AST with its status and the diagnostics
/// gathered during the parsing.
pub struct ParsedAST {
    pub ast: Option<Ast>,
    pub status: ParseStatus,
    pub errors: Vec<Diagnostic>,
}

/// The classification invariant: `Success` means a tree and no retained
/// diagnostics, `Error` a tree with retained diagnostics, `Fatal` no tree
/// (whatever the diagnostic count).
pub open spec fn classified(r: ParsedAST) -> bool {
    &&& (r.status == ParseStatus::Success <==> r.ast is Some && r.errors@.len() == 0)
    &&& (r.status == ParseStatus::Error <==> r.ast is Some && r.errors@.len() > 0)
    &&& (r.status == ParseStatus::Fatal <==> r.ast is None)
}

impl ParsedAST {
    /// Classifies one attempt: the status is a function of whether a tree is
    /// present and whether any diagnostics were retained; both inputs are
    /// carried through unchanged.
    pub fn new(krate: Option<Ast>, errors: Vec<Diagnostic>) -> (r: ParsedAST)
        ensures
            r.ast == krate,
            r.errors == errors,
            classified(r),
            krate is Some && errors@.len() == 0 ==> r.status == ParseStatus::Success,
            krate is Some && errors@.len() > 0 ==> r.status == ParseStatus::Error,
            krate is None ==> r.status == ParseStatus::Fatal,
    {
        let status = match &krate {
            Some(_) => if errors.len() > 0 {
                ParseStatus::Error
            } else {
                ParseStatus::Success
            },
            None => ParseStatus::Fatal,
        };
        ParsedAST { ast: krate, status, errors }
    }
}

/// Everything `parse_source` promises, as a predicate of the source text and
/// the result: the outcome is classified, and each branch of the
/// collaborator's verdict pins the status, the AST text and the diagnostics.
pub open spec fn parse_post(source: Seq<char>, r: ParsedAST) -> bool {
    &&& classified(r)
    &&& (r.ast matches Some(a) ==> ast_wf(a))
    &&& match parser_outcome(source) {
        Ok(t) => {
            &&& r.status == ParseStatus::Success
            &&& (r.ast matches Some(a) && a.text@ == t)
            &&& r.errors@.len() == 0
        },
        Err(m) => {
            &&& r.status == ParseStatus::Fatal
            &&& r.ast is None
            &&& r.errors@.len() == 1
            &&& is_simple_fatal(r.errors@[0], m)
        },
    }
}

/// Parses the given source and returns a structure with the parsed AST and
/// all the error-level diagnostics gathered during the parsing. A fresh sink
/// is used per call; the collaborator's abrupt-failure channel is forced
/// into the sink before classification, so one contract covers both failure
/// shapes. This collaborator is all-or-nothing — it never builds a tree
/// while also flagging errors — so a parse attempt here ends `Success` or
/// `Fatal`; the `Error` status arises only through `ParsedAST::new`, for a
/// collaborator with a recovering error channel.
pub fn parse_source(source: String) -> (r: ParsedAST)
    ensures
        parse_post(source@, r),
{
    let mut sink = DiagnosticsEmitter::new();
    match run_parser(source.as_str()) {
        Ok(text) => ParsedAST::new(Some(Ast { text }), sink.drain()),
        Err(m) => {
            sink.emit(Diagnostic::simple_fatal(m));
            ParsedAST::new(None, sink.drain())
        },
    }
}

/// Parsing is a pure function of the source text: two attempts on the same
/// text agree in status, in AST presence and text, and in their diagnostics'
/// count, order, severities and message texts.
pub proof fn lemma_parse_idempotent(source: Seq<char>, a: ParsedAST, b: ParsedAST)
    requires
        parse_post(source, a),
        parse_post(source, b),
    ensures
        a.status == b.status,
        a.ast is Some <==> b.ast is Some,
        a.ast matches Some(x) ==> (b.ast matches Some(y) && x.text@ == y.text@),
        a.errors@.len() == b.errors@.len(),
        forall|i: int|
            0 <= i < a.errors@.len() ==> (#[trigger] a.errors@[i]).level == b.errors@[i].level
                && a.errors@[i].message@.len() == b.errors@[i].message@.len(),
        forall|i: int, k: int|
            0 <= i < a.errors@.len() && 0 <= k < a.errors@[i].message@.len()
                ==> (#[trigger] a.errors@[i].message@[k]).text@ == b.errors@[i].message@[k].text@,
{
}

} // verus!
