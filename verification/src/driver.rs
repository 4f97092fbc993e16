//! The driver's per-line decision layer: decode one line, reject an unknown
//! action, dispatch to the parse engine, and encode exactly one response
//! line. Nothing here terminates the process: every failure becomes data in
//! a well-formed response.
use vstd::prelude::*;
use crate::codec::{
    ParseOutput, ParseRequest, RequestView, encode_output, identity_ok, lemma_output_line_safe,
    output_render, request_from_json, request_of,
};
use crate::diag::is_simple_fatal;
use crate::json::{line_json, parse_json};
use crate::parse::{
    ParseStatus, ParsedAST, classified, lemma_parse_idempotent, parse_post, parse_source,
};
use crate::text::{line_safe, str_to_chars};
use vstd::string::*;

verus! {

/// The fixed message for a line that is not a decodable request.
pub open spec fn decode_err_text() -> Seq<char> {
    "error decoding input from json"@
}

/// The single supported action token.
pub open spec fn action_text() -> Seq<char> {
    "ParseAST"@
}

/// The prefix of the message rejecting an unrecognized action.
pub open spec fn unknown_action_text() -> Seq<char> {
    "unknown action "@
}

/// The parse outcome carried inside a response.
pub open spec fn out_parsed(o: ParseOutput) -> ParsedAST {
    ParsedAST { ast: o.ast, status: o.status, errors: o.errors }
}

/// Everything `dispatch_request` promises: a request whose action token is
/// present and unrecognized is rejected with a message naming it, and any
/// other request is answered by a parse of its content, wrapped with the
/// identity fields.
pub open spec fn dispatch_post(req: RequestView, r: Result<ParseOutput, String>) -> bool {
    match req.action {
        Some(a) => if a != action_text() {
            r matches Err(m) && m@ == unknown_action_text() + a
        } else {
            r matches Ok(o) && identity_ok(o) && parse_post(req.content, out_parsed(o))
        },
        None => r matches Ok(o) && identity_ok(o) && parse_post(req.content, out_parsed(o)),
    }
}

/// Rejects an unrecognized action, and otherwise parses the request's
/// content. The action is optional: a request without one is accepted.
pub fn dispatch_request(req: ParseRequest) -> (r: Result<ParseOutput, String>)
    ensures
        dispatch_post(req@, r),
{
    match req.action {
        Some(a) => {
            let token = String::from_str("ParseAST");
            if a != token {
                let mut m = String::from_str("unknown action ");
                m.append(a.as_str());
                Err(m)
            } else {
                Ok(ParseOutput::from_ast(parse_source(req.content)))
            }
        },
        None => Ok(ParseOutput::from_ast(parse_source(req.content))),
    }
}

/// The request one line of text decodes to: its single JSON value, read as
/// a request, or nothing.
pub open spec fn request_line(s: Seq<char>) -> Option<RequestView> {
    match line_json(s) {
        Some(v) => request_of(v),
        None => None,
    }
}

/// Everything `handle_request` promises: a line that does not decode to a
/// request is refused with the fixed decode message, and a decoded request
/// is dispatched, exactly as `dispatch_post` says.
pub open spec fn handle_post(line: Seq<char>, r: Result<ParseOutput, String>) -> bool {
    match request_line(line) {
        None => r matches Err(m) && m@ == decode_err_text(),
        Some(req) => dispatch_post(req, r),
    }
}

/// Decodes one line and dispatches it: the line is refused with the fixed
/// decode message exactly when it does not read as one JSON object whose
/// `content` member is a string; a present action other than the supported
/// token is refused with a message naming it; any other request is answered
/// by a parse of its content.
pub fn handle_request(content: String) -> (r: Result<ParseOutput, String>)
    ensures
        handle_post(content@, r),
{
    let chars = str_to_chars(content.as_str());
    match parse_json(&chars) {
        None => Err(String::from_str("error decoding input from json")),
        Some(j) => match request_from_json(&j) {
            None => Err(String::from_str("error decoding input from json")),
            Some(req) => dispatch_request(req),
        },
    }
}

/// The driver keeps no state across requests: two results for the same
/// line, wherever they fall in the request stream, agree in kind, in the
/// failure message, and in the response's status, AST text and diagnostic
/// count — so a valid request after any rejected one is answered exactly as
/// if it were the first.
pub proof fn lemma_handle_deterministic(
    line: Seq<char>,
    a: Result<ParseOutput, String>,
    b: Result<ParseOutput, String>,
)
    requires
        handle_post(line, a),
        handle_post(line, b),
    ensures
        a is Ok <==> b is Ok,
        a matches Err(m1) ==> (b matches Err(m2) && m1@ == m2@),
        a matches Ok(o1) ==> (b matches Ok(o2) && o1.status == o2.status && (o1.ast is Some
            <==> o2.ast is Some) && (o1.ast matches Some(x) ==> (o2.ast matches Some(y)
            && x.text@ == y.text@)) && o1.errors@.len() == o2.errors@.len()),
{
    match request_line(line) {
        None => {},
        Some(req) => {
            if a is Ok {
                lemma_parse_idempotent(req.content, out_parsed(a->Ok_0), out_parsed(b->Ok_0));
            }
        },
    }
}

/// A line holding nothing but its line terminator: no request is available
/// yet.
pub open spec fn blank_line(s: Seq<char>) -> bool {
    forall|i: int| 0 <= i < s.len() ==> ((#[trigger] s[i]) == '\n' || s[i] == '\r')
}

/// One response line as the driver writes it for the given input line: the
/// encoding of the dispatched outcome, or of the synthesized fatal response
/// carrying the failure's message.
pub open spec fn response_for(line: Seq<char>, out: Seq<char>) -> bool {
    exists|r: Result<ParseOutput, String>|
        #[trigger] handle_post(line, r) && match r {
            Ok(o) => out == output_render(o),
            Err(m) => exists|o: ParseOutput|
                #![trigger output_render(o)]
                out == output_render(o) && o.status == ParseStatus::Fatal
                    && o.ast is None && o.errors@.len() == 1 && is_simple_fatal(
                    o.errors@[0],
                    m@,
                ) && identity_ok(o),
        }
}

/// What the loop does with one line: wait briefly, or write one response.
pub enum LineAction {
    NoRequest,
    Respond(String),
}

/// The whole decision for one input line: a blank line asks the loop to
/// poll again; any other line produces exactly one encoded response, the
/// one that the line itself determines: the dispatched outcome, or a
/// synthesized fatal response carrying the failure's message. The response
/// holds no control character, so writing it followed by one line
/// terminator keeps the channel framed.
pub fn handle_line(line: &str) -> (r: LineAction)
    ensures
        (r is NoRequest <==> blank_line(line@)),
        r matches LineAction::Respond(out) ==> line_safe(out@) && response_for(line@, out@)
            && (exists|o: ParseOutput|
            out@ == #[trigger] output_render(o) && identity_ok(o) && classified(out_parsed(o))),
{
    let chars = str_to_chars(line);
    let mut i: usize = 0;
    let mut blank = true;
    while i < chars.len()
        invariant
            i <= chars@.len(),
            blank == (forall|k: int|
                0 <= k < i ==> ((#[trigger] chars@[k]) == '\n' || chars@[k] == '\r')),
        decreases chars@.len() - i,
    {
        let c = chars[i];
        if !(c == '\n' || c == '\r') {
            blank = false;
        }
        i = i + 1;
    }
    if blank {
        return LineAction::NoRequest;
    }
    let res = handle_request(line.to_owned());
    let ghost gres = res;
    let out = match res {
        Ok(o) => {
            proof {
                assert(handle_post(line@, gres));
                match request_line(line@) {
                    Some(req) => {
                        assert(parse_post(req.content, out_parsed(o)));
                    },
                    None => {
                        assert(false);
                    },
                }
                lemma_output_line_safe(o);
            }
            let out = encode_output(&o);
            proof {
                assert(response_for(line@, out@));
            }
            out
        },
        Err(m) => {
            let ghost gm = m@;
            let o = ParseOutput::from_error(m);
            proof {
                lemma_output_line_safe(o);
            }
            let out = encode_output(&o);
            proof {
                assert(handle_post(line@, gres));
                assert(out@ == output_render(o) && o.status == ParseStatus::Fatal
                    && o.ast is None && o.errors@.len() == 1 && is_simple_fatal(
                    o.errors@[0],
                    gm,
                ) && identity_ok(o));
                assert(response_for(line@, out@));
            }
            out
        },
    };
    LineAction::Respond(out)
}

} // verus!
