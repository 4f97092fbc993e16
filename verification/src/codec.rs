//! The request/response codec: one decoded line in, one encoded line out.
//! A request is a JSON object with a required `content` field and optional
//! `action` and language metadata; a response carries the AST, the
//! diagnostics, the status token and the driver's static identity fields.
use vstd::prelude::*;
use crate::diag::{Diagnostic, Level, MsgPart, Span, Style, is_simple_fatal};
use crate::json::{field_views, json_view, lemma_field_views, push_all, render_str, render_str_into, Json, JsonV};
use crate::parse::{Ast, ParseStatus, ParsedAST, status_text};
use crate::parse::ast_wf;
use crate::text::{
    chars_to_string, hex_char, hex_char_ex, is_ctl, lemma_concat_safe, lemma_esc_safe, line_safe,
    str_to_chars,
};
use vstd::string::*;

verus! {

/// One decoded request line: the source text to parse, and the optional
/// action and language metadata of the extended protocol variant.
pub struct ParseRequest {
    pub action: Option<String>,
    pub language: Option<String>,
    pub language_version: Option<String>,
    pub content: String,
}

/// The mathematical content of a request.
pub struct RequestView {
    pub action: Option<Seq<char>>,
    pub language: Option<Seq<char>>,
    pub language_version: Option<Seq<char>>,
    pub content: Seq<char>,
}

impl View for ParseRequest {
    type V = RequestView;

    open spec fn view(&self) -> RequestView {
        RequestView {
            action: match self.action {
                Some(s) => Some(s@),
                None => None,
            },
            language: match self.language {
                Some(s) => Some(s@),
                None => None,
            },
            language_version: match self.language_version {
                Some(s) => Some(s@),
                None => None,
            },
            content: self.content@,
        }
    }
}

/// The first value stored under `key` among the members from `i` on.
pub open spec fn obj_get(fields: Seq<(Seq<char>, JsonV)>, key: Seq<char>, i: int) -> Option<
    JsonV,
>
    decreases fields.len() - i,
{
    if i < 0 || i >= fields.len() {
        None
    } else if fields[i].0 == key {
        Some(fields[i].1)
    } else {
        obj_get(fields, key, i + 1)
    }
}

/// An optional string member: `Some(Some(s))` for a string value,
/// `Some(None)` when absent or null, `None` when present with another type.
pub open spec fn str_field(fields: Seq<(Seq<char>, JsonV)>, key: Seq<char>) -> Option<
    Option<Seq<char>>,
> {
    match obj_get(fields, key, 0) {
        None => Some(None),
        Some(j) => match j {
            JsonV::Null => Some(None),
            JsonV::Str(s) => Some(Some(s)),
            _ => None,
        },
    }
}

/// The request a JSON value decodes to: it must be an object whose `content`
/// member is a string; `action`, `language` and `language_version` may be
/// absent or null, and must be strings when present.
pub open spec fn request_of(v: JsonV) -> Option<RequestView> {
    if !(v matches JsonV::Obj(_)) {
        None
    } else {
        let fields = v->Obj_0;
        match str_field(fields, "content"@) {
            Some(Some(c)) => match (
                str_field(fields, "action"@),
                str_field(fields, "language"@),
                str_field(fields, "language_version"@),
            ) {
                (Some(a), Some(l), Some(v)) => Some(
                    RequestView { action: a, language: l, language_version: v, content: c },
                ),
                _ => None,
            },
            _ => None,
        }
    }
}

/// Character-by-character equality of two vectors.
pub fn chars_eq(a: &Vec<char>, b: &Vec<char>) -> (r: bool)
    ensures
        r == (a@ == b@),
{
    if a.len() != b.len() {
        return false;
    }
    let mut i: usize = 0;
    while i < a.len()
        invariant
            a@.len() == b@.len(),
            i <= a@.len(),
            forall|k: int| 0 <= k < i ==> a@[k] == b@[k],
        decreases a@.len() - i,
    {
        if a[i] != b[i] {
            return false;
        }
        i = i + 1;
    }
    proof {
        assert(a@ =~= b@);
    }
    true
}

/// Looks `key` up among the members, first occurrence winning.
pub fn obj_get_ex<'a>(fields: &'a Vec<(Vec<char>, Json)>, key: &str) -> (r: Option<&'a Json>)
    ensures
        match r {
            Some(j) => obj_get(field_views(fields@, 0), key@, 0) == Some(json_view(*j)),
            None => obj_get(field_views(fields@, 0), key@, 0) is None,
        },
{
    let ghost fv = field_views(fields@, 0);
    proof {
        lemma_field_views(fields@, 0);
    }
    let k = str_to_chars(key);
    let mut i: usize = 0;
    while i < fields.len()
        invariant
            i <= fields@.len(),
            k@ == key@,
            fv == field_views(fields@, 0),
            fv.len() == fields@.len(),
            forall|q: int|
                0 <= q < fields@.len() ==> #[trigger] fv[q] == (
                    fields@[q].0@,
                    json_view(fields@[q].1),
                ),
            obj_get(fv, key@, 0) == obj_get(fv, key@, i as int),
        decreases fields@.len() - i,
    {
        if chars_eq(&fields[i].0, &k) {
            return Some(&fields[i].1);
        }
        i = i + 1;
    }
    None
}

/// Reads one optional string member, as `str_field` describes it.
fn str_field_ex(fields: &Vec<(Vec<char>, Json)>, key: &str) -> (r: Option<Option<String>>)
    ensures
        match r {
            Some(Some(s)) => str_field(field_views(fields@, 0), key@) == Some(Some(s@)),
            Some(None) => str_field(field_views(fields@, 0), key@) == Some(None::<Seq<char>>),
            None => str_field(field_views(fields@, 0), key@) is None,
        },
{
    match obj_get_ex(fields, key) {
        None => Some(None),
        Some(j) => match j {
            Json::Null => Some(None),
            Json::Str(s) => Some(Some(chars_to_string(s))),
            _ => None,
        },
    }
}

/// Decodes a JSON value into a request, exactly when `request_of` accepts
/// it.
pub fn request_from_json(j: &Json) -> (r: Option<ParseRequest>)
    ensures
        match r {
            Some(req) => request_of(json_view(*j)) == Some(req@),
            None => request_of(json_view(*j)) is None,
        },
{
    match j {
        Json::Obj(fields) => {
            let content = match str_field_ex(fields, "content") {
                Some(Some(c)) => c,
                _ => {
                    return None;
                },
            };
            let action = match str_field_ex(fields, "action") {
                Some(a) => a,
                None => {
                    return None;
                },
            };
            let language = match str_field_ex(fields, "language") {
                Some(l) => l,
                None => {
                    return None;
                },
            };
            let language_version = match str_field_ex(fields, "language_version") {
                Some(v) => v,
                None => {
                    return None;
                },
            };
            Some(ParseRequest { action, language, language_version, content })
        },
        _ => None,
    }
}

/// The declared language name attached to every response.
pub open spec fn language_text() -> Seq<char> {
    "Rust"@
}

/// The declared language version attached to every response.
pub open spec fn language_version_text() -> Seq<char> {
    "1.0"@
}

/// The driver identifier attached to every response.
pub open spec fn driver_text() -> Seq<char> {
    "parser-rust:1.0"@
}

/// Result that is sent, as one line, to the consumer of the driver.
pub struct ParseOutput {
    pub ast: Option<Ast>,
    pub errors: Vec<Diagnostic>,
    pub status: ParseStatus,
    pub language: String,
    pub language_version: String,
    pub driver: String,
}

/// The identity fields hold the process-wide constants.
pub open spec fn identity_ok(o: ParseOutput) -> bool {
    &&& o.language@ == language_text()
    &&& o.language_version@ == language_version_text()
    &&& o.driver@ == driver_text()
}

impl ParseOutput {
    /// Wraps one classified parse outcome, carrying its fields through
    /// unchanged and attaching the static identity fields.
    pub fn from_ast(ast: ParsedAST) -> (r: ParseOutput)
        ensures
            r.ast == ast.ast,
            r.errors == ast.errors,
            r.status == ast.status,
            identity_ok(r),
    {
        ParseOutput {
            ast: ast.ast,
            errors: ast.errors,
            status: ast.status,
            language: String::from_str("Rust"),
            language_version: String::from_str("1.0"),
            driver: String::from_str("parser-rust:1.0"),
        }
    }

    /// The synthesized response for a protocol-level failure: status
    /// `Fatal`, no AST, and one fatal diagnostic carrying `msg`.
    pub fn from_error(msg: String) -> (r: ParseOutput)
        ensures
            r.status == ParseStatus::Fatal,
            r.ast is None,
            r.errors@.len() == 1,
            is_simple_fatal(r.errors@[0], msg@),
            identity_ok(r),
    {
        let mut errors: Vec<Diagnostic> = Vec::new();
        errors.push(Diagnostic::simple_fatal(msg));
        ParseOutput {
            ast: None,
            errors,
            status: ParseStatus::Fatal,
            language: String::from_str("Rust"),
            language_version: String::from_str("1.0"),
            driver: String::from_str("parser-rust:1.0"),
        }
    }
}

/// The decimal digits of a non-negative number.
pub open spec fn dec_str(n: int) -> Seq<char>
    decreases n,
{
    if n < 10 {
        seq![hex_char(n)]
    } else {
        dec_str(n / 10) + seq![hex_char(n % 10)]
    }
}

/// A constant token written in quotes, unescaped.
pub open spec fn quoted(s: Seq<char>) -> Seq<char> {
    seq!['"'] + s + seq!['"']
}

/// The token a severity is written as.
pub open spec fn level_text(l: Level) -> Seq<char> {
    match l {
        Level::Bug => "Bug"@,
        Level::Fatal => "Fatal"@,
        Level::PhaseFatal => "PhaseFatal"@,
        Level::Error => "Error"@,
        Level::Warning => "Warning"@,
        Level::Note => "Note"@,
        Level::Help => "Help"@,
        Level::Cancelled => "Cancelled"@,
    }
}

/// The token a style is written as.
pub open spec fn style_text(st: Style) -> Seq<char> {
    match st {
        Style::NoStyle => "NoStyle"@,
        Style::Highlight => "Highlight"@,
        Style::Level(l) => "Level:"@ + level_text(l),
    }
}

/// One message segment: its text, escaped, and its style token.
pub open spec fn msg_part_render(p: MsgPart) -> Seq<char> {
    "{\"text\":"@ + render_str(p.text@) + ",\"style\":"@ + quoted(style_text(p.style))
        + seq!['}']
}

/// The comma-separated message segments from `i` on.
pub open spec fn msg_parts_render(s: Seq<MsgPart>, i: int) -> Seq<char>
    decreases s.len() - i,
{
    if i < 0 || i >= s.len() {
        Seq::empty()
    } else {
        (if i > 0 {
            seq![',']
        } else {
            Seq::empty()
        }) + msg_part_render(s[i]) + msg_parts_render(s, i + 1)
    }
}

/// One source range as an object of four line/column numbers.
pub open spec fn span_render(sp: Span) -> Seq<char> {
    "{\"start_line\":"@ + dec_str(sp.start_line as int) + ",\"start_col\":"@ + dec_str(
        sp.start_col as int,
    ) + ",\"end_line\":"@ + dec_str(sp.end_line as int) + ",\"end_col\":"@ + dec_str(
        sp.end_col as int,
    ) + seq!['}']
}

/// The comma-separated source ranges from `i` on.
pub open spec fn spans_render(s: Seq<Span>, i: int) -> Seq<char>
    decreases s.len() - i,
{
    if i < 0 || i >= s.len() {
        Seq::empty()
    } else {
        (if i > 0 {
            seq![',']
        } else {
            Seq::empty()
        }) + span_render(s[i]) + spans_render(s, i + 1)
    }
}

/// An optional error code: its text, escaped, or `null`.
pub open spec fn code_render(c: Option<String>) -> Seq<char> {
    match c {
        None => "null"@,
        Some(s) => render_str(s@),
    }
}

/// One diagnostic as a JSON object: severity, message segments, source
/// ranges, nested children and the optional code.
pub open spec fn diag_render(d: Diagnostic) -> Seq<char>
    decreases d, 0int,
{
    "{\"level\":"@ + quoted(level_text(d.level)) + ",\"message\":["@ + msg_parts_render(
        d.message@,
        0,
    ) + "],\"span\":["@ + spans_render(d.span@, 0) + "],\"children\":["@ + diags_render(
        d.children@,
        0,
    ) + "],\"code\":"@ + code_render(d.code) + seq!['}']
}

/// The comma-separated diagnostics from `i` on.
pub open spec fn diags_render(s: Seq<Diagnostic>, i: int) -> Seq<char>
    decreases s, s.len() - i,
{
    if i < 0 || i >= s.len() {
        Seq::empty()
    } else {
        (if i > 0 {
            seq![',']
        } else {
            Seq::empty()
        }) + diag_render(s[i]) + diags_render(s, i + 1)
    }
}

/// The AST member: the collaborator's serialized tree, or `null`.
pub open spec fn ast_render(a: Option<Ast>) -> Seq<char> {
    match a {
        None => "null"@,
        Some(x) => x.text@,
    }
}

/// The whole response line for one outcome.
pub open spec fn output_render(o: ParseOutput) -> Seq<char> {
    "{\"ast\":"@ + ast_render(o.ast) + ",\"errors\":["@ + diags_render(o.errors@, 0)
        + "],\"status\":"@ + quoted(status_text(o.status)) + ",\"language\":"@ + render_str(
        o.language@,
    ) + ",\"language_version\":"@ + render_str(o.language_version@) + ",\"driver\":"@
        + render_str(o.driver@) + seq!['}']
}

/// Appends the characters of a literal to `out`.
fn push_lit(lit: &str, out: &mut Vec<char>)
    ensures
        final(out)@ == old(out)@ + lit@,
{
    let v = str_to_chars(lit);
    push_all(&v, out);
}

/// Appends an escaped, quoted string to `out`.
fn render_str_string(s: &String, out: &mut Vec<char>)
    ensures
        final(out)@ == old(out)@ + render_str(s@),
{
    let v = str_to_chars(s.as_str());
    render_str_into(&v, out);
}

/// Appends the decimal digits of `n` to `out`.
fn dec_into(n: u64, out: &mut Vec<char>)
    ensures
        final(out)@ == old(out)@ + dec_str(n as int),
    decreases n,
{
    if n < 10 {
        out.push(hex_char_ex(n as u8));
        proof {
            assert(out@ =~= old(out)@ + dec_str(n as int));
        }
    } else {
        dec_into(n / 10, out);
        out.push(hex_char_ex((n % 10) as u8));
        proof {
            assert(out@ =~= old(out)@ + dec_str(n as int));
        }
    }
}

/// Appends a severity token to `out`.
fn level_into(l: Level, out: &mut Vec<char>)
    ensures
        final(out)@ == old(out)@ + level_text(l),
{
    match l {
        Level::Bug => push_lit("Bug", out),
        Level::Fatal => push_lit("Fatal", out),
        Level::PhaseFatal => push_lit("PhaseFatal", out),
        Level::Error => push_lit("Error", out),
        Level::Warning => push_lit("Warning", out),
        Level::Note => push_lit("Note", out),
        Level::Help => push_lit("Help", out),
        Level::Cancelled => push_lit("Cancelled", out),
    }
}

/// Appends one message segment to `out`.
fn msg_part_into(p: &MsgPart, out: &mut Vec<char>)
    ensures
        final(out)@ == old(out)@ + msg_part_render(*p),
{
    push_lit("{\"text\":", out);
    render_str_string(&p.text, out);
    push_lit(",\"style\":", out);
    out.push('"');
    match p.style {
        Style::NoStyle => push_lit("NoStyle", out),
        Style::Highlight => push_lit("Highlight", out),
        Style::Level(l) => {
            push_lit("Level:", out);
            level_into(l, out);
        },
    }
    out.push('"');
    out.push('}');
    proof {
        assert(out@ =~= old(out)@ + msg_part_render(*p));
    }
}

/// Appends one source range to `out`.
fn span_into(sp: &Span, out: &mut Vec<char>)
    ensures
        final(out)@ == old(out)@ + span_render(*sp),
{
    push_lit("{\"start_line\":", out);
    dec_into(sp.start_line, out);
    push_lit(",\"start_col\":", out);
    dec_into(sp.start_col, out);
    push_lit(",\"end_line\":", out);
    dec_into(sp.end_line, out);
    push_lit(",\"end_col\":", out);
    dec_into(sp.end_col, out);
    out.push('}');
    proof {
        assert(out@ =~= old(out)@ + span_render(*sp));
    }
}

/// Appends one diagnostic, children included, to `out`.
#[verifier::loop_isolation(false)]
#[verifier::rlimit(100)]
pub fn diag_into(d: &Diagnostic, out: &mut Vec<char>)
    ensures
        final(out)@ == old(out)@ + diag_render(*d),
    decreases *d, 0int,
{
    push_lit("{\"level\":\"", out);
    level_into(d.level, out);
    push_lit("\",\"message\":[", out);
    proof {
        assert("{\"level\":\""@ =~= "{\"level\":"@ + seq!['"']) by {
            reveal_strlit("{\"level\":\"");
            reveal_strlit("{\"level\":");
        }
        assert("\",\"message\":["@ =~= seq!['"'] + ",\"message\":["@) by {
            reveal_strlit("\",\"message\":[");
            reveal_strlit(",\"message\":[");
        }
    }
    let ghost mark1 = out@;
    let mut i: usize = 0;
    while i < d.message.len()
        invariant
            i <= d.message@.len(),
            out@ + msg_parts_render(d.message@, i as int) == mark1 + msg_parts_render(
                d.message@,
                0,
            ),
        decreases d.message@.len() - i,
    {
        if i > 0 {
            out.push(',');
        }
        msg_part_into(&d.message[i], out);
        proof {
            assert(out@ + msg_parts_render(d.message@, i + 1) =~= mark1 + msg_parts_render(
                d.message@,
                0,
            ));
        }
        i = i + 1;
    }
    push_lit("],\"span\":[", out);
    let ghost mark2 = out@;
    let mut i2: usize = 0;
    while i2 < d.span.len()
        invariant
            i2 <= d.span@.len(),
            out@ + spans_render(d.span@, i2 as int) == mark2 + spans_render(d.span@, 0),
        decreases d.span@.len() - i2,
    {
        if i2 > 0 {
            out.push(',');
        }
        span_into(&d.span[i2], out);
        proof {
            assert(out@ + spans_render(d.span@, i2 + 1) =~= mark2 + spans_render(d.span@, 0));
        }
        i2 = i2 + 1;
    }
    push_lit("],\"children\":[", out);
    let ghost mark3 = out@;
    let mut i3: usize = 0;
    while i3 < d.children.len()
        invariant
            i3 <= d.children@.len(),
            out@ + diags_render(d.children@, i3 as int) == mark3 + diags_render(d.children@, 0),
        decreases d.children@.len() - i3,
    {
        if i3 > 0 {
            out.push(',');
        }
        proof {
            assert(decreases_to!(*d => d.children));
            assert(decreases_to!(d.children => d.children@));
            assert(decreases_to!(d.children@ => d.children@[i3 as int]));
            assert(decreases_to!(*d => d.children@[i3 as int]));
        }
        diag_into(&d.children[i3], out);
        proof {
            assert(out@ + diags_render(d.children@, i3 + 1) =~= mark3 + diags_render(
                d.children@,
                0,
            ));
        }
        i3 = i3 + 1;
    }
    push_lit("],\"code\":", out);
    match &d.code {
        None => push_lit("null", out),
        Some(s) => render_str_string(s, out),
    }
    out.push('}');
    proof {
        assert(msg_parts_render(d.message@, d.message@.len() as int) =~= Seq::<char>::empty());
        assert(spans_render(d.span@, d.span@.len() as int) =~= Seq::<char>::empty());
        assert(diags_render(d.children@, d.children@.len() as int) =~= Seq::<char>::empty());
        assert(out@ =~= old(out)@ + diag_render(*d));
    }
}

/// Encodes one outcome as exactly the response line `output_render`
/// describes.
#[verifier::loop_isolation(false)]
#[verifier::rlimit(100)]
pub fn encode_output(o: &ParseOutput) -> (r: String)
    ensures
        r@ == output_render(*o),
{
    let mut out: Vec<char> = Vec::new();
    push_lit("{\"ast\":", &mut out);
    match &o.ast {
        None => push_lit("null", &mut out),
        Some(a) => {
            let v = str_to_chars(a.text.as_str());
            push_all(&v, &mut out);
        },
    }
    push_lit(",\"errors\":[", &mut out);
    let ghost mark = out@;
    let mut i: usize = 0;
    while i < o.errors.len()
        invariant
            i <= o.errors@.len(),
            out@ + diags_render(o.errors@, i as int) == mark + diags_render(o.errors@, 0),
        decreases o.errors@.len() - i,
    {
        if i > 0 {
            out.push(',');
        }
        diag_into(&o.errors[i], &mut out);
        proof {
            assert(out@ + diags_render(o.errors@, i + 1) =~= mark + diags_render(o.errors@, 0));
        }
        i = i + 1;
    }
    push_lit("],\"status\":\"", &mut out);
    let st = o.status.encode();
    let stv = str_to_chars(st.as_str());
    push_all(&stv, &mut out);
    push_lit("\",\"language\":", &mut out);
    render_str_string(&o.language, &mut out);
    push_lit(",\"language_version\":", &mut out);
    render_str_string(&o.language_version, &mut out);
    push_lit(",\"driver\":", &mut out);
    render_str_string(&o.driver, &mut out);
    out.push('}');
    proof {
        assert("],\"status\":\""@ =~= "],\"status\":"@ + seq!['"']) by {
            reveal_strlit("],\"status\":\"");
            reveal_strlit("],\"status\":");
        }
        assert("\",\"language\":"@ =~= seq!['"'] + ",\"language\":"@) by {
            reveal_strlit("\",\"language\":");
            reveal_strlit(",\"language\":");
        }
        assert(diags_render(o.errors@, o.errors@.len() as int) =~= Seq::<char>::empty());
        assert(out@ =~= output_render(*o));
    }
    chars_to_string(&out)
}

/// The digits of a number are never control characters.
pub proof fn lemma_dec_safe(n: int)
    ensures
        line_safe(dec_str(n)),
    decreases n,
{
    broadcast use lemma_concat_safe;

    if n < 10 {
        assert(!is_ctl(hex_char(n)));
        assert(line_safe(seq![hex_char(n)]));
    } else {
        lemma_dec_safe(n / 10);
        assert(!is_ctl(hex_char(n % 10)));
        assert(line_safe(seq![hex_char(n % 10)]));
    }
}

/// An escaped, quoted string literal is never split across lines.
pub proof fn lemma_render_str_safe(s: Seq<char>)
    ensures
        line_safe(render_str(s)),
{
    broadcast use lemma_concat_safe;

    lemma_esc_safe(s);
    assert(line_safe(seq!['"']));
}

/// Severity tokens hold no control characters.
pub proof fn lemma_level_safe(l: Level)
    ensures
        line_safe(level_text(l)),
{
    reveal_strlit("Bug");
    reveal_strlit("Fatal");
    reveal_strlit("PhaseFatal");
    reveal_strlit("Error");
    reveal_strlit("Warning");
    reveal_strlit("Note");
    reveal_strlit("Help");
    reveal_strlit("Cancelled");
}

/// Style tokens hold no control characters.
pub proof fn lemma_style_safe(st: Style)
    ensures
        line_safe(style_text(st)),
{
    broadcast use lemma_concat_safe;

    reveal_strlit("NoStyle");
    reveal_strlit("Highlight");
    reveal_strlit("Level:");
    match st {
        Style::Level(l) => lemma_level_safe(l),
        _ => {},
    }
}

/// One rendered message segment stays on one line.
pub proof fn lemma_msg_part_safe(p: MsgPart)
    ensures
        line_safe(msg_part_render(p)),
{
    broadcast use lemma_concat_safe;

    reveal_strlit("{\"text\":");
    reveal_strlit(",\"style\":");
    lemma_render_str_safe(p.text@);
    lemma_style_safe(p.style);
    assert(line_safe(seq!['"']));
    assert(line_safe(seq!['}']));
}

/// A rendered message list stays on one line.
pub proof fn lemma_msg_parts_safe(s: Seq<MsgPart>, i: int)
    ensures
        line_safe(msg_parts_render(s, i)),
    decreases s.len() - i,
{
    broadcast use lemma_concat_safe;

    if 0 <= i < s.len() {
        lemma_msg_part_safe(s[i]);
        lemma_msg_parts_safe(s, i + 1);
        assert(line_safe(seq![',']));
    }
}

/// One rendered source range stays on one line.
pub proof fn lemma_span_safe(sp: Span)
    ensures
        line_safe(span_render(sp)),
{
    broadcast use lemma_concat_safe;

    reveal_strlit("{\"start_line\":");
    reveal_strlit(",\"start_col\":");
    reveal_strlit(",\"end_line\":");
    reveal_strlit(",\"end_col\":");
    lemma_dec_safe(sp.start_line as int);
    lemma_dec_safe(sp.start_col as int);
    lemma_dec_safe(sp.end_line as int);
    lemma_dec_safe(sp.end_col as int);
    assert(line_safe(seq!['}']));
}

/// A rendered range list stays on one line.
pub proof fn lemma_spans_safe(s: Seq<Span>, i: int)
    ensures
        line_safe(spans_render(s, i)),
    decreases s.len() - i,
{
    broadcast use lemma_concat_safe;

    if 0 <= i < s.len() {
        lemma_span_safe(s[i]);
        lemma_spans_safe(s, i + 1);
        assert(line_safe(seq![',']));
    }
}

/// A rendered error code stays on one line.
pub proof fn lemma_code_safe(c: Option<String>)
    ensures
        line_safe(code_render(c)),
{
    reveal_strlit("null");
    match c {
        Some(s) => lemma_render_str_safe(s@),
        None => {},
    }
}

/// One rendered diagnostic, children included, stays on one line.
#[verifier::rlimit(100)]
pub proof fn lemma_diag_safe(d: Diagnostic)
    ensures
        line_safe(diag_render(d)),
    decreases d, 0int,
{
    broadcast use lemma_concat_safe;

    reveal_strlit("{\"level\":");
    reveal_strlit(",\"message\":[");
    reveal_strlit("],\"span\":[");
    reveal_strlit("],\"children\":[");
    reveal_strlit("],\"code\":");
    lemma_level_safe(d.level);
    lemma_msg_parts_safe(d.message@, 0);
    lemma_spans_safe(d.span@, 0);
    lemma_diags_safe(d.children@, 0);
    lemma_code_safe(d.code);
    assert(line_safe(seq!['"']));
    assert(line_safe(seq!['}']));
}

/// A rendered diagnostic list stays on one line.
pub proof fn lemma_diags_safe(s: Seq<Diagnostic>, i: int)
    ensures
        line_safe(diags_render(s, i)),
    decreases s, s.len() - i,
{
    broadcast use lemma_concat_safe;

    if 0 <= i < s.len() {
        lemma_diag_safe(s[i]);
        lemma_diags_safe(s, i + 1);
        assert(line_safe(seq![',']));
    }
}

/// The framing guarantee of the encoder: when the AST payload is
/// well-formed, the whole response text holds no control character, so it
/// is emitted as exactly one line and can never desynchronize the channel.
#[verifier::rlimit(100)]
pub proof fn lemma_output_line_safe(o: ParseOutput)
    requires
        o.ast matches Some(a) ==> ast_wf(a),
    ensures
        line_safe(output_render(o)),
{
    broadcast use lemma_concat_safe;

    reveal_strlit("{\"ast\":");
    reveal_strlit("null");
    reveal_strlit(",\"errors\":[");
    reveal_strlit("],\"status\":");
    reveal_strlit(",\"language\":");
    reveal_strlit(",\"language_version\":");
    reveal_strlit(",\"driver\":");
    reveal_strlit("ok");
    reveal_strlit("error");
    reveal_strlit("fatal");
    lemma_diags_safe(o.errors@, 0);
    lemma_render_str_safe(o.language@);
    lemma_render_str_safe(o.language_version@);
    lemma_render_str_safe(o.driver@);
    assert(line_safe(seq!['"']));
    assert(line_safe(seq!['}']));
    assert(line_safe(status_text(o.status)));
    assert(line_safe(ast_render(o.ast)));
}

} // verus!
