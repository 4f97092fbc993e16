//! A small JSON value type with a verified single-line renderer and a parser
//! for line-delimited JSON. Numbers are kept as raw lexemes so that no
//! floating-point value ever enters the library.
use vstd::prelude::*;
use crate::text::{esc, escape_into, is_ws, scan_str, scan_string};

verus! {

/// One JSON value. String content is stored decoded; a number is kept as the
/// lexeme it was written with.
pub enum Json {
    Null,
    Bool(bool),
    Num(Vec<char>),
    Str(Vec<char>),
    Arr(Vec<Json>),
    Obj(Vec<(Vec<char>, Json)>),
}

/// A character that may appear in a number lexeme.
pub open spec fn num_char(c: char) -> bool {
    ('0' <= c && c <= '9') || c == '-' || c == '+' || c == '.' || c == 'e' || c == 'E'
}

/// A non-empty text of number characters.
pub open spec fn num_lexeme(s: Seq<char>) -> bool {
    s.len() > 0 && forall|i: int| 0 <= i < s.len() ==> num_char(#[trigger] s[i])
}

/// Well-formedness of a value: every number holds a proper lexeme. The
/// renderer emits exactly one line for every well-formed value.
pub open spec fn json_wf(j: Json) -> bool
    decreases j,
{
    match j {
        Json::Null => true,
        Json::Bool(_) => true,
        Json::Num(s) => num_lexeme(s@),
        Json::Str(_) => true,
        Json::Arr(v) => forall|i: int| 0 <= i < v@.len() ==> json_wf(#[trigger] v@[i]),
        Json::Obj(v) => forall|i: int| 0 <= i < v@.len() ==> json_wf(#[trigger] v@[i].1),
    }
}

/// A string literal as it is written: quoted and escaped.
pub open spec fn render_str(s: Seq<char>) -> Seq<char> {
    seq!['"'] + esc(s) + seq!['"']
}

/// The text of one JSON value, in the compact form the protocol emits.
pub open spec fn render(j: Json) -> Seq<char>
    decreases j, 0int,
{
    match j {
        Json::Null => seq!['n', 'u', 'l', 'l'],
        Json::Bool(b) => if b {
            seq!['t', 'r', 'u', 'e']
        } else {
            seq!['f', 'a', 'l', 's', 'e']
        },
        Json::Num(s) => s@,
        Json::Str(s) => render_str(s@),
        Json::Arr(v) => seq!['['] + render_items(v@, 0) + seq![']'],
        Json::Obj(v) => seq!['{'] + render_fields(v@, 0) + seq!['}'],
    }
}

/// The comma-separated tail of an array body, from element `i` on.
pub open spec fn render_items(s: Seq<Json>, i: int) -> Seq<char>
    decreases s, s.len() - i,
{
    if i < 0 || i >= s.len() {
        Seq::empty()
    } else {
        (if i > 0 {
            seq![',']
        } else {
            Seq::empty()
        }) + render(s[i]) + render_items(s, i + 1)
    }
}

/// The comma-separated tail of an object body, from member `i` on.
pub open spec fn render_fields(s: Seq<(Vec<char>, Json)>, i: int) -> Seq<char>
    decreases s, s.len() - i,
{
    if i < 0 || i >= s.len() {
        Seq::empty()
    } else {
        (if i > 0 {
            seq![',']
        } else {
            Seq::empty()
        }) + render_str(s[i].0@) + seq![':'] + render(s[i].1) + render_fields(s, i + 1)
    }
}

/// Appends all characters of `s` to `out`.
pub fn push_all(s: &Vec<char>, out: &mut Vec<char>)
    ensures
        final(out)@ == old(out)@ + s@,
{
    let mut i: usize = 0;
    proof {
        assert(out@ =~= out@ + s@.subrange(0, 0));
    }
    while i < s.len()
        invariant
            i <= s@.len(),
            out@ == old(out)@ + s@.subrange(0, i as int),
        decreases s@.len() - i,
    {
        out.push(s[i]);
        proof {
            assert(s@.subrange(0, i as int).push(s@[i as int]) =~= s@.subrange(0, i + 1));
            assert(out@ =~= old(out)@ + s@.subrange(0, i + 1));
        }
        i = i + 1;
    }
    proof {
        assert(s@.subrange(0, s@.len() as int) =~= s@);
    }
}

/// Appends a quoted, escaped string literal holding `s` to `out`.
pub fn render_str_into(s: &Vec<char>, out: &mut Vec<char>)
    ensures
        final(out)@ == old(out)@ + render_str(s@),
{
    out.push('"');
    escape_into(s, out);
    out.push('"');
    proof {
        assert(out@ =~= old(out)@ + render_str(s@));
    }
}

/// Appends the text of `j` to `out`.
#[verifier::loop_isolation(false)]
#[verifier::rlimit(100)]
pub fn render_into(j: &Json, out: &mut Vec<char>)
    ensures
        final(out)@ == old(out)@ + render(*j),
    decreases *j, 0int,
{
    match j {
        Json::Null => {
            out.push('n');
            out.push('u');
            out.push('l');
            out.push('l');
            proof {
                assert(out@ =~= old(out)@ + render(*j));
            }
        },
        Json::Bool(b) => {
            if *b {
                out.push('t');
                out.push('r');
                out.push('u');
                out.push('e');
            } else {
                out.push('f');
                out.push('a');
                out.push('l');
                out.push('s');
                out.push('e');
            }
            proof {
                assert(out@ =~= old(out)@ + render(*j));
            }
        },
        Json::Num(s) => {
            push_all(s, out);
        },
        Json::Str(s) => {
            render_str_into(s, out);
        },
        Json::Arr(v) => {
            out.push('[');
            let ghost base = old(out)@;
            let mut i: usize = 0;
            proof {
                assert(out@ + render_items(v@, 0) + seq![']'] =~= base + render(*j));
            }
            while i < v.len()
                invariant
                    i <= v@.len(),
                    out@ + render_items(v@, i as int) + seq![']'] == base + render(*j),
                decreases v@.len() - i,
            {
                if i > 0 {
                    out.push(',');
                }
                proof {
                    assert(j->Arr_0 == *v);
                    assert(decreases_to!(*j => j->Arr_0));
                    assert(decreases_to!(*v => v@));
                    assert(decreases_to!(v@ => v@[i as int]));
                    assert(decreases_to!(*j => v@[i as int]));
                }
                render_into(&v[i], out);
                proof {
                    assert(out@ + render_items(v@, i + 1) + seq![']'] =~= base + render(*j));
                }
                i = i + 1;
            }
            proof {
                assert(render_items(v@, v@.len() as int) =~= Seq::<char>::empty());
            }
            out.push(']');
            proof {
                assert(out@ =~= base + render(*j));
            }
        },
        Json::Obj(v) => {
            out.push('{');
            let ghost base = old(out)@;
            let mut i: usize = 0;
            proof {
                assert(out@ + render_fields(v@, 0) + seq!['}'] =~= base + render(*j));
            }
            while i < v.len()
                invariant
                    i <= v@.len(),
                    out@ + render_fields(v@, i as int) + seq!['}'] == base + render(*j),
                decreases v@.len() - i,
            {
                if i > 0 {
                    out.push(',');
                }
                render_str_into(&v[i].0, out);
                out.push(':');
                proof {
                    assert(j->Obj_0 == *v);
                    assert(decreases_to!(*j => j->Obj_0));
                    assert(decreases_to!(*v => v@));
                    assert(decreases_to!(v@ => v@[i as int]));
                    assert(decreases_to!(v@[i as int] => v@[i as int].1));
                    assert(decreases_to!(*j => v@[i as int].1));
                }
                render_into(&v[i].1, out);
                proof {
                    assert(out@ + render_fields(v@, i + 1) + seq!['}'] =~= base + render(*j));
                }
                i = i + 1;
            }
            proof {
                assert(render_fields(v@, v@.len() as int) =~= Seq::<char>::empty());
            }
            out.push('}');
            proof {
                assert(out@ =~= base + render(*j));
            }
        },
    }
}

/// The text of `j` as a fresh character vector.
pub fn render_chars(j: &Json) -> (r: Vec<char>)
    ensures
        r@ == render(*j),
{
    let mut out: Vec<char> = Vec::new();
    render_into(j, &mut out);
    proof {
        assert(Seq::<char>::empty() + render(*j) =~= render(*j));
    }
    out
}


/// The mathematical content of a JSON value.
pub enum JsonV {
    Null,
    Bool(bool),
    Num(Seq<char>),
    Str(Seq<char>),
    Arr(Seq<JsonV>),
    Obj(Seq<(Seq<char>, JsonV)>),
}

/// The content of one value.
pub open spec fn json_view(j: Json) -> JsonV
    decreases j, 0int,
{
    match j {
        Json::Null => JsonV::Null,
        Json::Bool(b) => JsonV::Bool(b),
        Json::Num(s) => JsonV::Num(s@),
        Json::Str(s) => JsonV::Str(s@),
        Json::Arr(v) => JsonV::Arr(json_views(v@, 0)),
        Json::Obj(v) => JsonV::Obj(field_views(v@, 0)),
    }
}

/// The contents of the values from `i` on.
pub open spec fn json_views(s: Seq<Json>, i: int) -> Seq<JsonV>
    decreases s, s.len() - i,
{
    if i < 0 || i >= s.len() {
        Seq::empty()
    } else {
        seq![json_view(s[i])] + json_views(s, i + 1)
    }
}

/// The contents of the members from `i` on.
pub open spec fn field_views(s: Seq<(Vec<char>, Json)>, i: int) -> Seq<(Seq<char>, JsonV)>
    decreases s, s.len() - i,
{
    if i < 0 || i >= s.len() {
        Seq::empty()
    } else {
        seq![(s[i].0@, json_view(s[i].1))] + field_views(s, i + 1)
    }
}

/// `json_views` maps element by element.
pub proof fn lemma_json_views(s: Seq<Json>, i: int)
    requires
        0 <= i <= s.len(),
    ensures
        json_views(s, i).len() == s.len() - i,
        forall|k: int|
            0 <= k < s.len() - i ==> #[trigger] json_views(s, i)[k] == json_view(s[i + k]),
    decreases s.len() - i,
{
    if i < s.len() {
        lemma_json_views(s, i + 1);
    }
}

/// Appending a value on the right appends its content on the right.
pub proof fn lemma_json_views_snoc(s: Seq<Json>, j: Json)
    ensures
        json_views(s.push(j), 0) == json_views(s, 0).push(json_view(j)),
{
    lemma_json_views(s.push(j), 0);
    lemma_json_views(s, 0);
    assert(json_views(s.push(j), 0) =~= json_views(s, 0).push(json_view(j)));
}

/// `field_views` maps member by member.
pub proof fn lemma_field_views(s: Seq<(Vec<char>, Json)>, i: int)
    requires
        0 <= i <= s.len(),
    ensures
        field_views(s, i).len() == s.len() - i,
        forall|k: int|
            0 <= k < s.len() - i ==> #[trigger] field_views(s, i)[k] == (
                s[i + k].0@,
                json_view(s[i + k].1),
            ),
    decreases s.len() - i,
{
    if i < s.len() {
        lemma_field_views(s, i + 1);
    }
}

/// Appending a member on the right appends its content on the right.
pub proof fn lemma_field_views_snoc(s: Seq<(Vec<char>, Json)>, p: (Vec<char>, Json))
    ensures
        field_views(s.push(p), 0) == field_views(s, 0).push((p.0@, json_view(p.1))),
{
    lemma_field_views(s.push(p), 0);
    lemma_field_views(s, 0);
    assert(field_views(s.push(p), 0) =~= field_views(s, 0).push((p.0@, json_view(p.1))));
}

/// The index of the first character at or after `i` that is not whitespace.
pub open spec fn ws_end(s: Seq<char>, i: int) -> int
    decreases s.len() - i,
{
    if 0 <= i < s.len() && is_ws(s[i]) {
        ws_end(s, i + 1)
    } else {
        i
    }
}

/// The index of the first character at or after `i` that is not a number
/// character.
pub open spec fn num_end(s: Seq<char>, i: int) -> int
    decreases s.len() - i,
{
    if 0 <= i < s.len() && num_char(s[i]) {
        num_end(s, i + 1)
    } else {
        i
    }
}

/// A decimal digit.
pub open spec fn is_digit(c: char) -> bool {
    '0' <= c && c <= '9'
}

/// The index of the first character at or after `i` that is not a digit.
pub open spec fn digits_end(s: Seq<char>, i: int) -> int
    decreases s.len() - i,
{
    if 0 <= i < s.len() && is_digit(s[i]) {
        digits_end(s, i + 1)
    } else {
        i
    }
}

/// The exponent part of a number, or its end: empty, or `e`/`E`, an optional
/// sign, and at least one digit reaching the end of the lexeme.
pub open spec fn exp_ok(s: Seq<char>, i: int) -> bool {
    if i >= s.len() {
        i == s.len()
    } else if s[i] == 'e' || s[i] == 'E' {
        let b = if i + 1 < s.len() && (s[i + 1] == '+' || s[i + 1] == '-') {
            i + 2
        } else {
            i + 1
        };
        let e = digits_end(s, b);
        e > b && e == s.len()
    } else {
        false
    }
}

/// The fraction part of a number, or its end: empty, or a dot followed by at
/// least one digit, then the exponent part.
pub open spec fn frac_ok(s: Seq<char>, i: int) -> bool {
    if i >= s.len() {
        i == s.len()
    } else if s[i] == '.' {
        let e = digits_end(s, i + 1);
        e > i + 1 && exp_ok(s, e)
    } else {
        exp_ok(s, i)
    }
}

/// A whole number lexeme as the JSON grammar has it: an optional minus, an
/// integer part without leading zeros, then fraction and exponent parts.
pub open spec fn num_ok(s: Seq<char>) -> bool {
    let b: int = if s.len() > 0 && s[0] == '-' {
        1
    } else {
        0
    };
    let e = digits_end(s, b);
    &&& b < s.len()
    &&& e > b
    &&& (s[b] == '0' ==> e == b + 1)
    &&& frac_ok(s, e)
}

/// `k`, forced past `i` and onto the text: the spec readers use it where a
/// sub-reading's end index flows into the next reading, so that their
/// termination is by the text alone. Wherever a reader is reachable the
/// sub-reading has moved forward and `adv_in` is the identity on `k`.
pub open spec fn adv_in(s: Seq<char>, i: int, k: int) -> int {
    let a = if k > i {
        k
    } else {
        i + 1
    };
    if a <= s.len() {
        a
    } else {
        s.len() as int
    }
}

/// Reads one JSON value at the first non-whitespace index at or after `i`:
/// the value's content and the index just past its text, or `None` when no
/// value of the grammar starts there.
pub open spec fn read_value(s: Seq<char>, i: int) -> Option<(JsonV, int)>
    decreases s.len() - i, 0int,
{
    let j = ws_end(s, i);
    if j < i || j >= s.len() {
        None
    } else {
        let c = s[j];
        if c == '"' {
            match scan_str(s.subrange(j + 1, s.len() as int)) {
                Some(p) => Some((JsonV::Str(p.0), s.len() - p.1.len())),
                None => None,
            }
        } else if c == 't' {
            if j + 4 <= s.len() && s[j + 1] == 'r' && s[j + 2] == 'u' && s[j + 3] == 'e' {
                Some((JsonV::Bool(true), j + 4))
            } else {
                None
            }
        } else if c == 'f' {
            if j + 5 <= s.len() && s[j + 1] == 'a' && s[j + 2] == 'l' && s[j + 3] == 's' && s[j
                + 4] == 'e' {
                Some((JsonV::Bool(false), j + 5))
            } else {
                None
            }
        } else if c == 'n' {
            if j + 4 <= s.len() && s[j + 1] == 'u' && s[j + 2] == 'l' && s[j + 3] == 'l' {
                Some((JsonV::Null, j + 4))
            } else {
                None
            }
        } else if c == '-' || is_digit(c) {
            let e = num_end(s, j + 1);
            if j < e <= s.len() && num_ok(s.subrange(j, e)) {
                Some((JsonV::Num(s.subrange(j, e)), e))
            } else {
                None
            }
        } else if c == '[' {
            match read_arr(s, j + 1, Seq::empty()) {
                Some(p) => Some((JsonV::Arr(p.0), p.1)),
                None => None,
            }
        } else if c == '{' {
            match read_obj(s, j + 1, Seq::empty()) {
                Some(p) => Some((JsonV::Obj(p.0), p.1)),
                None => None,
            }
        } else {
            None
        }
    }
}

/// Reads the rest of an array body expecting an element (or, with nothing
/// read yet, the closing bracket): the elements read so far plus the rest.
pub open spec fn read_arr(s: Seq<char>, i: int, acc: Seq<JsonV>) -> Option<(Seq<JsonV>, int)>
    decreases s.len() - i, 1int,
{
    let j = ws_end(s, i);
    if j < i || j >= s.len() {
        None
    } else if acc.len() == 0 && s[j] == ']' {
        Some((acc, j + 1))
    } else {
        match read_value(s, j) {
            Some(p) => read_arr_sep(s, adv_in(s, j, p.1), acc.push(p.0)),
            None => None,
        }
    }
}

/// Reads the rest of an array body expecting a comma or the closing bracket.
pub open spec fn read_arr_sep(s: Seq<char>, i: int, acc: Seq<JsonV>) -> Option<
    (Seq<JsonV>, int),
>
    decreases s.len() - i, 1int,
{
    let j = ws_end(s, i);
    if j < i || j >= s.len() {
        None
    } else if s[j] == ']' {
        Some((acc, j + 1))
    } else if s[j] == ',' {
        read_arr(s, j + 1, acc)
    } else {
        None
    }
}

/// Reads the rest of an object body expecting a member (or, with nothing
/// read yet, the closing brace): the members read so far plus the rest.
pub open spec fn read_obj(s: Seq<char>, i: int, acc: Seq<(Seq<char>, JsonV)>) -> Option<
    (Seq<(Seq<char>, JsonV)>, int),
>
    decreases s.len() - i, 1int,
{
    let j = ws_end(s, i);
    if j < i || j >= s.len() {
        None
    } else if acc.len() == 0 && s[j] == '}' {
        Some((acc, j + 1))
    } else if s[j] == '"' {
        match scan_str(s.subrange(j + 1, s.len() as int)) {
            Some(p) => {
                let k = ws_end(s, s.len() - p.1.len());
                if k < j || k >= s.len() || s[k] != ':' {
                    None
                } else {
                    match read_value(s, adv_in(s, j, k + 1)) {
                        Some(q) => read_obj_sep(s, adv_in(s, k + 1, q.1), acc.push((p.0, q.0))),
                        None => None,
                    }
                }
            },
            None => None,
        }
    } else {
        None
    }
}

/// Reads the rest of an object body expecting a comma or the closing brace.
pub open spec fn read_obj_sep(s: Seq<char>, i: int, acc: Seq<(Seq<char>, JsonV)>) -> Option<
    (Seq<(Seq<char>, JsonV)>, int),
>
    decreases s.len() - i, 1int,
{
    let j = ws_end(s, i);
    if j < i || j >= s.len() {
        None
    } else if s[j] == '}' {
        Some((acc, j + 1))
    } else if s[j] == ',' {
        read_obj(s, j + 1, acc)
    } else {
        None
    }
}

/// What one line of text means: the single JSON value it holds, with nothing
/// but whitespace around it, or nothing.
pub open spec fn line_json(s: Seq<char>) -> Option<JsonV> {
    match read_value(s, 0) {
        Some(p) => if ws_end(s, p.1) == s.len() {
            Some(p.0)
        } else {
            None
        },
        None => None,
    }
}

/// The index of the first non-whitespace character at or after `i`.
pub fn skip_ws(s: &Vec<char>, i: usize) -> (r: usize)
    requires
        i <= s@.len(),
    ensures
        i <= r <= s@.len(),
        r as int == ws_end(s@, i as int),
{
    let mut k = i;
    while k < s.len() && (s[k] == ' ' || s[k] == '\t' || s[k] == '\n' || s[k] == '\r')
        invariant
            i <= k <= s@.len(),
            ws_end(s@, i as int) == ws_end(s@, k as int),
        decreases s@.len() - k,
    {
        k = k + 1;
    }
    k
}

/// The index of the first non-digit character at or after `i`.
fn digits_end_ex(v: &Vec<char>, i: usize) -> (r: usize)
    requires
        i <= v@.len(),
    ensures
        i <= r <= v@.len(),
        r as int == digits_end(v@, i as int),
{
    let mut k = i;
    while k < v.len() && '0' <= v[k] && v[k] <= '9'
        invariant
            i <= k <= v@.len(),
            digits_end(v@, i as int) == digits_end(v@, k as int),
        decreases v@.len() - k,
    {
        k = k + 1;
    }
    k
}

/// Executable test for `exp_ok`.
fn exp_ok_ex(v: &Vec<char>, i: usize) -> (r: bool)
    requires
        i <= v@.len(),
    ensures
        r == exp_ok(v@, i as int),
{
    if i >= v.len() {
        return true;
    }
    let c = v[i];
    if !(c == 'e' || c == 'E') {
        return false;
    }
    let b: usize = if i + 1 < v.len() && (v[i + 1] == '+' || v[i + 1] == '-') {
        i + 2
    } else {
        i + 1
    };
    let e = digits_end_ex(v, b);
    e > b && e == v.len()
}

/// Executable test for `frac_ok`.
fn frac_ok_ex(v: &Vec<char>, i: usize) -> (r: bool)
    requires
        i <= v@.len(),
    ensures
        r == frac_ok(v@, i as int),
{
    if i >= v.len() {
        return true;
    }
    if v[i] == '.' {
        let e = digits_end_ex(v, i + 1);
        e > i + 1 && exp_ok_ex(v, e)
    } else {
        exp_ok_ex(v, i)
    }
}

/// Executable test for `num_ok`.
fn num_ok_ex(v: &Vec<char>) -> (r: bool)
    ensures
        r == num_ok(v@),
{
    let b: usize = if v.len() > 0 && v[0] == '-' {
        1
    } else {
        0
    };
    if b >= v.len() {
        return false;
    }
    let e = digits_end_ex(v, b);
    if e <= b {
        return false;
    }
    if v[b] == '0' && e != b + 1 {
        return false;
    }
    frac_ok_ex(v, e)
}

/// A character that may appear in a number lexeme.
pub fn num_char_ex(c: char) -> (r: bool)
    ensures
        r == num_char(c),
{
    ('0' <= c && c <= '9') || c == '-' || c == '+' || c == '.' || c == 'e' || c == 'E'
}

/// Reads one JSON value beginning at `i`, exactly as `read_value` describes
/// it: the same value and the same end index, or `None` together.
#[verifier::loop_isolation(false)]
#[verifier::rlimit(100)]
pub fn parse_value(s: &Vec<char>, i: usize) -> (r: Option<(Json, usize)>)
    requires
        i <= s@.len(),
    ensures
        match r {
            Some(p) => read_value(s@, i as int) == Some((json_view(p.0), p.1 as int)) && i < p.1
                <= s@.len() && json_wf(p.0),
            None => read_value(s@, i as int) is None,
        },
    decreases s@.len() - i, 0int,
{
    let j = skip_ws(s, i);
    if j == s.len() {
        return None;
    }
    let c = s[j];
    if c == '"' {
        match scan_string(s, j + 1) {
            Some(p) => {
                proof {
                    assert(s@.subrange(p.1 as int, s@.len() as int).len() == s@.len() - p.1);
                }
                Some((Json::Str(p.0), p.1))
            },
            None => None,
        }
    } else if c == 't' {
        if s.len() - j >= 4 && s[j + 1] == 'r' && s[j + 2] == 'u' && s[j + 3] == 'e' {
            Some((Json::Bool(true), j + 4))
        } else {
            None
        }
    } else if c == 'f' {
        if s.len() - j >= 5 && s[j + 1] == 'a' && s[j + 2] == 'l' && s[j + 3] == 's' && s[j + 4]
            == 'e' {
            Some((Json::Bool(false), j + 5))
        } else {
            None
        }
    } else if c == 'n' {
        if s.len() - j >= 4 && s[j + 1] == 'u' && s[j + 2] == 'l' && s[j + 3] == 'l' {
            Some((Json::Null, j + 4))
        } else {
            None
        }
    } else if c == '-' || ('0' <= c && c <= '9') {
        let mut lex: Vec<char> = Vec::new();
        lex.push(c);
        let mut pos = j + 1;
        proof {
            assert(lex@ =~= s@.subrange(j as int, j + 1));
        }
        while pos < s.len() && num_char_ex(s[pos])
            invariant
                j < pos <= s@.len(),
                num_end(s@, j + 1) == num_end(s@, pos as int),
                lex@ == s@.subrange(j as int, pos as int),
                forall|q: int| 0 <= q < lex@.len() ==> num_char(#[trigger] lex@[q]),
            decreases s@.len() - pos,
        {
            lex.push(s[pos]);
            proof {
                assert(s@.subrange(j as int, pos as int).push(s@[pos as int]) =~= s@.subrange(
                    j as int,
                    pos + 1,
                ));
            }
            pos = pos + 1;
        }
        if num_ok_ex(&lex) {
            proof {
                assert(num_lexeme(lex@));
            }
            Some((Json::Num(lex), pos))
        } else {
            None
        }
    } else if c == '[' {
        proof {
            assert(json_views(Seq::<Json>::empty(), 0) =~= Seq::<JsonV>::empty());
        }
        match parse_arr(s, j + 1, Vec::new()) {
            Some(p) => Some((Json::Arr(p.0), p.1)),
            None => None,
        }
    } else if c == '{' {
        proof {
            assert(field_views(Seq::<(Vec<char>, Json)>::empty(), 0) =~= Seq::<
                (Seq<char>, JsonV),
            >::empty());
        }
        match parse_obj(s, j + 1, Vec::new()) {
            Some(p) => Some((Json::Obj(p.0), p.1)),
            None => None,
        }
    } else {
        None
    }
}

/// Reads the rest of an array body expecting an element, as `read_arr`
/// describes it.
#[verifier::rlimit(100)]
fn parse_arr(s: &Vec<char>, i: usize, acc: Vec<Json>) -> (r: Option<(Vec<Json>, usize)>)
    requires
        i <= s@.len(),
        forall|q: int| 0 <= q < acc@.len() ==> json_wf(#[trigger] acc@[q]),
    ensures
        match r {
            Some(p) => read_arr(s@, i as int, json_views(acc@, 0)) == Some(
                (json_views(p.0@, 0), p.1 as int),
            ) && i < p.1 <= s@.len() && (forall|q: int|
                0 <= q < p.0@.len() ==> json_wf(#[trigger] p.0@[q])),
            None => read_arr(s@, i as int, json_views(acc@, 0)) is None,
        },
    decreases s@.len() - i, 1int,
{
    let j = skip_ws(s, i);
    if j == s.len() {
        return None;
    }
    proof {
        lemma_json_views(acc@, 0);
    }
    if acc.len() == 0 && s[j] == ']' {
        return Some((acc, j + 1));
    }
    match parse_value(s, j) {
        Some(p) => {
            let (el, k) = p;
            let ghost accv = acc@;
            let mut acc2 = acc;
            acc2.push(el);
            proof {
                lemma_json_views_snoc(accv, el);
                assert(adv_in(s@, j as int, k as int) == k as int);
            }
            parse_arr_sep(s, k, acc2)
        },
        None => None,
    }
}

/// Reads the rest of an array body expecting a comma or the closing
/// bracket, as `read_arr_sep` describes it.
fn parse_arr_sep(s: &Vec<char>, i: usize, acc: Vec<Json>) -> (r: Option<(Vec<Json>, usize)>)
    requires
        i <= s@.len(),
        forall|q: int| 0 <= q < acc@.len() ==> json_wf(#[trigger] acc@[q]),
    ensures
        match r {
            Some(p) => read_arr_sep(s@, i as int, json_views(acc@, 0)) == Some(
                (json_views(p.0@, 0), p.1 as int),
            ) && i < p.1 <= s@.len() && (forall|q: int|
                0 <= q < p.0@.len() ==> json_wf(#[trigger] p.0@[q])),
            None => read_arr_sep(s@, i as int, json_views(acc@, 0)) is None,
        },
    decreases s@.len() - i, 1int,
{
    let j = skip_ws(s, i);
    if j == s.len() {
        return None;
    }
    if s[j] == ']' {
        return Some((acc, j + 1));
    }
    if s[j] == ',' {
        parse_arr(s, j + 1, acc)
    } else {
        None
    }
}

/// Reads the rest of an object body expecting a member, as `read_obj`
/// describes it.
#[verifier::rlimit(100)]
fn parse_obj(s: &Vec<char>, i: usize, acc: Vec<(Vec<char>, Json)>) -> (r: Option<
    (Vec<(Vec<char>, Json)>, usize),
>)
    requires
        i <= s@.len(),
        forall|q: int| 0 <= q < acc@.len() ==> json_wf(#[trigger] acc@[q].1),
    ensures
        match r {
            Some(p) => read_obj(s@, i as int, field_views(acc@, 0)) == Some(
                (field_views(p.0@, 0), p.1 as int),
            ) && i < p.1 <= s@.len() && (forall|q: int|
                0 <= q < p.0@.len() ==> json_wf(#[trigger] p.0@[q].1)),
            None => read_obj(s@, i as int, field_views(acc@, 0)) is None,
        },
    decreases s@.len() - i, 1int,
{
    let j = skip_ws(s, i);
    if j == s.len() {
        return None;
    }
    proof {
        lemma_field_views(acc@, 0);
    }
    if acc.len() == 0 && s[j] == '}' {
        return Some((acc, j + 1));
    }
    if s[j] != '"' {
        return None;
    }
    match scan_string(s, j + 1) {
        Some(p) => {
            let (key, kk) = p;
            proof {
                assert(s@.subrange(kk as int, s@.len() as int).len() == s@.len() - kk);
            }
            let k = skip_ws(s, kk);
            if k == s.len() {
                return None;
            }
            if s[k] != ':' {
                return None;
            }
            proof {
                assert(adv_in(s@, j as int, k + 1) == k + 1);
            }
            match parse_value(s, k + 1) {
                Some(q) => {
                    let (val, kv) = q;
                    let pr = (key, val);
                    let ghost accv = acc@;
                    proof {
                        lemma_field_views_snoc(accv, pr);
                        assert(adv_in(s@, k + 1, kv as int) == kv as int);
                    }
                    let mut acc2 = acc;
                    acc2.push(pr);
                    parse_obj_sep(s, kv, acc2)
                },
                None => None,
            }
        },
        None => None,
    }
}

/// Reads the rest of an object body expecting a comma or the closing brace,
/// as `read_obj_sep` describes it.
fn parse_obj_sep(s: &Vec<char>, i: usize, acc: Vec<(Vec<char>, Json)>) -> (r: Option<
    (Vec<(Vec<char>, Json)>, usize),
>)
    requires
        i <= s@.len(),
        forall|q: int| 0 <= q < acc@.len() ==> json_wf(#[trigger] acc@[q].1),
    ensures
        match r {
            Some(p) => read_obj_sep(s@, i as int, field_views(acc@, 0)) == Some(
                (field_views(p.0@, 0), p.1 as int),
            ) && i < p.1 <= s@.len() && (forall|q: int|
                0 <= q < p.0@.len() ==> json_wf(#[trigger] p.0@[q].1)),
            None => read_obj_sep(s@, i as int, field_views(acc@, 0)) is None,
        },
    decreases s@.len() - i, 1int,
{
    let j = skip_ws(s, i);
    if j == s.len() {
        return None;
    }
    if s[j] == '}' {
        return Some((acc, j + 1));
    }
    if s[j] == ',' {
        parse_obj(s, j + 1, acc)
    } else {
        None
    }
}

/// Reads one line of text as a single JSON value with nothing but
/// whitespace around it, exactly as `line_json` describes it: the same
/// value, or `None` together.
pub fn parse_json(s: &Vec<char>) -> (r: Option<Json>)
    ensures
        match r {
            Some(j) => line_json(s@) == Some(json_view(j)) && json_wf(j),
            None => line_json(s@) is None,
        },
{
    match parse_value(s, 0) {
        Some(p) => {
            let (j, k) = p;
            let e = skip_ws(s, k);
            if e == s.len() {
                Some(j)
            } else {
                None
            }
        },
        None => None,
    }
}

} // verus!

