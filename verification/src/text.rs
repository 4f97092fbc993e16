//! Character-level text layer for the line-oriented JSON protocol: JSON string
//! escaping and unescaping, whitespace and control-character classification,
//! and the conversions between `String` and `Vec<char>` that the codec uses.
use vstd::prelude::*;
use vstd::string::*;
use vstd::arithmetic::div_mod::lemma_fundamental_div_mod;

verus! {

/// A control character must never appear raw in an emitted line: it would
/// either break the one-response-per-line framing (`'\n'`) or make the line
/// invalid JSON.
pub open spec fn is_ctl(c: char) -> bool {
    (c as u32) < 0x20
}

/// Insignificant whitespace around a JSON value.
pub open spec fn is_ws(c: char) -> bool {
    c == ' ' || c == '\t' || c == '\n' || c == '\r'
}

/// A text that is safe to emit inside a single protocol line.
pub open spec fn line_safe(s: Seq<char>) -> bool {
    forall|i: int| 0 <= i < s.len() ==> !is_ctl(#[trigger] s[i])
}

/// The lower-case hexadecimal digit for a value below 16.
pub open spec fn hex_char(n: int) -> char {
    if n == 0 { '0' } else if n == 1 { '1' } else if n == 2 { '2' }
    else if n == 3 { '3' } else if n == 4 { '4' } else if n == 5 { '5' }
    else if n == 6 { '6' } else if n == 7 { '7' } else if n == 8 { '8' }
    else if n == 9 { '9' } else if n == 10 { 'a' } else if n == 11 { 'b' }
    else if n == 12 { 'c' } else if n == 13 { 'd' } else if n == 14 { 'e' }
    else { 'f' }
}

/// The value of a hexadecimal digit, or -1 for any other character.
pub open spec fn hex_val(c: char) -> int {
    if '0' <= c && c <= '9' { c as u32 - '0' as u32 }
    else if 'a' <= c && c <= 'f' { c as u32 - 'a' as u32 + 10 }
    else if 'A' <= c && c <= 'F' { c as u32 - 'A' as u32 + 10 }
    else { -1 }
}

/// A code point that a lone `\u` escape may denote: on the basic plane and
/// not a surrogate half.
pub open spec fn is_plain_scalar(n: int) -> bool {
    0 <= n < 0xD800 || 0xE000 <= n <= 0xFFFF
}

/// The first half of a UTF-16 surrogate pair.
pub open spec fn is_high_surrogate(n: int) -> bool {
    0xD800 <= n < 0xDC00
}

/// The second half of a UTF-16 surrogate pair.
pub open spec fn is_low_surrogate(n: int) -> bool {
    0xDC00 <= n < 0xE000
}

/// The value of the four hexadecimal digits at `i`, when all four are
/// digits.
pub open spec fn hex4(s: Seq<char>, i: int) -> int {
    hex_val(s[i]) * 4096 + hex_val(s[i + 1]) * 256 + hex_val(s[i + 2]) * 16 + hex_val(s[i + 3])
}

/// All four characters at `i` are hexadecimal digits.
pub open spec fn hex4_ok(s: Seq<char>, i: int) -> bool {
    hex_val(s[i]) >= 0 && hex_val(s[i + 1]) >= 0 && hex_val(s[i + 2]) >= 0 && hex_val(
        s[i + 3],
    ) >= 0
}

/// The character with the given code point (meaningful only for valid scalar
/// values).
pub open spec fn char_of(n: int) -> char {
    n as u32 as char
}

/// How one character is written inside a JSON string literal.
pub open spec fn esc_char(c: char) -> Seq<char> {
    if c == '"' { seq!['\\', '"'] }
    else if c == '\\' { seq!['\\', '\\'] }
    else if c == '\n' { seq!['\\', 'n'] }
    else if c == '\r' { seq!['\\', 'r'] }
    else if c == '\t' { seq!['\\', 't'] }
    else if is_ctl(c) {
        seq!['\\', 'u', '0', '0', hex_char(c as u32 as int / 16), hex_char(c as u32 as int % 16)]
    } else {
        seq![c]
    }
}

/// A whole text written inside a JSON string literal, character by character.
pub open spec fn esc(s: Seq<char>) -> Seq<char>
    decreases s.len(),
{
    if s.len() == 0 {
        Seq::empty()
    } else {
        esc_char(s[0]) + esc(s.subrange(1, s.len() as int))
    }
}

/// Reads a JSON string literal body from the front of `s` up to its closing
/// quote: returns the decoded content and the rest of `s` after the quote,
/// or `None` when the body is unterminated or malformed.
pub open spec fn scan_str(s: Seq<char>) -> Option<(Seq<char>, Seq<char>)>
    decreases s.len(),
{
    if s.len() == 0 {
        None
    } else if s[0] == '"' {
        Some((Seq::empty(), s.subrange(1, s.len() as int)))
    } else if s[0] == '\\' {
        if s.len() < 2 {
            None
        } else if s[1] == 'u' {
            if s.len() < 6 || !hex4_ok(s, 2) {
                None
            } else {
                let n = hex4(s, 2);
                if is_plain_scalar(n) {
                    scan_cons(char_of(n), scan_str(s.subrange(6, s.len() as int)))
                } else if is_high_surrogate(n) {
                    if s.len() < 12 || s[6] != '\\' || s[7] != 'u' || !hex4_ok(s, 8) {
                        None
                    } else {
                        let m = hex4(s, 8);
                        if is_low_surrogate(m) {
                            scan_cons(
                                char_of(0x10000 + (n - 0xD800) * 0x400 + (m - 0xDC00)),
                                scan_str(s.subrange(12, s.len() as int)),
                            )
                        } else {
                            None
                        }
                    }
                } else {
                    None
                }
            }
        } else {
            let d = if s[1] == '"' { Some('"') } else if s[1] == '\\' { Some('\\') }
                else if s[1] == '/' { Some('/') } else if s[1] == 'n' { Some('\n') }
                else if s[1] == 'r' { Some('\r') } else if s[1] == 't' { Some('\t') }
                else if s[1] == 'b' { Some('\u{8}') } else if s[1] == 'f' { Some('\u{c}') }
                else { None };
            match d {
                Some(c) => scan_cons(c, scan_str(s.subrange(2, s.len() as int))),
                None => None,
            }
        }
    } else if is_ctl(s[0]) {
        None
    } else {
        scan_cons(s[0], scan_str(s.subrange(1, s.len() as int)))
    }
}

/// Prepends one decoded character to the content of a successful scan.
pub open spec fn scan_cons(c: char, r: Option<(Seq<char>, Seq<char>)>) -> Option<
    (Seq<char>, Seq<char>),
> {
    match r {
        Some(p) => Some((seq![c] + p.0, p.1)),
        None => None,
    }
}

/// Escaping one more character on the right extends the escaped text on the
/// right.
pub proof fn lemma_esc_snoc(s: Seq<char>, c: char)
    ensures
        esc(s.push(c)) == esc(s) + esc_char(c),
    decreases s.len(),
{
    if s.len() == 0 {
        assert(s.push(c)[0] == c);
        assert(s.push(c).subrange(1, 1) =~= Seq::<char>::empty());
        assert(esc(Seq::<char>::empty()) =~= Seq::<char>::empty());
        assert(esc(s.push(c)) =~= esc_char(c));
        assert(esc(s) + esc_char(c) =~= esc_char(c));
    } else {
        assert(s.push(c).subrange(1, s.len() as int + 1) =~= s.subrange(1, s.len() as int).push(c));
        lemma_esc_snoc(s.subrange(1, s.len() as int), c);
        assert(esc(s.push(c)) =~= esc(s) + esc_char(c));
    }
}

/// No character of an escaped text is a control character.
pub proof fn lemma_esc_safe(s: Seq<char>)
    ensures
        line_safe(esc(s)),
    decreases s.len(),
{
    if s.len() > 0 {
        lemma_esc_safe(s.subrange(1, s.len() as int));
        assert forall|i: int| 0 <= i < esc(s).len() implies !is_ctl(esc(s)[i]) by {
            let e = esc_char(s[0]);
            if i < e.len() {
                assert(esc(s)[i] == e[i]);
            } else {
                assert(esc(s)[i] == esc(s.subrange(1, s.len() as int))[i - e.len()]);
            }
        }
    }
}

/// Line safety is preserved by concatenation.
pub broadcast proof fn lemma_concat_safe(a: Seq<char>, b: Seq<char>)
    ensures
        (line_safe(a) && line_safe(b)) ==> #[trigger] line_safe(a + b),
{
    if line_safe(a) && line_safe(b) {
        assert forall|i: int| 0 <= i < (a + b).len() implies !is_ctl((a + b)[i]) by {
            if i < a.len() {
                assert((a + b)[i] == a[i]);
            } else {
                assert((a + b)[i] == b[i - a.len()]);
            }
        }
    }
}

/// Relies on `String`'s `FromIterator<char>` implementation: collecting
/// characters yields a string holding exactly those characters in order.
#[verifier::external_body]
pub fn chars_to_string(v: &Vec<char>) -> (r: String)
    ensures
        r@ == v@,
{
    v.iter().collect()
}

/// Relies on `char::from_u32`: it returns the character with the given code
/// point exactly when that value is a valid scalar value (below the surrogate
/// range or between it and the maximum code point).
#[verifier::external_body]
pub fn char_from_code(n: u32) -> (r: Option<char>)
    ensures
        r is Some <==> (n < 0xD800 || (0xE000 <= n && n < 0x110000)),
        r matches Some(c) ==> c as u32 == n,
{
    char::from_u32(n)
}

/// The characters of a string slice, in order, as a vector.
pub fn str_to_chars(s: &str) -> (v: Vec<char>)
    ensures
        v@ == s@,
{
    let n = s.unicode_len();
    let mut v: Vec<char> = Vec::new();
    let mut i: usize = 0;
    while i < n
        invariant
            n == s@.len(),
            i <= n,
            v@ == s@.subrange(0, i as int),
        decreases n - i,
    {
        let c = s.get_char(i);
        v.push(c);
        proof {
            assert(s@.subrange(0, i as int).push(s@[i as int]) =~= s@.subrange(0, i + 1));
        }
        i = i + 1;
    }
    proof {
        assert(s@.subrange(0, n as int) =~= s@);
    }
    v
}

/// The lower-case hexadecimal digit for a value below 16.
pub fn hex_char_ex(n: u8) -> (r: char)
    requires
        n < 16,
    ensures
        r == hex_char(n as int),
{
    if n == 0 { '0' } else if n == 1 { '1' } else if n == 2 { '2' }
    else if n == 3 { '3' } else if n == 4 { '4' } else if n == 5 { '5' }
    else if n == 6 { '6' } else if n == 7 { '7' } else if n == 8 { '8' }
    else if n == 9 { '9' } else if n == 10 { 'a' } else if n == 11 { 'b' }
    else if n == 12 { 'c' } else if n == 13 { 'd' } else if n == 14 { 'e' }
    else { 'f' }
}

/// The value of a hexadecimal digit, or -1 for any other character.
pub fn hex_val_ex(c: char) -> (r: i32)
    ensures
        r as int == hex_val(c),
        -1 <= r < 16,
{
    if '0' <= c && c <= '9' {
        (c as u32 - '0' as u32) as i32
    } else if 'a' <= c && c <= 'f' {
        (c as u32 - 'a' as u32 + 10) as i32
    } else if 'A' <= c && c <= 'F' {
        (c as u32 - 'A' as u32 + 10) as i32
    } else {
        -1
    }
}

/// Appends the escaped form of `s` to `out`, character by character.
pub fn escape_into(s: &Vec<char>, out: &mut Vec<char>)
    ensures
        final(out)@ == old(out)@ + esc(s@),
{
    let mut i: usize = 0;
    proof {
        assert(s@.subrange(0, 0) =~= Seq::<char>::empty());
        assert(out@ =~= out@ + esc(s@.subrange(0, 0)));
    }
    while i < s.len()
        invariant
            i <= s@.len(),
            out@ == old(out)@ + esc(s@.subrange(0, i as int)),
        decreases s@.len() - i,
    {
        let c = s[i];
        if c == '"' {
            out.push('\\');
            out.push('"');
        } else if c == '\\' {
            out.push('\\');
            out.push('\\');
        } else if c == '\n' {
            out.push('\\');
            out.push('n');
        } else if c == '\r' {
            out.push('\\');
            out.push('r');
        } else if c == '\t' {
            out.push('\\');
            out.push('t');
        } else if (c as u32) < 0x20 {
            out.push('\\');
            out.push('u');
            out.push('0');
            out.push('0');
            out.push(hex_char_ex(((c as u32) / 16) as u8));
            out.push(hex_char_ex(((c as u32) % 16) as u8));
        } else {
            out.push(c);
        }
        proof {
            lemma_esc_snoc(s@.subrange(0, i as int), s@[i as int]);
            assert(s@.subrange(0, i as int).push(s@[i as int]) =~= s@.subrange(0, i + 1));
            assert(out@ =~= old(out)@ + esc(s@.subrange(0, i + 1)));
        }
        i = i + 1;
    }
    proof {
        assert(s@.subrange(0, s@.len() as int) =~= s@);
    }
}

/// `char_of` maps a character's own code point back to that character.
pub proof fn lemma_char_of(c: char)
    ensures
        char_of(c as u32 as int) == c,
{
}

/// Reads the four hexadecimal digits at `i`, as `hex4` has them.
fn hex4_ex(s: &Vec<char>, i: usize) -> (r: Option<u32>)
    requires
        i + 4 <= s@.len(),
    ensures
        r is Some <==> hex4_ok(s@, i as int),
        r matches Some(n) ==> n == hex4(s@, i as int) && n < 0x10000,
{
    let n = s.len();
    proof {
        assert(n as int == s@.len());
    }
    let h0 = hex_val_ex(s[i]);
    let h1 = hex_val_ex(s[i + 1]);
    let h2 = hex_val_ex(s[i + 2]);
    let h3 = hex_val_ex(s[i + 3]);
    if h0 < 0 || h1 < 0 || h2 < 0 || h3 < 0 {
        None
    } else {
        Some((h0 * 4096 + h1 * 256 + h2 * 16 + h3) as u32)
    }
}

/// Reads one escape sequence beginning at `i`, where a backslash stands:
/// the character it denotes and the index just past it, or `None` when the
/// escape is malformed (an unknown letter, bad hexadecimal digits, or a
/// surrogate half without its partner).
#[verifier::rlimit(100)]
fn scan_escape(s: &Vec<char>, i: usize) -> (r: Option<(char, usize)>)
    requires
        i < s@.len(),
        s@[i as int] == '\\',
    ensures
        match r {
            Some(p) => i + 2 <= p.1 <= s@.len() && scan_str(
                s@.subrange(i as int, s@.len() as int),
            ) == scan_cons(p.0, scan_str(s@.subrange(p.1 as int, s@.len() as int))),
            None => scan_str(s@.subrange(i as int, s@.len() as int)) is None,
        },
{
    let ghost here = s@.subrange(i as int, s@.len() as int);
    proof {
        assert(here[0] == s@[i as int]);
    }
    if s.len() - i < 2 {
        return None;
    }
    let c2 = s[i + 1];
    proof {
        assert(here[1] == c2);
    }
    if c2 == 'u' {
        if s.len() - i < 6 {
            return None;
        }
        proof {
            assert(here[2] == s@[i + 2] && here[3] == s@[i + 3] && here[4] == s@[i + 4]
                && here[5] == s@[i + 5]);
        }
        let n: u32 = match hex4_ex(s, i + 2) {
            Some(n) => n,
            None => {
                return None;
            },
        };
        if n < 0xD800 || n >= 0xE000 {
            match char_from_code(n) {
                Some(c3) => {
                    proof {
                        assert(c3 as u32 == n);
                        lemma_char_of(c3);
                        assert(char_of(n as int) == c3);
                        assert(here.subrange(6, here.len() as int) =~= s@.subrange(
                            i + 6,
                            s@.len() as int,
                        ));
                    }
                    Some((c3, i + 6))
                },
                None => {
                    proof {
                        assert(false);
                    }
                    None
                },
            }
        } else if n >= 0xDC00 {
            None
        } else {
            if s.len() - i < 12 {
                return None;
            }
            proof {
                assert(here[6] == s@[i + 6] && here[7] == s@[i + 7]);
                assert(here[8] == s@[i + 8] && here[9] == s@[i + 9] && here[10] == s@[i + 10]
                    && here[11] == s@[i + 11]);
            }
            if !(s[i + 6] == '\\' && s[i + 7] == 'u') {
                return None;
            }
            let m: u32 = match hex4_ex(s, i + 8) {
                Some(m) => m,
                None => {
                    return None;
                },
            };
            if !(0xDC00 <= m && m < 0xE000) {
                return None;
            }
            let code: u32 = 0x10000 + (n - 0xD800) * 0x400 + (m - 0xDC00);
            match char_from_code(code) {
                Some(c3) => {
                    proof {
                        assert(c3 as u32 == code);
                        lemma_char_of(c3);
                        assert(char_of(code as int) == c3);
                        assert(here.subrange(12, here.len() as int) =~= s@.subrange(
                            i + 12,
                            s@.len() as int,
                        ));
                    }
                    Some((c3, i + 12))
                },
                None => {
                    proof {
                        assert(false);
                    }
                    None
                },
            }
        }
    } else {
        let d: Option<char> = if c2 == '"' { Some('"') } else if c2 == '\\' {
            Some('\\')
        } else if c2 == '/' { Some('/') } else if c2 == 'n' { Some('\n') } else if c2 == 'r' {
            Some('\r')
        } else if c2 == 't' { Some('\t') } else if c2 == 'b' { Some('\u{8}') } else if c2
            == 'f' { Some('\u{c}') } else { None };
        match d {
            Some(c3) => {
                proof {
                    assert(here.subrange(2, here.len() as int) =~= s@.subrange(
                        i + 2,
                        s@.len() as int,
                    ));
                }
                Some((c3, i + 2))
            },
            None => None,
        }
    }
}

/// Reads a JSON string literal body starting at `from` (just past the opening
/// quote): returns the decoded content and the index just past the closing
/// quote, or `None` when the literal is unterminated or malformed.
#[verifier::rlimit(100)]
pub fn scan_string(s: &Vec<char>, from: usize) -> (r: Option<(Vec<char>, usize)>)
    requires
        from <= s@.len(),
    ensures
        match r {
            Some(p) => from < p.1 <= s@.len() && scan_str(
                s@.subrange(from as int, s@.len() as int),
            ) == Some((p.0@, s@.subrange(p.1 as int, s@.len() as int))),
            None => scan_str(s@.subrange(from as int, s@.len() as int)) is None,
        },
{
    let ghost whole = s@.subrange(from as int, s@.len() as int);
    let mut acc: Vec<char> = Vec::new();
    let mut i: usize = from;
    while i < s.len()
        invariant
            from <= i <= s@.len(),
            whole == s@.subrange(from as int, s@.len() as int),
            match scan_str(s@.subrange(i as int, s@.len() as int)) {
                Some(p) => scan_str(whole) == Some((acc@ + p.0, p.1)),
                None => scan_str(whole) is None,
            },
        decreases s@.len() - i,
    {
        let ghost here = s@.subrange(i as int, s@.len() as int);
        let c = s[i];
        assert(here[0] == c);
        if c == '"' {
            proof {
                assert(here.subrange(1, here.len() as int) =~= s@.subrange(
                    i + 1,
                    s@.len() as int,
                ));
                assert(acc@ + Seq::<char>::empty() =~= acc@);
            }
            return Some((acc, i + 1));
        } else if c == '\\' {
            match scan_escape(s, i) {
                Some(p) => {
                    let (c3, k) = p;
                    acc.push(c3);
                    proof {
                        let next = s@.subrange(k as int, s@.len() as int);
                        if scan_str(next) is Some {
                            let q = scan_str(next)->0;
                            assert(acc@ + q.0 =~= acc@.drop_last() + (seq![c3] + q.0));
                        }
                    }
                    i = k;
                },
                None => {
                    return None;
                },
            }
        } else if (c as u32) < 0x20 {
            return None;
        } else {
            proof {
                assert(here.subrange(1, here.len() as int) =~= s@.subrange(
                    i + 1,
                    s@.len() as int,
                ));
            }
            acc.push(c);
            proof {
                let next = s@.subrange(i + 1, s@.len() as int);
                if scan_str(next) is Some {
                    let p = scan_str(next)->0;
                    assert(acc@ + p.0 =~= acc@.drop_last() + (seq![c] + p.0));
                }
            }
            i = i + 1;
        }
    }
    proof {
        assert(s@.subrange(i as int, s@.len() as int).len() == 0);
    }
    None
}
/// Every hexadecimal digit written by `hex_char` reads back as its value.
pub proof fn lemma_hex_round(k: int)
    requires
        0 <= k < 16,
    ensures
        hex_val(hex_char(k)) == k,
{
}

/// The codec's round-trip law for string content: whatever text is escaped
/// into a JSON string literal is read back from it exactly, including
/// embedded quotes, backslashes, control characters and multi-line text.
#[verifier::rlimit(100)]
pub proof fn lemma_escape_round_trip(s: Seq<char>, tail: Seq<char>)
    ensures
        scan_str(esc(s) + seq!['"'] + tail) == Some((s, tail)),
    decreases s.len(),
{
    let w = esc(s) + seq!['"'] + tail;
    if s.len() == 0 {
        assert(w =~= seq!['"'] + tail);
        assert(w[0] == '"');
        assert(w.subrange(1, w.len() as int) =~= tail);
        assert(s =~= Seq::<char>::empty());
    } else {
        let c = s[0];
        let s1 = s.subrange(1, s.len() as int);
        lemma_escape_round_trip(s1, tail);
        let w1 = esc(s1) + seq!['"'] + tail;
        assert(w =~= esc_char(c) + w1);
        assert(seq![c] + s1 =~= s);
        if c == '"' || c == '\\' || c == '\n' || c == '\r' || c == '\t' {
            assert(w[0] == '\\' && w[1] == esc_char(c)[1]);
            assert(w.subrange(2, w.len() as int) =~= w1);
        } else if is_ctl(c) {
            let cu = c as u32 as int;
            lemma_fundamental_div_mod(cu, 16);
            lemma_hex_round(cu / 16);
            lemma_hex_round(cu % 16);
            lemma_hex_round(0);
            assert(w[0] == '\\' && w[1] == 'u' && w[2] == '0' && w[3] == '0' && w[4]
                == hex_char(cu / 16) && w[5] == hex_char(cu % 16));
            let n = hex_val(w[2]) * 4096 + hex_val(w[3]) * 256 + hex_val(w[4]) * 16 + hex_val(
                w[5],
            );
            assert(n == cu);
            assert(is_plain_scalar(n));
            lemma_char_of(c);
            assert(char_of(n) == c);
            assert(w.subrange(6, w.len() as int) =~= w1);
        } else {
            assert(w[0] == c);
            assert(w.subrange(1, w.len() as int) =~= w1);
        }
    }
}

} // verus!
