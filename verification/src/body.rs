//! The error-response body: the one wire artifact every error response
//! shares.  Serialized as JSON with camelCase field names, in the fixed
//! shape `{"statusCode":u16,"errorCode":u32|null,"message":string}`, with
//! `serde_json`-compatible string escaping.  The codec here is exact: the
//! emitted text parses back to the same body.

use vstd::prelude::*;
use vstd::string::{StrSliceExecFns, StringExecFns};

use crate::text::{
    append_dec, dec_digits, dec_value, digit_value, hex_digit, hex_value, is_digit_char,
    exec_hex_value, exec_is_digit, exec_is_hex, is_hex_char, lemma_dec_digits_shape, lemma_dec_value_of_digits, lemma_hex_digit_value,
    push_char, push_hex_digit,
};

verus! {

/// The JSON body of an error response.
#[derive(Debug, PartialEq, Eq)]
pub struct ErrorResponseBody {
    /// The HTTP status code, repeated in the body.
    pub status_code: u16,
    /// The application-specific error code; `None` when the framework
    /// itself produced the error response.
    pub error_code: Option<u32>,
    /// The human-readable error message.
    pub message: String,
}

/// Mathematical image of an [`ErrorResponseBody`].
pub ghost struct SpecErrorResponseBody {
    pub status_code: u16,
    pub error_code: Option<u32>,
    pub message: Seq<char>,
}

impl View for ErrorResponseBody {
    type V = SpecErrorResponseBody;

    open spec fn view(&self) -> SpecErrorResponseBody {
        SpecErrorResponseBody {
            status_code: self.status_code,
            error_code: self.error_code,
            message: self.message@,
        }
    }
}

impl ErrorResponseBody {
    /// Builds a body from its three fields.
    pub fn new(status_code: u16, error_code: Option<u32>, message: String) -> (r: Self)
        ensures
            r@ == (SpecErrorResponseBody { status_code, error_code, message: message@ }),
    {
        Self { status_code, error_code, message }
    }
}

// ---------------------------------------------------------------------------
// String escaping
// ---------------------------------------------------------------------------

/// How one message character appears inside the JSON string: quote and
/// backslash escaped, the short escapes for the usual control characters,
/// `\u00XX` for the other control characters, everything else verbatim.
pub open spec fn spec_escape_char(c: char) -> Seq<char> {
    if c == '"' {
        seq!['\\', '"']
    } else if c == '\\' {
        seq!['\\', '\\']
    } else if c == '\u{8}' {
        seq!['\\', 'b']
    } else if c == '\t' {
        seq!['\\', 't']
    } else if c == '\n' {
        seq!['\\', 'n']
    } else if c == '\u{c}' {
        seq!['\\', 'f']
    } else if c == '\r' {
        seq!['\\', 'r']
    } else if (c as u32) < 0x20 {
        seq!['\\', 'u', '0', '0', hex_digit((c as u32 / 16) as nat), hex_digit(
            (c as u32 % 16) as nat,
        )]
    } else {
        seq![c]
    }
}

/// The escaped form of a whole message.
pub open spec fn spec_escape(s: Seq<char>) -> Seq<char>
    decreases s.len(),
{
    if s.len() == 0 {
        Seq::empty()
    } else {
        spec_escape_char(s.first()) + spec_escape(s.drop_first())
    }
}

/// Escaping a message one character longer appends that character's escape.
pub proof fn lemma_escape_snoc(s: Seq<char>, c: char)
    ensures
        spec_escape(s.push(c)) == spec_escape(s) + spec_escape_char(c),
    decreases s.len(),
{
    assert(s.push(c).len() > 0);
    assert(spec_escape(s.push(c)) == spec_escape_char(s.push(c).first()) + spec_escape(
        s.push(c).drop_first(),
    ));
    if s.len() == 0 {
        assert(s.push(c).first() == c);
        assert(s.push(c).drop_first() =~= Seq::<char>::empty());
        assert(spec_escape(s) + spec_escape_char(c) =~= spec_escape_char(c));
        assert(spec_escape_char(c) + Seq::<char>::empty() =~= spec_escape_char(c));
    } else {
        lemma_escape_snoc(s.drop_first(), c);
        assert(s.push(c).first() == s.first());
        assert(s.push(c).drop_first() =~= s.drop_first().push(c));
        assert(spec_escape_char(s.first()) + (spec_escape(s.drop_first()) + spec_escape_char(c))
            =~= (spec_escape_char(s.first()) + spec_escape(s.drop_first())) + spec_escape_char(c));
    }
}

/// Appends the escaped form of `s`.
pub fn append_escaped(out: &mut String, s: &str)
    ensures
        final(out)@ == old(out)@ + spec_escape(s@),
{
    let ghost base = out@;
    let n = s.unicode_len();
    let mut i: usize = 0;
    proof {
        assert(spec_escape(s@.take(0)) =~= Seq::<char>::empty());
        assert(base + spec_escape(s@.take(0)) =~= base);
    }
    while i < n
        invariant
            i <= n,
            n == s@.len(),
            out@ == base + spec_escape(s@.take(i as int)),
        decreases n - i,
    {
        let c = s.get_char(i);
        let ghost before = out@;
        if c == '"' {
            out.append("\\\"");
            assert(out@ =~= before + spec_escape_char(c)) by {
                reveal_strlit("\\\"");
            }
        } else if c == '\\' {
            out.append("\\\\");
            assert(out@ =~= before + spec_escape_char(c)) by {
                reveal_strlit("\\\\");
            }
        } else if c == '\u{8}' {
            out.append("\\b");
            assert(out@ =~= before + spec_escape_char(c)) by {
                reveal_strlit("\\b");
            }
        } else if c == '\t' {
            out.append("\\t");
            assert(out@ =~= before + spec_escape_char(c)) by {
                reveal_strlit("\\t");
            }
        } else if c == '\n' {
            out.append("\\n");
            assert(out@ =~= before + spec_escape_char(c)) by {
                reveal_strlit("\\n");
            }
        } else if c == '\u{c}' {
            out.append("\\f");
            assert(out@ =~= before + spec_escape_char(c)) by {
                reveal_strlit("\\f");
            }
        } else if c == '\r' {
            out.append("\\r");
            assert(out@ =~= before + spec_escape_char(c)) by {
                reveal_strlit("\\r");
            }
        } else if (c as u32) < 0x20 {
            let u = c as u32;
            out.append("\\u00");
            push_hex_digit(out, u / 16);
            push_hex_digit(out, u % 16);
            assert(out@ =~= before + spec_escape_char(c)) by {
                reveal_strlit("\\u00");
            }
        } else {
            push_char(out, c);
            assert(out@ =~= before + spec_escape_char(c));
        }
        proof {
            lemma_escape_snoc(s@.take(i as int), c);
            assert(s@.take(i as int + 1) =~= s@.take(i as int).push(c));
            assert(out@ =~= base + spec_escape(s@.take(i as int + 1)));
        }
        i = i + 1;
    }
    proof {
        assert(s@.take(n as int) =~= s@);
    }
}

// ---------------------------------------------------------------------------
// Serialization
// ---------------------------------------------------------------------------

/// The canonical JSON text of a body.
pub open spec fn spec_body_json(b: SpecErrorResponseBody) -> Seq<char> {
    "{\"statusCode\":"@ + dec_digits(b.status_code as nat) + ",\"errorCode\":"@ + (match b
        .error_code {
        Some(c) => dec_digits(c as nat),
        None => "null"@,
    }) + ",\"message\":\""@ + spec_escape(b.message) + "\"}"@
}

impl ErrorResponseBody {
    /// Serializes the body to its canonical JSON text.
    pub fn to_json(&self) -> (r: String)
        ensures
            r@ == spec_body_json(self@),
    {
        let mut out = String::new();
        out.append("{\"statusCode\":");
        append_dec(&mut out, self.status_code as u64);
        out.append(",\"errorCode\":");
        match &self.error_code {
            Some(c) => append_dec(&mut out, *c as u64),
            None => out.append("null"),
        }
        out.append(",\"message\":\"");
        append_escaped(&mut out, self.message.as_str());
        out.append("\"}");
        proof {
            assert(out@ =~= spec_body_json(self@));
        }
        out
    }
}

// ---------------------------------------------------------------------------
// Parsing
// ---------------------------------------------------------------------------

/// The literal `lit` stands at position `i` of `s`.
pub open spec fn match_lit(s: Seq<char>, i: int, lit: Seq<char>) -> bool {
    0 <= i && i + lit.len() <= s.len() && s.subrange(i, i + lit.len()) == lit
}

/// First position at or after `i` that does not hold a decimal digit.
pub open spec fn digits_end(s: Seq<char>, i: int) -> int
    decreases s.len() - i,
        when 0 <= i <= s.len()
{
    if i >= s.len() {
        i
    } else if is_digit_char(s[i]) {
        digits_end(s, i + 1)
    } else {
        i
    }
}

/// `digits_end` stops exactly at the end of a digit run.
pub proof fn lemma_digits_end_at(s: Seq<char>, i: int, e: int)
    requires
        0 <= i <= e <= s.len(),
        forall|t: int| i <= t < e ==> is_digit_char(#[trigger] s[t]),
        e == s.len() || !is_digit_char(s[e]),
    ensures
        digits_end(s, i) == e,
    decreases e - i,
{
    if i < e {
        lemma_digits_end_at(s, i + 1, e);
    }
}

/// A decimal number at position `i`: the maximal digit run, which must be
/// non-empty and fit in `u16`.
pub open spec fn spec_parse_u16(s: Seq<char>, i: int) -> Option<(u16, int)>
    recommends
        0 <= i <= s.len(),
{
    let e = digits_end(s, i);
    if e <= i || dec_value(s.subrange(i, e)) > u16::MAX {
        None
    } else {
        Some((dec_value(s.subrange(i, e)) as u16, e))
    }
}

/// A decimal number at position `i`: the maximal digit run, which must be
/// non-empty and fit in `u32`.
pub open spec fn spec_parse_u32(s: Seq<char>, i: int) -> Option<(u32, int)>
    recommends
        0 <= i <= s.len(),
{
    let e = digits_end(s, i);
    if e <= i || dec_value(s.subrange(i, e)) > u32::MAX {
        None
    } else {
        Some((dec_value(s.subrange(i, e)) as u32, e))
    }
}

/// The `errorCode` value: `null`, or a `u32` number.
pub open spec fn spec_parse_opt_u32(s: Seq<char>, i: int) -> Option<(Option<u32>, int)>
    recommends
        0 <= i <= s.len(),
{
    if match_lit(s, i, "null"@) {
        Some((None, i + "null"@.len()))
    } else {
        match spec_parse_u32(s, i) {
            None => None,
            Some((c, j)) => Some((Some(c), j)),
        }
    }
}

/// The content of a JSON string from position `i` to its closing quote,
/// decoding the escapes the emitter writes; yields the content and the
/// position after the closing quote.
pub open spec fn spec_parse_jstring(s: Seq<char>, i: int) -> Option<(Seq<char>, int)>
    decreases s.len() - i,
        when 0 <= i <= s.len()
{
    if i >= s.len() {
        None
    } else {
        let c = s[i];
        if c == '"' {
            Some((Seq::empty(), i + 1))
        } else if c == '\\' {
            if i + 2 > s.len() {
                None
            } else {
                let e = s[i + 1];
                if e == '"' || e == '\\' || e == 'b' || e == 't' || e == 'n' || e == 'f' || e
                    == 'r' {
                    let decoded = if e == '"' {
                        '"'
                    } else if e == '\\' {
                        '\\'
                    } else if e == 'b' {
                        '\u{8}'
                    } else if e == 't' {
                        '\t'
                    } else if e == 'n' {
                        '\n'
                    } else if e == 'f' {
                        '\u{c}'
                    } else {
                        '\r'
                    };
                    match spec_parse_jstring(s, i + 2) {
                        None => None,
                        Some((rest, j)) => Some((seq![decoded] + rest, j)),
                    }
                } else if e == 'u' {
                    if i + 6 > s.len() {
                        None
                    } else if s[i + 2] == '0' && s[i + 3] == '0' && is_hex_char(s[i + 4])
                        && is_hex_char(s[i + 5]) {
                        let v = hex_value(s[i + 4]) * 16 + hex_value(s[i + 5]);
                        match spec_parse_jstring(s, i + 6) {
                            None => None,
                            Some((rest, j)) => Some((seq![v as char] + rest, j)),
                        }
                    } else {
                        None
                    }
                } else {
                    None
                }
            }
        } else {
            match spec_parse_jstring(s, i + 1) {
                None => None,
                Some((rest, j)) => Some((seq![c] + rest, j)),
            }
        }
    }
}

/// The inverse of [`spec_body_json`]: accepts exactly the canonical
/// serialization of a body and recovers its three fields.
pub open spec fn spec_parse_body_json(s: Seq<char>) -> Option<SpecErrorResponseBody> {
    if !match_lit(s, 0, "{\"statusCode\":"@) {
        None
    } else {
        let i1 = "{\"statusCode\":"@.len() as int;
        match spec_parse_u16(s, i1) {
            None => None,
            Some((sc, j1)) => {
                if !match_lit(s, j1, ",\"errorCode\":"@) {
                    None
                } else {
                    let i2 = j1 + ",\"errorCode\":"@.len();
                    match spec_parse_opt_u32(s, i2) {
                        None => None,
                        Some((ec, j2)) => {
                            if !match_lit(s, j2, ",\"message\":\""@) {
                                None
                            } else {
                                let i3 = j2 + ",\"message\":\""@.len();
                                match spec_parse_jstring(s, i3) {
                                    None => None,
                                    Some((msg, j3)) => {
                                        if j3 + 1 == s.len() && s[j3] == '}' {
                                            Some(
                                                SpecErrorResponseBody {
                                                    status_code: sc,
                                                    error_code: ec,
                                                    message: msg,
                                                },
                                            )
                                        } else {
                                            None
                                        }
                                    },
                                }
                            }
                        },
                    }
                }
            },
        }
    }
}

/// Every character of the maximal digit run is a digit.
pub proof fn lemma_digits_end_range(s: Seq<char>, i: int)
    requires
        0 <= i <= s.len(),
    ensures
        i <= digits_end(s, i) <= s.len(),
        forall|t: int| i <= t < digits_end(s, i) ==> is_digit_char(#[trigger] s[t]),
    decreases s.len() - i,
{
    if i < s.len() && is_digit_char(s[i]) {
        lemma_digits_end_range(s, i + 1);
    }
}

/// Matches the literal `lit` at position `i`.
fn expect_lit(s: &str, i: usize, lit: &str) -> (r: Option<usize>)
    requires
        i <= s@.len(),
    ensures
        match r {
            Some(j) => match_lit(s@, i as int, lit@) && j == i + lit@.len() && j <= s@.len(),
            None => !match_lit(s@, i as int, lit@),
        },
{
    let n = s.unicode_len();
    let ll = lit.unicode_len();
    if ll > n - i {
        return None;
    }
    let mut k: usize = 0;
    while k < ll
        invariant
            k <= ll,
            i + ll <= n,
            n == s@.len(),
            ll == lit@.len(),
            forall|t: int| 0 <= t < k ==> s@[i + t] == lit@[t],
        decreases ll - k,
    {
        if s.get_char(i + k) != lit.get_char(k) {
            proof {
                if match_lit(s@, i as int, lit@) {
                    assert(s@.subrange(i as int, i + lit@.len())[k as int] == lit@[k as int]);
                }
            }
            return None;
        }
        k = k + 1;
    }
    proof {
        assert(s@.subrange(i as int, i + lit@.len()) =~= lit@);
    }
    Some(i + ll)
}

fn exec_digits_end(s: &str, i: usize) -> (j: usize)
    requires
        i <= s@.len(),
    ensures
        j == digits_end(s@, i as int),
        i <= j <= s@.len(),
    decreases s@.len() - i,
{
    let n = s.unicode_len();
    if i >= n {
        i
    } else if exec_is_digit(s.get_char(i)) {
        exec_digits_end(s, i + 1)
    } else {
        i
    }
}

/// Reads the maximal digit run at `i` as a `u16`.
fn parse_u16_at(s: &str, i: usize) -> (r: Option<(u16, usize)>)
    requires
        i <= s@.len(),
    ensures
        spec_parse_u16(s@, i as int) == (match r {
            Some((v, j)) => Some((v, j as int)),
            None => None::<(u16, int)>,
        }),
        match r {
            Some((v, j)) => i <= j <= s@.len(),
            None => true,
        },
{
    let e = exec_digits_end(s, i);
    if e <= i {
        return None;
    }
    let ghost run = s@.subrange(i as int, e as int);
    proof {
        lemma_digits_end_range(s@, i as int);
        assert(run.take(0) =~= Seq::<char>::empty());
    }
    let mut acc: u64 = 0;
    let mut k: usize = i;
    while k < e
        invariant
            i <= k <= e <= s@.len(),
            e == digits_end(s@, i as int),
            run == s@.subrange(i as int, e as int),
            run.len() == e - i,
            forall|t: int| i <= t < e ==> is_digit_char(#[trigger] s@[t]),
            acc == dec_value(run.take(k - i)),
            acc <= u16::MAX,
        decreases e - k,
    {
        let c = s.get_char(k);
        proof {
            assert(run[k - i] == s@[k as int]);
            assert(run.take(k - i + 1).drop_last() =~= run.take(k - i));
            assert(run.take(k - i + 1).last() == run[k - i]);
        }
        let d: u64 = ((c as u32) - ('0' as u32)) as u64;
        proof {
            assert(d == digit_value(run[k - i]));
            assert(d <= 9);
        }
        if acc * 10 + d > 65535 {
            proof {
                assert(dec_value(run.take(k - i + 1)) > u16::MAX);
                crate::text::lemma_dec_value_prefix(run, k - i + 1);
                assert(dec_value(run) > u16::MAX);
            }
            return None;
        }
        acc = acc * 10 + d;
        k = k + 1;
    }
    proof {
        assert(run.take((e - i) as int) =~= run);
    }
    Some((acc as u16, e))
}

/// Reads the maximal digit run at `i` as a `u32`.
fn parse_u32_at(s: &str, i: usize) -> (r: Option<(u32, usize)>)
    requires
        i <= s@.len(),
    ensures
        spec_parse_u32(s@, i as int) == (match r {
            Some((v, j)) => Some((v, j as int)),
            None => None::<(u32, int)>,
        }),
        match r {
            Some((v, j)) => i <= j <= s@.len(),
            None => true,
        },
{
    let e = exec_digits_end(s, i);
    if e <= i {
        return None;
    }
    let ghost run = s@.subrange(i as int, e as int);
    proof {
        lemma_digits_end_range(s@, i as int);
        assert(run.take(0) =~= Seq::<char>::empty());
    }
    let mut acc: u64 = 0;
    let mut k: usize = i;
    while k < e
        invariant
            i <= k <= e <= s@.len(),
            e == digits_end(s@, i as int),
            run == s@.subrange(i as int, e as int),
            run.len() == e - i,
            forall|t: int| i <= t < e ==> is_digit_char(#[trigger] s@[t]),
            acc == dec_value(run.take(k - i)),
            acc <= u32::MAX,
        decreases e - k,
    {
        let c = s.get_char(k);
        proof {
            assert(run[k - i] == s@[k as int]);
            assert(run.take(k - i + 1).drop_last() =~= run.take(k - i));
            assert(run.take(k - i + 1).last() == run[k - i]);
        }
        let d: u64 = ((c as u32) - ('0' as u32)) as u64;
        proof {
            assert(d == digit_value(run[k - i]));
            assert(d <= 9);
        }
        if acc * 10 + d > 4294967295 {
            proof {
                assert(dec_value(run.take(k - i + 1)) > u32::MAX);
                crate::text::lemma_dec_value_prefix(run, k - i + 1);
                assert(dec_value(run) > u32::MAX);
            }
            return None;
        }
        acc = acc * 10 + d;
        k = k + 1;
    }
    proof {
        assert(run.take((e - i) as int) =~= run);
    }
    Some((acc as u32, e))
}

/// Reads a JSON string's content from `i` to its closing quote.
fn parse_jstring_at(s: &str, i: usize) -> (r: Option<(String, usize)>)
    requires
        i <= s@.len(),
    ensures
        match r {
            Some((msg, j)) => spec_parse_jstring(s@, i as int) == Some((msg@, j as int)) && i <= j
                <= s@.len(),
            None => spec_parse_jstring(s@, i as int) is None,
        },
{
    let n = s.unicode_len();
    let mut acc = String::new();
    let mut k: usize = i;
    loop
        invariant
            i <= k <= n,
            n == s@.len(),
            spec_parse_jstring(s@, i as int) == (match spec_parse_jstring(s@, k as int) {
                Some((rest, j)) => Some((acc@ + rest, j)),
                None => None::<(Seq<char>, int)>,
            }),
        decreases n - k,
    {
        if k >= n {
            return None;
        }
        let c = s.get_char(k);
        if c == '"' {
            proof {
                assert(acc@ + Seq::<char>::empty() =~= acc@);
            }
            return Some((acc, k + 1));
        } else if c == '\\' {
            if n - k < 2 {
                return None;
            }
            let e = s.get_char(k + 1);
            if e == '"' || e == '\\' || e == 'b' || e == 't' || e == 'n' || e == 'f' || e == 'r' {
                let decoded: char = if e == '"' {
                    '"'
                } else if e == '\\' {
                    '\\'
                } else if e == 'b' {
                    '\u{8}'
                } else if e == 't' {
                    '\t'
                } else if e == 'n' {
                    '\n'
                } else if e == 'f' {
                    '\u{c}'
                } else {
                    '\r'
                };
                let ghost acc_before = acc@;
                push_char(&mut acc, decoded);
                proof {
                    match spec_parse_jstring(s@, k as int + 2) {
                        Some((rest2, j2)) => {
                            assert(acc_before + (seq![decoded] + rest2) =~= acc@ + rest2);
                        },
                        None => {},
                    }
                }
                k = k + 2;
            } else if e == 'u' {
                if n - k < 6 {
                    return None;
                }
                let c2 = s.get_char(k + 2);
                let c3 = s.get_char(k + 3);
                let c4 = s.get_char(k + 4);
                let c5 = s.get_char(k + 5);
                if c2 == '0' && c3 == '0' && exec_is_hex(c4) && exec_is_hex(c5) {
                    let v: u32 = exec_hex_value(c4) * 16 + exec_hex_value(c5);
                    let decoded: char = (v as u8) as char;
                    let ghost acc_before = acc@;
                    push_char(&mut acc, decoded);
                    proof {
                        assert(v < 256);
                        assert(decoded == ((hex_value(s@[k as int + 4]) * 16 + hex_value(
                            s@[k as int + 5],
                        )) as char));
                        match spec_parse_jstring(s@, k as int + 6) {
                            Some((rest2, j2)) => {
                                assert(acc_before + (seq![decoded] + rest2) =~= acc@ + rest2);
                            },
                            None => {},
                        }
                    }
                    k = k + 6;
                } else {
                    return None;
                }
            } else {
                return None;
            }
        } else {
            let ghost acc_before = acc@;
            push_char(&mut acc, c);
            proof {
                match spec_parse_jstring(s@, k as int + 1) {
                    Some((rest2, j2)) => {
                        assert(acc_before + (seq![c] + rest2) =~= acc@ + rest2);
                    },
                    None => {},
                }
            }
            k = k + 1;
        }
    }
}

impl ErrorResponseBody {
    /// Parses the canonical JSON text back into a body; fails exactly when
    /// the text is not such a serialization.
    pub fn from_json(s: &str) -> (r: Option<ErrorResponseBody>)
        ensures
            match r {
                Some(b) => spec_parse_body_json(s@) == Some(b@),
                None => spec_parse_body_json(s@) is None,
            },
    {
        let n = s.unicode_len();
        let i1 = match expect_lit(s, 0, "{\"statusCode\":") {
            Some(j) => j,
            None => {
                return None;
            },
        };
        let (sc, j1) = match parse_u16_at(s, i1) {
            Some(x) => x,
            None => {
                return None;
            },
        };
        let i2 = match expect_lit(s, j1, ",\"errorCode\":") {
            Some(j) => j,
            None => {
                return None;
            },
        };
        let (ec, j2): (Option<u32>, usize) = match expect_lit(s, i2, "null") {
            Some(j) => (None, j),
            None => {
                match parse_u32_at(s, i2) {
                    Some((v, j)) => (Some(v), j),
                    None => {
                        return None;
                    },
                }
            },
        };
        let i3 = match expect_lit(s, j2, ",\"message\":\"") {
            Some(j) => j,
            None => {
                return None;
            },
        };
        let (msg, j3) = match parse_jstring_at(s, i3) {
            Some(x) => x,
            None => {
                return None;
            },
        };
        if j3 < n && j3 + 1 == n {
            if s.get_char(j3) == '}' {
                return Some(ErrorResponseBody::new(sc, ec, msg));
            }
        }
        None
    }
}

// ---------------------------------------------------------------------------
// Round trip
// ---------------------------------------------------------------------------

/// Reading an escaped message back from inside its quotes recovers it.
pub proof fn lemma_jstring_round_trip(s: Seq<char>, i: int, msg: Seq<char>)
    requires
        0 <= i,
        i + spec_escape(msg).len() + 1 <= s.len(),
        s.subrange(i, i + spec_escape(msg).len()) == spec_escape(msg),
        s[i + spec_escape(msg).len()] == '"',
    ensures
        spec_parse_jstring(s, i) == Some((msg, i + spec_escape(msg).len() + 1)),
    decreases msg.len(),
{
    let ll = spec_escape(msg).len() as int;
    if msg.len() == 0 {
        assert(s[i] == '"');
    } else {
        let c = msg.first();
        let e = spec_escape_char(c);
        let l1 = e.len() as int;
        let rest_esc = spec_escape(msg.drop_first());
        assert(spec_escape(msg) == e + rest_esc);
        assert(ll == l1 + rest_esc.len());
        assert forall|t: int| 0 <= t < l1 implies s[i + t] == e[t] by {
            assert(s.subrange(i, i + ll)[t] == s[i + t]);
            assert(spec_escape(msg)[t] == e[t]);
        }
        assert(s.subrange(i + l1, i + l1 + rest_esc.len()) =~= rest_esc) by {
            assert forall|t: int| 0 <= t < rest_esc.len() implies s.subrange(
                i + l1,
                i + l1 + rest_esc.len(),
            )[t] == rest_esc[t] by {
                assert(s.subrange(i + l1, i + l1 + rest_esc.len())[t] == s[i + l1 + t]);
                assert(s.subrange(i, i + ll)[l1 + t] == s[i + l1 + t]);
                assert(spec_escape(msg)[l1 + t] == rest_esc[t]);
            }
        }
        assert(s[(i + l1) + rest_esc.len()] == '"');
        lemma_jstring_round_trip(s, i + l1, msg.drop_first());
        assert(seq![c] + msg.drop_first() =~= msg);
        if c == '"' {
            assert(s[i] == '\\' && s[i + 1] == '"');
        } else if c == '\\' {
            assert(s[i] == '\\' && s[i + 1] == '\\');
        } else if c == '\u{8}' {
            assert(s[i] == '\\' && s[i + 1] == 'b');
        } else if c == '\t' {
            assert(s[i] == '\\' && s[i + 1] == 't');
        } else if c == '\n' {
            assert(s[i] == '\\' && s[i + 1] == 'n');
        } else if c == '\u{c}' {
            assert(s[i] == '\\' && s[i + 1] == 'f');
        } else if c == '\r' {
            assert(s[i] == '\\' && s[i + 1] == 'r');
        } else if (c as u32) < 0x20 {
            let hi = (c as u32 / 16) as nat;
            let lo = (c as u32 % 16) as nat;
            lemma_hex_digit_value(hi);
            lemma_hex_digit_value(lo);
            assert(s[i] == '\\' && s[i + 1] == 'u' && s[i + 2] == '0' && s[i + 3] == '0');
            assert(s[i + 4] == hex_digit(hi) && s[i + 5] == hex_digit(lo));
            assert(hex_value(s[i + 4]) * 16 + hex_value(s[i + 5]) == c as u32);
            vstd::utf8::char_u32_cast(c, c as u32);
            assert(((c as u32) as char) == c);
        } else {
            assert(s[i] == c);
            assert(c != '"' && c != '\\');
        }
    }
}

/// Serializing a body and parsing the text back yields the same body: the
/// wire artifact is lossless for every status, code and message.
pub proof fn lemma_body_json_round_trip(b: SpecErrorResponseBody)
    ensures
        spec_parse_body_json(spec_body_json(b)) == Some(b),
{
    let s = spec_body_json(b);
    let p0 = "{\"statusCode\":"@;
    let d1 = dec_digits(b.status_code as nat);
    let p2 = ",\"errorCode\":"@;
    let d2 = match b.error_code {
        Some(c) => dec_digits(c as nat),
        None => "null"@,
    };
    let p3 = ",\"message\":\""@;
    let esc = spec_escape(b.message);
    let p4 = "\"}"@;
    let i1 = p0.len() as int;
    let e1 = i1 + d1.len();
    let i2 = e1 + p2.len();
    let e2 = i2 + d2.len();
    let i3 = e2 + p3.len();
    let j3 = i3 + esc.len();
    assert(s == p0 + d1 + p2 + d2 + p3 + esc + p4);
    assert(s.len() == j3 + p4.len());
    reveal_strlit("\"}");
    assert(p4.len() == 2 && p4[0] == '"' && p4[1] == '}');
    assert(s.subrange(0, i1) =~= p0);
    assert(s.subrange(i1, e1) =~= d1);
    assert(s.subrange(e1, i2) =~= p2);
    assert(s.subrange(i2, e2) =~= d2);
    assert(s.subrange(e2, i3) =~= p3);
    assert(s.subrange(i3, j3) =~= esc);
    assert(s[j3] == '"');
    assert(s[j3 + 1] == '}');
    assert(match_lit(s, 0, p0));
    // the status-code number
    lemma_dec_digits_shape(b.status_code as nat);
    lemma_dec_value_of_digits(b.status_code as nat);
    reveal_strlit(",\"errorCode\":");
    assert(p2[0] == ',');
    assert(s[e1] == ',');
    assert forall|t: int| i1 <= t < e1 implies is_digit_char(#[trigger] s[t]) by {
        assert(s.subrange(i1, e1)[t - i1] == s[t]);
        assert(is_digit_char(d1[t - i1]));
    }
    lemma_digits_end_at(s, i1, e1);
    assert(s.subrange(i1, e1) == d1);
    assert(spec_parse_u16(s, i1) == Some((b.status_code, e1)));
    assert(match_lit(s, e1, p2));
    // the error-code number or null
    reveal_strlit("null");
    reveal_strlit(",\"message\":\"");
    assert(p3[0] == ',');
    match b.error_code {
        None => {
            assert(d2 == "null"@);
            assert(match_lit(s, i2, "null"@));
            assert(spec_parse_opt_u32(s, i2) == Some((None::<u32>, e2)));
        },
        Some(code) => {
            lemma_dec_digits_shape(code as nat);
            lemma_dec_value_of_digits(code as nat);
            assert(s.subrange(i2, e2)[0] == s[i2]);
            assert(is_digit_char(d2[0]));
            assert(s[i2] == d2[0]);
            assert(!is_digit_char('n'));
            if match_lit(s, i2, "null"@) {
                assert(s.subrange(i2, i2 + 4)[0] == 'n');
                assert(s[i2] == 'n');
                assert(false);
            }
            assert(s[e2] == ',');
            assert forall|t: int| i2 <= t < e2 implies is_digit_char(#[trigger] s[t]) by {
                assert(s.subrange(i2, e2)[t - i2] == s[t]);
                assert(is_digit_char(d2[t - i2]));
            }
            lemma_digits_end_at(s, i2, e2);
            assert(spec_parse_u32(s, i2) == Some((code, e2)));
            assert(spec_parse_opt_u32(s, i2) == Some((Some(code), e2)));
        },
    }
    assert(match_lit(s, e2, p3));
    // the message
    lemma_jstring_round_trip(s, i3, b.message);
    assert(spec_parse_jstring(s, i3) == Some((b.message, j3 + 1)));
    assert(j3 + 1 + 1 == s.len());
    assert(spec_parse_body_json(s) == Some(
        SpecErrorResponseBody {
            status_code: b.status_code,
            error_code: b.error_code,
            message: b.message,
        },
    ));
    assert(SpecErrorResponseBody {
        status_code: b.status_code,
        error_code: b.error_code,
        message: b.message,
    } == b);
}

/// The body the default error handler serializes for a response that is not
/// already JSON: no application error code, and the status' canonical
/// reason — or a fixed fallback — as the message.
pub fn default_error_body(status_code: u16, canonical_reason: Option<String>) -> (r:
    ErrorResponseBody)
    ensures
        r@.status_code == status_code,
        r@.error_code is None,
        r@.message == (match canonical_reason {
            Some(m) => m@,
            None => "Unexpected error raised"@,
        }),
{
    let message = match canonical_reason {
        Some(m) => m,
        None => String::from_str("Unexpected error raised"),
    };
    ErrorResponseBody::new(status_code, None, message)
}

} // verus!
