//! The attribute argument grammar: the text between an annotation's
//! parentheses is a comma-separated list of `name = value` pairs, e.g.
//! `status_code = 404, error_code = 1`.
//!
//! A name is an identifier; a value is a non-empty run of characters that is
//! balanced in `()`/`[]`/`{}` brackets and ends at the next comma outside
//! brackets and string quotes (a trailing comma is allowed).  A value that is
//! a plain run of decimal digits is an integer literal; every other value
//! shape is kept only as "some other expression", since the generators
//! accept nothing else.  Text that does not fit this grammar is malformed.

use vstd::prelude::*;
use vstd::string::StrSliceExecFns;

use crate::text::{
    all_digits, dec_value, digit_value, exec_is_digit, exec_is_ident_continue, exec_is_ident_start,
    exec_is_space, is_digit_char, is_ident_continue_char, is_ident_start_char, is_space_char,
    lemma_dec_value_prefix,
};

verus! {

/// A parsed value: an integer literal, or any other expression shape.
#[derive(Clone, Copy, Debug, PartialEq, Eq, Structural)]
pub enum ArgExpr {
    /// A plain run of decimal digits whose value fits in `u64`.
    IntLit(u64),
    /// Any other value text (identifier, string, call, too-large number...).
    Other,
}

/// One `name = value` pair of an annotation's argument list.
pub struct NameValue {
    /// The field name to the left of `=`.
    pub name: String,
    /// The classified value to the right of `=`.
    pub value: ArgExpr,
}

/// Mathematical image of a [`NameValue`].
pub ghost struct SpecNameValue {
    pub name: Seq<char>,
    pub value: ArgExpr,
}

impl View for NameValue {
    type V = SpecNameValue;

    open spec fn view(&self) -> SpecNameValue {
        SpecNameValue { name: self.name@, value: self.value }
    }
}

/// The pairs a sequence of [`NameValue`]s stands for.
pub open spec fn pairs_view(ps: Seq<NameValue>) -> Seq<SpecNameValue> {
    ps.map_values(|p: NameValue| p@)
}

// ---------------------------------------------------------------------------
// The grammar, as spec functions
// ---------------------------------------------------------------------------

/// First position at or after `i` that does not hold whitespace.
pub open spec fn skip_ws(s: Seq<char>, i: int) -> int
    decreases s.len() - i,
        when 0 <= i <= s.len()
{
    if i >= s.len() {
        i
    } else if is_space_char(s[i]) {
        skip_ws(s, i + 1)
    } else {
        i
    }
}

/// First position at or after `i` that does not hold an identifier character.
pub open spec fn ident_end(s: Seq<char>, i: int) -> int
    decreases s.len() - i,
        when 0 <= i <= s.len()
{
    if i >= s.len() {
        i
    } else if is_ident_continue_char(s[i]) {
        ident_end(s, i + 1)
    } else {
        i
    }
}

/// Scans a value from position `i`, tracking bracket `depth` and string
/// state, and yields the position of the terminating top-level comma or of
/// the end of the text; `None` when brackets or a string are left open or a
/// closing bracket has no opening one.
pub open spec fn value_scan(s: Seq<char>, i: int, depth: nat, in_str: bool, after_bs: bool) -> Option<
    int,
>
    decreases s.len() - i,
        when 0 <= i <= s.len()
{
    if i >= s.len() {
        if depth == 0 && !in_str {
            Some(i)
        } else {
            None
        }
    } else {
        let c = s[i];
        if in_str {
            if after_bs {
                value_scan(s, i + 1, depth, true, false)
            } else if c == '\\' {
                value_scan(s, i + 1, depth, true, true)
            } else if c == '"' {
                value_scan(s, i + 1, depth, false, false)
            } else {
                value_scan(s, i + 1, depth, true, false)
            }
        } else {
            if c == ',' && depth == 0 {
                Some(i)
            } else if c == '(' || c == '[' || c == '{' {
                value_scan(s, i + 1, depth + 1, false, false)
            } else if c == ')' || c == ']' || c == '}' {
                if depth == 0 {
                    None
                } else {
                    value_scan(s, i + 1, (depth - 1) as nat, false, false)
                }
            } else if c == '"' {
                value_scan(s, i + 1, depth, true, false)
            } else {
                value_scan(s, i + 1, depth, false, false)
            }
        }
    }
}

/// Largest position in `[m, e]` with no whitespace just before it.
pub open spec fn trim_end(s: Seq<char>, m: int, e: int) -> int
    decreases e - m,
        when 0 <= m <= e <= s.len()
{
    if e <= m {
        m
    } else if is_space_char(s[e - 1]) {
        trim_end(s, m, e - 1)
    } else {
        e
    }
}

/// An integer literal is a non-empty all-digit value that fits in `u64`.
pub open spec fn classify_value(v: Seq<char>) -> ArgExpr {
    if v.len() > 0 && all_digits(v) && dec_value(v) <= u64::MAX {
        ArgExpr::IntLit(dec_value(v) as u64)
    } else {
        ArgExpr::Other
    }
}

/// Parses the pair list that starts at position `i` (which must hold the
/// first character of a pair).
pub open spec fn parse_pairs(s: Seq<char>, i: int) -> Option<Seq<SpecNameValue>>
    decreases s.len() - i,
        when 0 <= i <= s.len()
        via parse_pairs_decreases
{
    if i >= s.len() || !is_ident_start_char(s[i]) {
        None
    } else {
        let j = ident_end(s, i + 1);
        let name = s.subrange(i, j);
        let k = skip_ws(s, j);
        if k >= s.len() || s[k] != '=' {
            None
        } else {
            let m = skip_ws(s, k + 1);
            match value_scan(s, m, 0, false, false) {
                None => None,
                Some(e) => {
                    let e2 = trim_end(s, m, e);
                    if e2 <= m {
                        None
                    } else {
                        let pair = SpecNameValue {
                            name,
                            value: classify_value(s.subrange(m, e2)),
                        };
                        if e >= s.len() {
                            Some(seq![pair])
                        } else {
                            let after = skip_ws(s, e + 1);
                            if after >= s.len() {
                                Some(seq![pair])
                            } else {
                                match parse_pairs(s, after) {
                                    None => None,
                                    Some(rest) => Some(seq![pair] + rest),
                                }
                            }
                        }
                    }
                },
            }
        }
    }
}

/// The whole argument text: empty (up to whitespace), or a pair list.
pub open spec fn spec_parse_args(s: Seq<char>) -> Option<Seq<SpecNameValue>> {
    let i = skip_ws(s, 0);
    if i >= s.len() {
        Some(Seq::empty())
    } else {
        parse_pairs(s, i)
    }
}

// ---------------------------------------------------------------------------
// Bounds of the scanning functions
// ---------------------------------------------------------------------------

pub proof fn lemma_skip_ws_bounds(s: Seq<char>, i: int)
    requires
        0 <= i <= s.len(),
    ensures
        i <= skip_ws(s, i) <= s.len(),
    decreases s.len() - i,
{
    if i < s.len() && is_space_char(s[i]) {
        lemma_skip_ws_bounds(s, i + 1);
    }
}

pub proof fn lemma_ident_end_bounds(s: Seq<char>, i: int)
    requires
        0 <= i <= s.len(),
    ensures
        i <= ident_end(s, i) <= s.len(),
    decreases s.len() - i,
{
    if i < s.len() && is_ident_continue_char(s[i]) {
        lemma_ident_end_bounds(s, i + 1);
    }
}

pub proof fn lemma_value_scan_bounds(s: Seq<char>, i: int, depth: nat, in_str: bool, after_bs: bool)
    requires
        0 <= i <= s.len(),
    ensures
        match value_scan(s, i, depth, in_str, after_bs) {
            Some(e) => i <= e <= s.len(),
            None => true,
        },
    decreases s.len() - i,
{
    if i < s.len() {
        let c = s[i];
        if in_str {
            if after_bs {
                lemma_value_scan_bounds(s, i + 1, depth, true, false);
            } else if c == '\\' {
                lemma_value_scan_bounds(s, i + 1, depth, true, true);
            } else if c == '"' {
                lemma_value_scan_bounds(s, i + 1, depth, false, false);
            } else {
                lemma_value_scan_bounds(s, i + 1, depth, true, false);
            }
        } else {
            if c == ',' && depth == 0 {
            } else if c == '(' || c == '[' || c == '{' {
                lemma_value_scan_bounds(s, i + 1, depth + 1, false, false);
            } else if c == ')' || c == ']' || c == '}' {
                if depth > 0 {
                    lemma_value_scan_bounds(s, i + 1, (depth - 1) as nat, false, false);
                }
            } else if c == '"' {
                lemma_value_scan_bounds(s, i + 1, depth, true, false);
            } else {
                lemma_value_scan_bounds(s, i + 1, depth, false, false);
            }
        }
    }
}

// ---------------------------------------------------------------------------
// The parser
// ---------------------------------------------------------------------------

pub fn exec_skip_ws(s: &str, i: usize) -> (j: usize)
    requires
        i <= s@.len(),
    ensures
        j == skip_ws(s@, i as int),
        i <= j <= s@.len(),
    decreases s@.len() - i,
{
    let n = s.unicode_len();
    if i >= n {
        i
    } else if exec_is_space(s.get_char(i)) {
        exec_skip_ws(s, i + 1)
    } else {
        i
    }
}

pub fn exec_ident_end(s: &str, i: usize) -> (j: usize)
    requires
        i <= s@.len(),
    ensures
        j == ident_end(s@, i as int),
        i <= j <= s@.len(),
    decreases s@.len() - i,
{
    let n = s.unicode_len();
    if i >= n {
        i
    } else if exec_is_ident_continue(s.get_char(i)) {
        exec_ident_end(s, i + 1)
    } else {
        i
    }
}

pub fn exec_value_scan(s: &str, i: usize, depth: usize, in_str: bool, after_bs: bool) -> (r: Option<
    usize,
>)
    requires
        i <= s@.len(),
        depth <= i,
    ensures
        value_scan(s@, i as int, depth as nat, in_str, after_bs) == (match r {
            Some(e) => Some(e as int),
            None => None::<int>,
        }),
        match r {
            Some(e) => i <= e <= s@.len(),
            None => true,
        },
    decreases s@.len() - i,
{
    let n = s.unicode_len();
    if i >= n {
        if depth == 0 && !in_str {
            Some(i)
        } else {
            None
        }
    } else {
        let c = s.get_char(i);
        if in_str {
            if after_bs {
                exec_value_scan(s, i + 1, depth, true, false)
            } else if c == '\\' {
                exec_value_scan(s, i + 1, depth, true, true)
            } else if c == '"' {
                exec_value_scan(s, i + 1, depth, false, false)
            } else {
                exec_value_scan(s, i + 1, depth, true, false)
            }
        } else {
            if c == ',' && depth == 0 {
                Some(i)
            } else if c == '(' || c == '[' || c == '{' {
                exec_value_scan(s, i + 1, depth + 1, false, false)
            } else if c == ')' || c == ']' || c == '}' {
                if depth == 0 {
                    None
                } else {
                    exec_value_scan(s, i + 1, depth - 1, false, false)
                }
            } else if c == '"' {
                exec_value_scan(s, i + 1, depth, true, false)
            } else {
                exec_value_scan(s, i + 1, depth, false, false)
            }
        }
    }
}

pub fn exec_trim_end(s: &str, m: usize, e: usize) -> (r: usize)
    requires
        m <= e <= s@.len(),
    ensures
        r == trim_end(s@, m as int, e as int),
        m <= r <= e,
    decreases e - m,
{
    if e <= m {
        m
    } else if exec_is_space(s.get_char(e - 1)) {
        exec_trim_end(s, m, e - 1)
    } else {
        e
    }
}

pub fn exec_classify(s: &str, from: usize, to: usize) -> (r: ArgExpr)
    requires
        from <= to <= s@.len(),
    ensures
        r == classify_value(s@.subrange(from as int, to as int)),
{
    let ghost v = s@.subrange(from as int, to as int);
    if from >= to {
        return ArgExpr::Other;
    }
    let mut acc: u64 = 0;
    let mut i: usize = from;
    while i < to
        invariant
            from <= i <= to <= s@.len(),
            v == s@.subrange(from as int, to as int),
            v.len() == to - from,
            forall|k: int| 0 <= k < i - from ==> is_digit_char(#[trigger] v[k]),
            acc == dec_value(v.take(i - from)),
        decreases to - i,
    {
        let c = s.get_char(i);
        proof {
            assert(v[i - from] == s@[i as int]);
        }
        if !exec_is_digit(c) {
            return ArgExpr::Other;
        }
        let d: u64 = ((c as u32) - ('0' as u32)) as u64;
        proof {
            assert(d == digit_value(v[i - from]));
            assert(v.take(i - from + 1).drop_last() =~= v.take(i - from));
            assert(v.take(i - from + 1).last() == v[i - from]);
            assert(dec_value(v.take(i - from + 1)) == acc * 10 + d);
        }
        if acc > (u64::MAX - d) / 10 {
            proof {
                assert(((u64::MAX - d) / 10) * 10 >= u64::MAX - d - 9);
                assert(acc * 10 + d > u64::MAX);
                lemma_dec_value_prefix(v, i - from + 1);
                assert(dec_value(v) > u64::MAX);
            }
            return ArgExpr::Other;
        }
        acc = acc * 10 + d;
        i = i + 1;
    }
    proof {
        assert(v.take((to - from) as int) =~= v);
        assert(all_digits(v));
    }
    ArgExpr::IntLit(acc)
}

/// Parses the pair list that starts at position `i`; mirrors [`parse_pairs`].
pub fn exec_parse_pairs(s: &str, i: usize) -> (r: Result<Vec<NameValue>, ()>)
    requires
        i <= s@.len(),
    ensures
        match r {
            Ok(v) => parse_pairs(s@, i as int) == Some(pairs_view(v@)),
            Err(_) => parse_pairs(s@, i as int) is None,
        },
    decreases s@.len() - i,
{
    let n = s.unicode_len();
    if i >= n {
        return Err(());
    }
    let c0 = s.get_char(i);
    if !exec_is_ident_start(c0) {
        return Err(());
    }
    let j = exec_ident_end(s, i + 1);
    let name: String = s.substring_char(i, j).to_owned();
    let k = exec_skip_ws(s, j);
    if k >= n {
        return Err(());
    }
    if s.get_char(k) != '=' {
        return Err(());
    }
    let m = exec_skip_ws(s, k + 1);
    let e = match exec_value_scan(s, m, 0, false, false) {
        Some(e) => e,
        None => {
            return Err(());
        },
    };
    let e2 = exec_trim_end(s, m, e);
    if e2 <= m {
        return Err(());
    }
    let value = exec_classify(s, m, e2);
    let pair = NameValue { name, value };
    let ghost spec_pair = SpecNameValue {
        name: s@.subrange(i as int, j as int),
        value: classify_value(s@.subrange(m as int, e2 as int)),
    };
    assert(pair@ == spec_pair);
    let mut out: Vec<NameValue> = Vec::new();
    out.push(pair);
    assert(pairs_view(out@) =~= seq![spec_pair]);
    if e >= n {
        return Ok(out);
    }
    let after = exec_skip_ws(s, e + 1);
    if after >= n {
        return Ok(out);
    }
    match exec_parse_pairs(s, after) {
        Err(_) => Err(()),
        Ok(mut rest) => {
            let ghost rest_view = pairs_view(rest@);
            out.append(&mut rest);
            assert(pairs_view(out@) =~= seq![spec_pair] + rest_view);
            Ok(out)
        },
    }
}

/// Parses an annotation's argument text into its `name = value` pairs;
/// fails exactly when the text does not fit the grammar.
pub fn parse_attribute_args(s: &str) -> (r: Result<Vec<NameValue>, ()>)
    ensures
        match r {
            Ok(v) => spec_parse_args(s@) == Some(pairs_view(v@)),
            Err(_) => spec_parse_args(s@) is None,
        },
{
    let n = s.unicode_len();
    let i = exec_skip_ws(s, 0);
    if i >= n {
        let out: Vec<NameValue> = Vec::new();
        assert(pairs_view(out@) =~= Seq::<SpecNameValue>::empty());
        Ok(out)
    } else {
        exec_parse_pairs(s, i)
    }
}

#[via_fn]
proof fn parse_pairs_decreases(s: Seq<char>, i: int) {
    if 0 <= i && i < s.len() && is_ident_start_char(s[i]) {
        lemma_ident_end_bounds(s, i + 1);
        let j = ident_end(s, i + 1);
        lemma_skip_ws_bounds(s, j);
        let k = skip_ws(s, j);
        if k < s.len() && s[k] == '=' {
            lemma_skip_ws_bounds(s, k + 1);
            let m = skip_ws(s, k + 1);
            lemma_value_scan_bounds(s, m, 0, false, false);
            match value_scan(s, m, 0, false, false) {
                Some(e) => {
                    if e + 1 <= s.len() {
                        lemma_skip_ws_bounds(s, e + 1);
                    }
                },
                None => {},
            }
        }
    }
}

} // verus!
