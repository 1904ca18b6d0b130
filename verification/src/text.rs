//! Character classes, decimal digit strings, and small string helpers shared
//! by the attribute grammar, the code renderers and the JSON body codec.

use vstd::prelude::*;
use vstd::string::StrSliceExecFns;

verus! {

// ---------------------------------------------------------------------------
// Character classes
// ---------------------------------------------------------------------------

/// Whitespace accepted between tokens of an attribute's argument list.
pub open spec fn is_space_char(c: char) -> bool {
    c == ' ' || c == '\t' || c == '\n' || c == '\r'
}

/// ASCII decimal digit.
pub open spec fn is_digit_char(c: char) -> bool {
    '0' <= c && c <= '9'
}

/// First character of an identifier.
pub open spec fn is_ident_start_char(c: char) -> bool {
    ('a' <= c && c <= 'z') || ('A' <= c && c <= 'Z') || c == '_'
}

/// Any character of an identifier after the first.
pub open spec fn is_ident_continue_char(c: char) -> bool {
    is_ident_start_char(c) || is_digit_char(c)
}

/// Numeric value of an ASCII decimal digit.
pub open spec fn digit_value(c: char) -> nat
    recommends
        is_digit_char(c),
{
    ((c as nat) - ('0' as nat)) as nat
}

/// The digit character for a value below ten.
pub open spec fn digit_char(d: nat) -> char
    recommends
        d < 10,
{
    if d == 0 {
        '0'
    } else if d == 1 {
        '1'
    } else if d == 2 {
        '2'
    } else if d == 3 {
        '3'
    } else if d == 4 {
        '4'
    } else if d == 5 {
        '5'
    } else if d == 6 {
        '6'
    } else if d == 7 {
        '7'
    } else if d == 8 {
        '8'
    } else {
        '9'
    }
}

pub fn exec_is_space(c: char) -> (r: bool)
    ensures
        r == is_space_char(c),
{
    c == ' ' || c == '\t' || c == '\n' || c == '\r'
}

pub fn exec_is_digit(c: char) -> (r: bool)
    ensures
        r == is_digit_char(c),
{
    '0' <= c && c <= '9'
}

pub fn exec_is_ident_start(c: char) -> (r: bool)
    ensures
        r == is_ident_start_char(c),
{
    ('a' <= c && c <= 'z') || ('A' <= c && c <= 'Z') || c == '_'
}

pub fn exec_is_ident_continue(c: char) -> (r: bool)
    ensures
        r == is_ident_continue_char(c),
{
    exec_is_ident_start(c) || exec_is_digit(c)
}

// ---------------------------------------------------------------------------
// Decimal digit strings
// ---------------------------------------------------------------------------

/// The usual base-ten rendering of `n`, most significant digit first,
/// without leading zeros (`0` renders as "0").
pub open spec fn dec_digits(n: nat) -> Seq<char>
    decreases n,
{
    if n < 10 {
        seq![digit_char(n)]
    } else {
        dec_digits(n / 10).push(digit_char(n % 10))
    }
}

/// The numeric value of a digit string, most significant digit first.
pub open spec fn dec_value(s: Seq<char>) -> nat
    decreases s.len(),
{
    if s.len() == 0 {
        0
    } else {
        dec_value(s.drop_last()) * 10 + digit_value(s.last())
    }
}

/// Every character of `s` is an ASCII decimal digit.
pub open spec fn all_digits(s: Seq<char>) -> bool {
    forall|i: int| 0 <= i < s.len() ==> is_digit_char(#[trigger] s[i])
}

pub proof fn lemma_dec_digits_shape(n: nat)
    ensures
        dec_digits(n).len() >= 1,
        all_digits(dec_digits(n)),
    decreases n,
{
    if n >= 10 {
        lemma_dec_digits_shape(n / 10);
        assert forall|i: int| 0 <= i < dec_digits(n).len() implies is_digit_char(
            #[trigger] dec_digits(n)[i],
        ) by {
            if i < dec_digits(n).len() - 1 {
                assert(dec_digits(n)[i] == dec_digits(n / 10)[i]);
            }
        }
    }
}

pub proof fn lemma_digit_char_value(d: nat)
    requires
        d < 10,
    ensures
        digit_value(digit_char(d)) == d,
        is_digit_char(digit_char(d)),
{
}

/// Rendering and then reading back a number is the identity.
pub proof fn lemma_dec_value_of_digits(n: nat)
    ensures
        dec_value(dec_digits(n)) == n,
    decreases n,
{
    if n < 10 {
        lemma_digit_char_value(n);
        assert(dec_digits(n) == seq![digit_char(n)]);
        assert(dec_digits(n).drop_last() =~= Seq::<char>::empty());
        assert(dec_value(dec_digits(n)) == dec_value(dec_digits(n).drop_last()) * 10 + digit_value(
            dec_digits(n).last(),
        ));
        assert(dec_value(Seq::<char>::empty()) == 0);
        assert(dec_digits(n).last() == digit_char(n));
    } else {
        lemma_dec_value_of_digits(n / 10);
        lemma_digit_char_value(n % 10);
        assert(dec_digits(n) == dec_digits(n / 10).push(digit_char(n % 10)));
        assert(dec_digits(n).drop_last() =~= dec_digits(n / 10));
        assert(dec_digits(n).last() == digit_char(n % 10));
        assert(dec_digits(n).len() > 0);
        assert(dec_value(dec_digits(n)) == dec_value(dec_digits(n).drop_last()) * 10 + digit_value(
            dec_digits(n).last(),
        ));
        assert(n == (n / 10) * 10 + n % 10);
    }
}

/// The value of a digit string only grows as more digits are appended.
pub proof fn lemma_dec_value_prefix(s: Seq<char>, k: int)
    requires
        0 <= k <= s.len(),
    ensures
        dec_value(s.take(k)) <= dec_value(s),
    decreases s.len() - k,
{
    if k < s.len() {
        lemma_dec_value_prefix(s, k + 1);
        assert(s.take(k + 1).drop_last() =~= s.take(k));
        assert(dec_value(s.take(k + 1)) == dec_value(s.take(k)) * 10 + digit_value(
            s.take(k + 1).last(),
        ));
        assert(dec_value(s.take(k)) <= dec_value(s.take(k)) * 10);
    } else {
        assert(s.take(k) =~= s);
    }
}

/// Appends one decimal digit character.
pub fn push_digit(out: &mut String, d: u64)
    requires
        d < 10,
    ensures
        final(out)@ == old(out)@ + seq![digit_char(d as nat)],
{
    if d == 0 {
        out.append("0");
        assert(out@ =~= old(out)@ + seq!['0']) by {
            reveal_strlit("0");
        }
    } else if d == 1 {
        out.append("1");
        assert(out@ =~= old(out)@ + seq!['1']) by {
            reveal_strlit("1");
        }
    } else if d == 2 {
        out.append("2");
        assert(out@ =~= old(out)@ + seq!['2']) by {
            reveal_strlit("2");
        }
    } else if d == 3 {
        out.append("3");
        assert(out@ =~= old(out)@ + seq!['3']) by {
            reveal_strlit("3");
        }
    } else if d == 4 {
        out.append("4");
        assert(out@ =~= old(out)@ + seq!['4']) by {
            reveal_strlit("4");
        }
    } else if d == 5 {
        out.append("5");
        assert(out@ =~= old(out)@ + seq!['5']) by {
            reveal_strlit("5");
        }
    } else if d == 6 {
        out.append("6");
        assert(out@ =~= old(out)@ + seq!['6']) by {
            reveal_strlit("6");
        }
    } else if d == 7 {
        out.append("7");
        assert(out@ =~= old(out)@ + seq!['7']) by {
            reveal_strlit("7");
        }
    } else if d == 8 {
        out.append("8");
        assert(out@ =~= old(out)@ + seq!['8']) by {
            reveal_strlit("8");
        }
    } else {
        out.append("9");
        assert(out@ =~= old(out)@ + seq!['9']) by {
            reveal_strlit("9");
        }
    }
}

/// Appends the base-ten rendering of `n`.
pub fn append_dec(out: &mut String, n: u64)
    ensures
        final(out)@ == old(out)@ + dec_digits(n as nat),
    decreases n,
{
    if n < 10 {
        push_digit(out, n);
    } else {
        append_dec(out, n / 10);
        push_digit(out, n % 10);
        assert(out@ =~= old(out)@ + dec_digits(n as nat));
    }
}

/// The lowercase hex digit for a value below sixteen.
pub open spec fn hex_digit(d: nat) -> char
    recommends
        d < 16,
{
    if d < 10 {
        digit_char(d)
    } else if d == 10 {
        'a'
    } else if d == 11 {
        'b'
    } else if d == 12 {
        'c'
    } else if d == 13 {
        'd'
    } else if d == 14 {
        'e'
    } else {
        'f'
    }
}

/// A lowercase hex digit.
pub open spec fn is_hex_char(c: char) -> bool {
    is_digit_char(c) || ('a' <= c && c <= 'f')
}

/// Numeric value of a lowercase hex digit.
pub open spec fn hex_value(c: char) -> nat {
    if is_digit_char(c) {
        digit_value(c)
    } else if c == 'a' {
        10
    } else if c == 'b' {
        11
    } else if c == 'c' {
        12
    } else if c == 'd' {
        13
    } else if c == 'e' {
        14
    } else {
        15
    }
}

pub proof fn lemma_hex_digit_value(d: nat)
    requires
        d < 16,
    ensures
        hex_value(hex_digit(d)) == d,
        is_hex_char(hex_digit(d)),
{
    if d < 10 {
        lemma_digit_char_value(d);
    }
}

pub fn exec_is_hex(c: char) -> (r: bool)
    ensures
        r == is_hex_char(c),
{
    exec_is_digit(c) || ('a' <= c && c <= 'f')
}

pub fn exec_hex_value(c: char) -> (r: u32)
    requires
        is_hex_char(c),
    ensures
        r == hex_value(c),
        r < 16,
{
    if exec_is_digit(c) {
        (c as u32) - ('0' as u32)
    } else {
        ((c as u32) - ('a' as u32)) + 10
    }
}

/// Appends one lowercase hex digit character.
pub fn push_hex_digit(out: &mut String, d: u32)
    requires
        d < 16,
    ensures
        final(out)@ == old(out)@ + seq![hex_digit(d as nat)],
{
    if d < 10 {
        push_digit(out, d as u64);
    } else if d == 10 {
        out.append("a");
        assert(out@ =~= old(out)@ + seq!['a']) by {
            reveal_strlit("a");
        }
    } else if d == 11 {
        out.append("b");
        assert(out@ =~= old(out)@ + seq!['b']) by {
            reveal_strlit("b");
        }
    } else if d == 12 {
        out.append("c");
        assert(out@ =~= old(out)@ + seq!['c']) by {
            reveal_strlit("c");
        }
    } else if d == 13 {
        out.append("d");
        assert(out@ =~= old(out)@ + seq!['d']) by {
            reveal_strlit("d");
        }
    } else if d == 14 {
        out.append("e");
        assert(out@ =~= old(out)@ + seq!['e']) by {
            reveal_strlit("e");
        }
    } else {
        out.append("f");
        assert(out@ =~= old(out)@ + seq!['f']) by {
            reveal_strlit("f");
        }
    }
}

// ---------------------------------------------------------------------------
// String helpers
// ---------------------------------------------------------------------------

/// Relies on `String::push`: appends the given `char` to the end of the
/// `String`, and on nothing else.
#[verifier::external_body]
pub fn push_char(out: &mut String, c: char)
    ensures
        final(out)@ == old(out)@ + seq![c],
{
    out.push(c);
}

/// A leading space before a non-empty splice, nothing for an empty one.
pub open spec fn spec_opt_sp(x: Seq<char>) -> Seq<char> {
    if x.len() == 0 {
        Seq::empty()
    } else {
        " "@ + x
    }
}

/// Appends `x` preceded by one space, or nothing when `x` is empty.
pub fn append_opt_sp(out: &mut String, x: &str)
    ensures
        final(out)@ == old(out)@ + spec_opt_sp(x@),
{
    if x.unicode_len() > 0 {
        out.append(" ");
        out.append(x);
        assert(out@ =~= old(out)@ + spec_opt_sp(x@));
    } else {
        assert(out@ =~= old(out)@ + spec_opt_sp(x@));
    }
}

/// The header line of a generated `impl` block: generics, an optional
/// `Trait for ` prefix, the type's name and generic arguments, and the
/// where clause.
pub open spec fn spec_impl_header(
    ig: Seq<char>,
    trait_prefix: Seq<char>,
    name: Seq<char>,
    tyg: Seq<char>,
    wc: Seq<char>,
) -> Seq<char> {
    "impl"@ + spec_opt_sp(ig) + " "@ + trait_prefix + name + tyg + spec_opt_sp(wc) + " {\n"@
}

/// Appends a generated `impl` header.
pub fn append_impl_header(
    out: &mut String,
    ig: &str,
    trait_prefix: &str,
    name: &str,
    tyg: &str,
    wc: &str,
)
    ensures
        final(out)@ == old(out)@ + spec_impl_header(ig@, trait_prefix@, name@, tyg@, wc@),
{
    out.append("impl");
    append_opt_sp(out, ig);
    out.append(" ");
    out.append(trait_prefix);
    out.append(name);
    out.append(tyg);
    append_opt_sp(out, wc);
    out.append(" {\n");
    assert(out@ =~= old(out)@ + spec_impl_header(ig@, trait_prefix@, name@, tyg@, wc@));
}

/// Character-for-character string comparison.
pub fn str_eq(a: &str, b: &str) -> (r: bool)
    ensures
        r == (a@ == b@),
{
    let la = a.unicode_len();
    let lb = b.unicode_len();
    if la != lb {
        return false;
    }
    let mut i: usize = 0;
    while i < la
        invariant
            i <= la,
            la == a@.len(),
            la == b@.len(),
            forall|j: int| 0 <= j < i ==> a@[j] == b@[j],
        decreases la - i,
    {
        if a.get_char(i) != b.get_char(i) {
            return false;
        }
        i = i + 1;
    }
    proof {
        assert(a@ =~= b@);
    }
    true
}

} // verus!
