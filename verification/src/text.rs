//! Character-level text primitives: whitespace and digit classification,
//! decimal numerals, line splitting and whitespace tokenization.

use vstd::prelude::*;

verus! {

/// The ASCII whitespace characters, the separators recognised when a tool's
/// output is tokenized.
pub open spec fn is_space(c: char) -> bool {
    c == ' ' || c == '\t' || c == '\n' || c == '\r' || c == '\u{b}' || c == '\u{c}'
}

/// The decimal digit characters.
pub open spec fn is_digit(c: char) -> bool {
    48 <= (c as u32) && (c as u32) <= 57
}

/// Numeric value of a decimal digit character.
pub open spec fn digit_val(c: char) -> nat {
    ((c as u32) - 48) as nat
}

/// The decimal digit character for a value below ten.
pub open spec fn digit_char(d: nat) -> char {
    if d == 0 { '0' }
    else if d == 1 { '1' }
    else if d == 2 { '2' }
    else if d == 3 { '3' }
    else if d == 4 { '4' }
    else if d == 5 { '5' }
    else if d == 6 { '6' }
    else if d == 7 { '7' }
    else if d == 8 { '8' }
    else { '9' }
}

/// Value of a digit string read as a decimal numeral, most significant
/// digit first.
pub open spec fn dec_value(s: Seq<char>) -> nat
    decreases s.len(),
{
    if s.len() == 0 {
        0
    } else {
        dec_value(s.drop_last()) * 10 + digit_val(s.last())
    }
}

/// The canonical decimal numeral of a number: no leading zeros except for
/// the single digit `0` itself.
pub open spec fn spec_dec(n: nat) -> Seq<char>
    decreases n,
{
    if n < 10 {
        seq![digit_char(n)]
    } else {
        spec_dec(n / 10).push(digit_char(n % 10))
    }
}

/// Every character of a whole string is a decimal digit.
pub open spec fn all_digits(s: Seq<char>) -> bool {
    forall|i: int| 0 <= i < s.len() ==> is_digit(#[trigger] s[i])
}

/// The digit character of a value below ten, as a one-character string
/// slice.
fn digit_str(d: u64) -> (r: &'static str)
    requires
        d < 10,
    ensures
        r@ =~= seq![digit_char(d as nat)],
{
    proof {
        reveal_strlit("0");
        reveal_strlit("1");
        reveal_strlit("2");
        reveal_strlit("3");
        reveal_strlit("4");
        reveal_strlit("5");
        reveal_strlit("6");
        reveal_strlit("7");
        reveal_strlit("8");
        reveal_strlit("9");
    }
    if d == 0 { "0" }
    else if d == 1 { "1" }
    else if d == 2 { "2" }
    else if d == 3 { "3" }
    else if d == 4 { "4" }
    else if d == 5 { "5" }
    else if d == 6 { "6" }
    else if d == 7 { "7" }
    else if d == 8 { "8" }
    else { "9" }
}

/// Appends the canonical decimal numeral of `n` to `out`.
pub fn push_decimal(out: &mut String, n: u64)
    ensures
        final(out)@ == old(out)@ + spec_dec(n as nat),
    decreases n,
{
    if n >= 10 {
        push_decimal(out, n / 10);
    }
    out.append(digit_str(n % 10));
    proof {
        if n < 10 {
            assert(final(out)@ =~= old(out)@ + spec_dec(n as nat));
        } else {
            assert(spec_dec(n as nat) == spec_dec((n as nat) / 10).push(digit_char((n as nat) % 10)));
            assert(n as nat / 10 == (n / 10) as nat);
            assert(n as nat % 10 == (n % 10) as nat);
            assert(final(out)@ =~= old(out)@ + spec_dec(n as nat));
        }
    }
}

/// The canonical decimal numeral of `n` as a fresh string.
pub fn render_decimal(n: u64) -> (r: String)
    ensures
        r@ == spec_dec(n as nat),
{
    let mut out = String::new();
    push_decimal(&mut out, n);
    proof {
        assert(out@ =~= spec_dec(n as nat));
    }
    out
}

/// The character sequences of a sequence of strings, element by element.
pub open spec fn views(ps: Seq<String>) -> Seq<Seq<char>> {
    ps.map_values(|s: String| s@)
}

/// Lexicographic order on character strings, comparing characters by code
/// point; the order `String`'s own comparison realises.
pub open spec fn lex_le(a: Seq<char>, b: Seq<char>) -> bool
    decreases a.len(),
{
    if a.len() == 0 {
        true
    } else if b.len() == 0 {
        false
    } else if (a[0] as u32) < (b[0] as u32) {
        true
    } else if (a[0] as u32) > (b[0] as u32) {
        false
    } else {
        lex_le(a.drop_first(), b.drop_first())
    }
}

/// Index of the first newline in `s`, or `s.len()` if there is none.
pub open spec fn first_nl(s: Seq<char>) -> int
    decreases s.len(),
{
    if s.len() == 0 {
        0
    } else if s[0] == '\n' {
        0
    } else {
        1 + first_nl(s.drop_first())
    }
}

/// Index of the first whitespace character in `s`, or `s.len()` if there is
/// none.
pub open spec fn first_space(s: Seq<char>) -> int
    decreases s.len(),
{
    if s.len() == 0 {
        0
    } else if is_space(s[0]) {
        0
    } else {
        1 + first_space(s.drop_first())
    }
}

pub proof fn lemma_first_nl_bounds(s: Seq<char>)
    ensures
        0 <= first_nl(s) <= s.len(),
    decreases s.len(),
{
    if s.len() > 0 && s[0] != '\n' {
        lemma_first_nl_bounds(s.drop_first());
    }
}

pub proof fn lemma_first_space_bounds(s: Seq<char>)
    ensures
        0 <= first_space(s) <= s.len(),
    decreases s.len(),
{
    if s.len() > 0 && !is_space(s[0]) {
        lemma_first_space_bounds(s.drop_first());
    }
}

/// `first_nl` is the unique position with no newline before it and a
/// newline (or the end) at it.
pub proof fn lemma_first_nl_is(s: Seq<char>, k: int)
    requires
        0 <= k <= s.len(),
        forall|j: int| 0 <= j < k ==> s[j] != '\n',
        k == s.len() || s[k] == '\n',
    ensures
        first_nl(s) == k,
    decreases k,
{
    if k == 0 {
    } else {
        assert(s[0] != '\n');
        lemma_first_nl_is(s.drop_first(), k - 1);
    }
}

/// `first_space` is the unique position with no whitespace before it and a
/// whitespace character (or the end) at it.
pub proof fn lemma_first_space_is(s: Seq<char>, k: int)
    requires
        0 <= k <= s.len(),
        forall|j: int| 0 <= j < k ==> !is_space(s[j]),
        k == s.len() || is_space(s[k]),
    ensures
        first_space(s) == k,
    decreases k,
{
    if k == 0 {
    } else {
        assert(!is_space(s[0]));
        lemma_first_space_is(s.drop_first(), k - 1);
    }
}

/// The fields of `s` cut at every newline, with a trailing newline acting
/// as a terminator: an empty input has no fields, and a final newline does
/// not open an empty last field.
pub open spec fn spec_lines(s: Seq<char>) -> Seq<Seq<char>>
    decreases s.len(),
    via spec_lines_dec
{
    if s.len() == 0 {
        Seq::empty()
    } else {
        let k = first_nl(s);
        if k == s.len() {
            seq![s]
        } else {
            seq![s.subrange(0, k)] + spec_lines(s.subrange(k + 1, s.len() as int))
        }
    }
}

#[via_fn]
proof fn spec_lines_dec(s: Seq<char>) {
    lemma_first_nl_bounds(s);
}

/// The maximal whitespace-free runs of `s`, in order; whitespace only
/// separates and never yields an empty token.
pub open spec fn spec_tokens(s: Seq<char>) -> Seq<Seq<char>>
    decreases s.len(),
    via spec_tokens_dec
{
    if s.len() == 0 {
        Seq::empty()
    } else if is_space(s[0]) {
        spec_tokens(s.drop_first())
    } else {
        let k = first_space(s);
        seq![s.subrange(0, k)] + spec_tokens(s.subrange(k, s.len() as int))
    }
}

#[via_fn]
proof fn spec_tokens_dec(s: Seq<char>) {
    lemma_first_space_bounds(s);
    if s.len() > 0 && !is_space(s[0]) {
        assert(first_space(s) >= 1) by {
            lemma_first_space_bounds(s.drop_first());
        }
    }
}

/// Whitespace test on one character, the executable twin of `is_space`.
pub fn is_space_char(c: char) -> (b: bool)
    ensures
        b == is_space(c),
{
    c == ' ' || c == '\t' || c == '\n' || c == '\r' || c == '\u{b}' || c == '\u{c}'
}

/// Splits `s` at newlines, a trailing newline terminating the last field
/// rather than opening an empty one.
pub fn split_lines(s: &str) -> (r: Vec<String>)
    ensures
        views(r@) == spec_lines(s@),
{
    let len = s.unicode_len();
    let mut out: Vec<String> = Vec::new();
    let mut start: usize = 0;
    let mut i: usize = 0;
    proof {
        assert(s@.subrange(0, len as int) =~= s@);
        assert(views(out@) + spec_lines(s@) =~= spec_lines(s@));
    }
    while i < len
        invariant
            start <= i <= len,
            len == s@.len(),
            forall|j: int| start <= j < i ==> s@[j] != '\n',
            spec_lines(s@) == views(out@) + spec_lines(
                s@.subrange(start as int, len as int),
            ),
        decreases len - i,
    {
        let c = s.get_char(i);
        if c == '\n' {
            let field = String::from_str(s.substring_char(start, i));
            proof {
                let rest = s@.subrange(start as int, len as int);
                lemma_first_nl_is(rest, i - start);
                assert(rest.subrange(0, i - start) =~= s@.subrange(start as int, i as int));
                assert(rest.subrange(i - start + 1, rest.len() as int) =~= s@.subrange(
                    i + 1,
                    len as int,
                ));
                assert(views(out@.push(field)) =~= views(out@).push(field@));
                assert(views(out@) + spec_lines(rest) =~= views(out@.push(field)) + spec_lines(s@.subrange(i + 1, len as int)));
            }
            out.push(field);
            start = i + 1;
        }
        i = i + 1;
    }
    if start < len {
        let field = String::from_str(s.substring_char(start, len));
        proof {
            let rest = s@.subrange(start as int, len as int);
            lemma_first_nl_is(rest, len - start);
            assert(rest.subrange(0, len - start) =~= rest);
            assert(views(out@.push(field)) =~= views(out@).push(field@));
            assert(views(out@) + spec_lines(rest) =~= views(out@.push(field)));
        }
        out.push(field);
    } else {
        proof {
            assert(s@.subrange(start as int, len as int) =~= Seq::<char>::empty());
            assert(views(out@) + spec_lines(Seq::<char>::empty()) =~= views(out@));
        }
    }
    out
}

/// Splits `s` into its whitespace-separated tokens.
pub fn split_tokens(s: &str) -> (r: Vec<String>)
    ensures
        views(r@) == spec_tokens(s@),
{
    let len = s.unicode_len();
    let mut out: Vec<String> = Vec::new();
    let mut i: usize = 0;
    proof {
        assert(s@.subrange(0, len as int) =~= s@);
        assert(views(out@) + spec_tokens(s@) =~= spec_tokens(s@));
    }
    while i < len
        invariant
            i <= len,
            len == s@.len(),
            spec_tokens(s@) == views(out@) + spec_tokens(
                s@.subrange(i as int, len as int),
            ),
        decreases len - i,
    {
        let c = s.get_char(i);
        if is_space_char(c) {
            proof {
                let rest = s@.subrange(i as int, len as int);
                assert(rest.drop_first() =~= s@.subrange(i + 1, len as int));
            }
            i = i + 1;
        } else {
            let mut j: usize = i + 1;
            let mut hit: bool = false;
            while j < len && !hit
                invariant
                    i < j <= len,
                    len == s@.len(),
                    forall|m: int| i <= m < j ==> !is_space(s@[m]),
                    hit ==> j < len && is_space(s@[j as int]),
                decreases len - j + (if hit { 0int } else { 1int }),
            {
                if is_space_char(s.get_char(j)) {
                    hit = true;
                } else {
                    j = j + 1;
                }
            }
            let token = String::from_str(s.substring_char(i, j));
            proof {
                let rest = s@.subrange(i as int, len as int);
                lemma_first_space_is(rest, j - i);
                assert(rest.subrange(0, j - i) =~= s@.subrange(i as int, j as int));
                assert(rest.subrange(j - i, rest.len() as int) =~= s@.subrange(
                    j as int,
                    len as int,
                ));
                assert(views(out@.push(token)) =~= views(out@).push(token@));
                assert(views(out@) + spec_tokens(rest) =~= views(out@.push(token)) + spec_tokens(s@.subrange(j as int, len as int)));
            }
            out.push(token);
            i = j;
        }
    }
    proof {
        assert(s@.subrange(i as int, len as int) =~= Seq::<char>::empty());
        assert(views(out@) + spec_tokens(Seq::<char>::empty()) =~= views(out@));
    }
    out
}

/// Growing a digit string never shrinks its value.
pub proof fn lemma_dec_value_prefix(s: Seq<char>, i: int, j: int)
    requires
        0 <= i <= j <= s.len(),
    ensures
        dec_value(s.subrange(0, i)) <= dec_value(s.subrange(0, j)),
    decreases j - i,
{
    if i < j {
        lemma_dec_value_prefix(s, i, j - 1);
        let t = s.subrange(0, j);
        assert(t.drop_last() =~= s.subrange(0, j - 1));
        assert(dec_value(t) == dec_value(t.drop_last()) * 10 + digit_val(t.last()));
        assert(dec_value(t.drop_last()) * 10 >= dec_value(t.drop_last())) by (nonlinear_arith);
    }
}

/// Reads `s` as a decimal numeral: `Some` exactly when `s` is a non-empty
/// all-digit string whose value fits in a `u64`, and then the value itself.
pub fn parse_u64(s: &str) -> (r: Option<u64>)
    ensures
        match r {
            Some(v) => all_digits(s@) && s@.len() > 0 && dec_value(s@) <= u64::MAX && v == dec_value(
                s@,
            ),
            None => !(all_digits(s@) && s@.len() > 0 && dec_value(s@) <= u64::MAX),
        },
{
    let len = s.unicode_len();
    if len == 0 {
        return None;
    }
    let mut acc: u64 = 0;
    let mut i: usize = 0;
    while i < len
        invariant
            i <= len,
            len == s@.len(),
            0 < len,
            forall|j: int| 0 <= j < i ==> is_digit(#[trigger] s@[j]),
            acc == dec_value(s@.subrange(0, i as int)),
        decreases len - i,
    {
        let c = s.get_char(i);
        let cv = c as u32;
        if cv < 48 || cv > 57 {
            assert(!is_digit(s@[i as int]));
            return None;
        }
        let d = (cv - 48) as u64;
        let next = match acc.checked_mul(10) {
            Some(m) => m.checked_add(d),
            None => None,
        };
        proof {
            let t = s@.subrange(0, i + 1);
            assert(t.drop_last() =~= s@.subrange(0, i as int));
            assert(dec_value(t) == acc * 10 + digit_val(s@[i as int]));
        }
        match next {
            Some(v) => {
                acc = v;
            },
            None => {
                proof {
                    assert(dec_value(s@.subrange(0, i + 1)) > u64::MAX);
                    lemma_dec_value_prefix(s@, i + 1, len as int);
                    assert(s@.subrange(0, len as int) =~= s@);
                }
                return None;
            },
        }
        i = i + 1;
    }
    proof {
        assert(s@.subrange(0, len as int) =~= s@);
    }
    Some(acc)
}

} // verus!
