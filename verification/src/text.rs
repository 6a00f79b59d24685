//! Character-level helpers for building SQL text: decimal rendering,
//! quoting, LIKE escaping, integer parsing and substring replacement.

use vstd::prelude::*;

verus! {

broadcast use vstd::string::group_string_axioms;

/// Appends one character to a string (`String::push`).
#[verifier::external_body]
pub(crate) fn push_char(s: &mut String, c: char)
    ensures
        final(s)@ == old(s)@.push(c),
{
    s.push(c);
}

/// Whether a string slice has no characters.
pub fn text_is_empty(s: &str) -> (r: bool)
    ensures
        r == (s@.len() == 0),
{
    s.unicode_len() == 0
}

/// The characters of a string slice, in order.
pub fn chars_of(s: &str) -> (v: Vec<char>)
    ensures
        v@ == s@,
{
    let mut v: Vec<char> = Vec::new();
    for c in it: s.chars()
        invariant
            it.seq() == s@,
            v@ == it.seq().take(it.index() as int),
    {
        v.push(c);
    }
    v
}

// ---------------------------------------------------------------------------
// Decimal rendering of integers
// ---------------------------------------------------------------------------

/// The ASCII digit for `d` (0 <= d < 10).
pub open spec fn digit_char(d: int) -> char {
    (48 + d) as char
}

/// Decimal digits of a natural number, most significant first, no leading zeros.
pub open spec fn nat_digits(n: nat) -> Seq<char>
    decreases n,
{
    if n < 10 {
        seq![digit_char(n as int)]
    } else {
        nat_digits(n / 10) + seq![digit_char((n % 10) as int)]
    }
}

/// Decimal text of an integer as Rust's `Display` writes it: a leading `-` for
/// negative values, then the digits of the magnitude.
pub open spec fn int_decimal(i: int) -> Seq<char> {
    if i < 0 {
        seq!['-'] + nat_digits((-i) as nat)
    } else {
        nat_digits(i as nat)
    }
}

fn digit_of(d: u64) -> (c: char)
    requires
        d < 10,
    ensures
        c == digit_char(d as int),
{
    let b: u8 = 48u8 + (d as u8);
    b as char
}

/// Appends the decimal digits of `n`.
fn push_nat_digits(s: &mut String, n: u64)
    ensures
        final(s)@ == old(s)@ + nat_digits(n as nat),
    decreases n,
{
    if n >= 10 {
        push_nat_digits(s, n / 10);
    }
    let c = digit_of(n % 10);
    push_char(s, c);
    assert(final(s)@ =~= old(s)@ + nat_digits(n as nat));
}

/// Appends the decimal text of `i`.
pub fn push_i32_decimal(s: &mut String, i: i32)
    ensures
        final(s)@ == old(s)@ + int_decimal(i as int),
{
    if i < 0 {
        push_char(s, '-');
        let m: i64 = i as i64;
        let mag: u64 = (0i64 - m) as u64;
        push_nat_digits(s, mag);
        assert(final(s)@ =~= old(s)@ + int_decimal(i as int));
    } else {
        push_nat_digits(s, i as u64);
    }
}

/// Decimal text of `i` (as `i.to_string()` gives it).
pub fn i32_to_string(i: i32) -> (r: String)
    ensures
        r@ == int_decimal(i as int),
{
    let mut s = String::new();
    push_i32_decimal(&mut s, i);
    assert(s@ =~= int_decimal(i as int));
    s
}

// ---------------------------------------------------------------------------
// Character-wise rewriting (quoting and LIKE escaping)
// ---------------------------------------------------------------------------

/// Text of `s` with every single quote doubled.
pub open spec fn double_quotes(s: Seq<char>) -> Seq<char>
    decreases s.len(),
{
    if s.len() == 0 {
        seq![]
    } else {
        double_quotes(s.drop_last()) + (if s.last() == '\'' {
            seq!['\'', '\'']
        } else {
            seq![s.last()]
        })
    }
}

/// A SQL string literal holding `s`: single-quoted, inner quotes doubled.
pub open spec fn sql_quoted(s: Seq<char>) -> Seq<char> {
    seq!['\''] + double_quotes(s) + seq!['\'']
}

/// Whether `c` is special in a LIKE pattern escaped with `$`.
pub open spec fn is_like_special(c: char) -> bool {
    c == '%' || c == '_' || c == '$'
}

/// Whether `s` holds a character that must be escaped in a LIKE pattern.
pub open spec fn like_needs_escape(s: Seq<char>) -> bool {
    exists|i: int| 0 <= i < s.len() && is_like_special(#[trigger] s[i])
}

/// Text of `s` with `$` put before every `%`, `_` and `$`.
pub open spec fn like_escaped(s: Seq<char>) -> Seq<char>
    decreases s.len(),
{
    if s.len() == 0 {
        seq![]
    } else {
        like_escaped(s.drop_last()) + (if is_like_special(s.last()) {
            seq!['$', s.last()]
        } else {
            seq![s.last()]
        })
    }
}

proof fn lemma_take_drop_last<A>(s: Seq<A>, i: int)
    requires
        0 <= i < s.len(),
    ensures
        s.take(i + 1).drop_last() == s.take(i),
        s.take(i + 1).last() == s[i],
{
    assert(s.take(i + 1).drop_last() =~= s.take(i));
}

/// Appends `s` to `out` as a SQL string literal (`'...'`, inner quotes doubled).
pub fn push_sql_quoted(out: &mut String, s: &str)
    ensures
        final(out)@ == old(out)@ + sql_quoted(s@),
{
    let cs = chars_of(s);
    push_char(out, '\'');
    let ghost start = out@;
    let mut i: usize = 0;
    while i < cs.len()
        invariant
            i <= cs@.len(),
            cs@ == s@,
            out@ == start + double_quotes(cs@.take(i as int)),
        decreases cs@.len() - i,
    {
        let c = cs[i];
        proof {
            lemma_take_drop_last(cs@, i as int);
        }
        if c == '\'' {
            push_char(out, '\'');
            push_char(out, '\'');
        } else {
            push_char(out, c);
        }
        assert(out@ =~= start + double_quotes(cs@.take(i + 1)));
        i = i + 1;
    }
    assert(cs@.take(cs@.len() as int) =~= cs@);
    push_char(out, '\'');
    assert(final(out)@ =~= old(out)@ + sql_quoted(s@));
}

/// A SQL string literal holding `s`.
pub fn sql_quote(s: &str) -> (r: String)
    ensures
        r@ == sql_quoted(s@),
{
    let mut r = String::new();
    push_sql_quoted(&mut r, s);
    assert(r@ =~= sql_quoted(s@));
    r
}

/// Whether `s` holds `%`, `_` or `$`, which LIKE matching treats specially.
pub fn like_escape_needed(s: &str) -> (r: bool)
    ensures
        r == like_needs_escape(s@),
{
    let cs = chars_of(s);
    let mut i: usize = 0;
    while i < cs.len()
        invariant
            i <= cs@.len(),
            cs@ == s@,
            forall|j: int| 0 <= j < i ==> !is_like_special(#[trigger] cs@[j]),
        decreases cs@.len() - i,
    {
        let c = cs[i];
        if c == '%' || c == '_' || c == '$' {
            assert(is_like_special(cs@[i as int]));
            return true;
        }
        i = i + 1;
    }
    false
}

/// `s` escaped for a LIKE pattern whose escape character is `$`.
pub fn like_escape(s: &str) -> (r: String)
    ensures
        r@ == like_escaped(s@),
{
    let cs = chars_of(s);
    let mut out = String::new();
    let mut i: usize = 0;
    while i < cs.len()
        invariant
            i <= cs@.len(),
            cs@ == s@,
            out@ == like_escaped(cs@.take(i as int)),
        decreases cs@.len() - i,
    {
        let c = cs[i];
        proof {
            lemma_take_drop_last(cs@, i as int);
        }
        if c == '%' || c == '_' || c == '$' {
            push_char(&mut out, '$');
        }
        push_char(&mut out, c);
        assert(out@ =~= like_escaped(cs@.take(i + 1)));
        i = i + 1;
    }
    assert(cs@.take(cs@.len() as int) =~= cs@);
    out
}

} // verus!
verus! {

// ---------------------------------------------------------------------------
// Integer parsing (as `i32::from_str` does it)
// ---------------------------------------------------------------------------

/// Whether `c` is an ASCII decimal digit.
pub open spec fn is_digit(c: char) -> bool {
    48 <= (c as u32) <= 57
}

/// Whether every character of `s` is an ASCII decimal digit.
pub open spec fn all_digits(s: Seq<char>) -> bool {
    forall|i: int| 0 <= i < s.len() ==> is_digit(#[trigger] s[i])
}

/// The value of a string of decimal digits, most significant first.
pub open spec fn digits_value(s: Seq<char>) -> int
    decreases s.len(),
{
    if s.len() == 0 {
        0
    } else {
        digits_value(s.drop_last()) * 10 + ((s.last() as u32) - 48)
    }
}

/// Whether the text starts with a minus sign.
pub open spec fn has_minus_sign(s: Seq<char>) -> bool {
    s.len() > 0 && s[0] == '-'
}

/// The text without a leading `+` or `-`.
pub open spec fn unsigned_part(s: Seq<char>) -> Seq<char> {
    if s.len() > 0 && (s[0] == '-' || s[0] == '+') {
        s.drop_first()
    } else {
        s
    }
}

/// The `i32` that `s` denotes: an optional `+` or `-`, then one or more ASCII
/// digits, with the value in range; `None` for any other text.
pub open spec fn parse_i32_text(s: Seq<char>) -> Option<i32> {
    let body = unsigned_part(s);
    let v = if has_minus_sign(s) {
        -digits_value(body)
    } else {
        digits_value(body)
    };
    if body.len() > 0 && all_digits(body) && i32::MIN <= v <= i32::MAX {
        Some(v as i32)
    } else {
        None
    }
}

proof fn lemma_digits_value_nonneg(s: Seq<char>)
    requires
        all_digits(s),
    ensures
        digits_value(s) >= 0,
    decreases s.len(),
{
    if s.len() > 0 {
        assert(is_digit(s[s.len() - 1]));
        lemma_digits_value_nonneg(s.drop_last());
    }
}

/// Largest value the parsing accumulator keeps: just above every `i32` magnitude.
const ACC_CAP: i64 = 2147483649;

/// Parses a decimal `i32`; `None` where `i32::from_str` reports an error.
pub fn parse_i32(s: &str) -> (r: Option<i32>)
    ensures
        r == parse_i32_text(s@),
{
    let cs = chars_of(s);
    let n = cs.len();
    let mut start: usize = 0;
    let mut neg = false;
    if n > 0 && (cs[0] == '-' || cs[0] == '+') {
        neg = cs[0] == '-';
        start = 1;
    }
    let ghost body = unsigned_part(s@);
    assert(body =~= cs@.subrange(start as int, n as int));
    if start == n {
        assert(parse_i32_text(s@) is None);
        return None;
    }
    let mut acc: i64 = 0;
    let mut i: usize = start;
    while i < n
        invariant
            start <= i <= n,
            n == cs@.len(),
            cs@ == s@,
            body == cs@.subrange(start as int, n as int),
            body == unsigned_part(s@),
            all_digits(body.take(i - start)),
            0 <= acc <= ACC_CAP,
            digits_value(body.take(i - start)) >= 0,
            acc == (if digits_value(body.take(i - start)) < ACC_CAP {
                digits_value(body.take(i - start))
            } else {
                ACC_CAP as int
            }),
        decreases n - i,
    {
        let c = cs[i];
        let code = c as u32;
        let ghost k: int = i - start;
        assert(body[k] == c);
        assert(body.take(k + 1).drop_last() =~= body.take(k));
        assert(body.take(k + 1).last() == c);
        if code < 48 || code > 57 {
            assert(!is_digit(c));
            assert(!all_digits(body)) by {
                assert(!is_digit(body[k]));
            }
            assert(parse_i32_text(s@) is None);
            return None;
        }
        let d: i64 = (code - 48) as i64;
        let next: i64 = acc * 10 + d;
        if next > ACC_CAP {
            acc = ACC_CAP;
        } else {
            acc = next;
        }
        assert(all_digits(body.take(k + 1))) by {
            assert forall|j: int| 0 <= j < k + 1 implies is_digit(#[trigger] body.take(k + 1)[j]) by {
                if j < k {
                    assert(body.take(k + 1)[j] == body.take(k)[j]);
                }
            }
        }
        i = i + 1;
    }
    assert(body.take(n - start) =~= body);
    proof {
        lemma_digits_value_nonneg(body);
    }
    assert(has_minus_sign(s@) == neg);
    if neg {
        if acc > 2147483648 {
            assert(parse_i32_text(s@) is None);
            None
        } else {
            Some((0 - acc) as i32)
        }
    } else {
        if acc > 2147483647 {
            assert(parse_i32_text(s@) is None);
            None
        } else {
            Some(acc as i32)
        }
    }
}

// ---------------------------------------------------------------------------
// Substring replacement (as `str::replace` does it)
// ---------------------------------------------------------------------------

/// `s` with every non-overlapping occurrence of `pat`, scanned from the left,
/// replaced by `rep`.
pub open spec fn replace_all(s: Seq<char>, pat: Seq<char>, rep: Seq<char>) -> Seq<char>
    decreases s.len(),
{
    if pat.len() == 0 || s.len() < pat.len() {
        s
    } else if s.take(pat.len() as int) == pat {
        rep + replace_all(s.skip(pat.len() as int), pat, rep)
    } else {
        seq![s[0]] + replace_all(s.skip(1), pat, rep)
    }
}

fn matches_at(cs: &Vec<char>, i: usize, pat: &Vec<char>) -> (r: bool)
    requires
        i + pat@.len() <= cs@.len(),
    ensures
        r == (cs@.skip(i as int).take(pat@.len() as int) == pat@),
{
    let mut j: usize = 0;
    while j < pat.len()
        invariant
            j <= pat@.len(),
            i + pat@.len() <= cs.len(),
            forall|k: int| 0 <= k < j ==> cs@[i + k] == pat@[k],
        decreases pat@.len() - j,
    {
        assert(i + j < cs.len());
        let ij: usize = i + j;
        if cs[ij] != pat[j] {
            assert(cs@.skip(i as int).take(pat@.len() as int)[j as int] != pat@[j as int]);
            return false;
        }
        j = j + 1;
    }
    assert(cs@.skip(i as int).take(pat@.len() as int) =~= pat@);
    true
}

/// `s` with every occurrence of the non-empty `pat` replaced by `rep`.
pub(crate) fn replace_text(s: &str, pat: &str, rep: &str) -> (r: String)
    requires
        pat@.len() > 0,
    ensures
        r@ == replace_all(s@, pat@, rep@),
{
    let cs = chars_of(s);
    let ps = chars_of(pat);
    let mut out = String::new();
    let mut i: usize = 0;
    assert(cs@.skip(0) =~= cs@);
    assert(out@ + replace_all(cs@.skip(0), pat@, rep@) =~= replace_all(s@, pat@, rep@));
    while i < cs.len()
        invariant
            i <= cs@.len(),
            cs@ == s@,
            ps@ == pat@,
            ps@.len() > 0,
            replace_all(s@, pat@, rep@) == out@ + replace_all(cs@.skip(i as int), pat@, rep@),
        decreases cs@.len() - i,
    {
        let ghost rest = cs@.skip(i as int);
        let ghost before = out@;
        if ps.len() <= cs.len() - i && matches_at(&cs, i, &ps) {
            out.append(rep);
            assert(rest.skip(ps@.len() as int) =~= cs@.skip(i + ps@.len()));
            assert(before + replace_all(rest, pat@, rep@) =~= out@ + replace_all(cs@.skip(i + ps@.len()), pat@, rep@));
            i = i + ps.len();
        } else {
            push_char(&mut out, cs[i]);
            assert(rest.skip(1) =~= cs@.skip(i + 1));
            assert(rest[0] == cs@[i as int]);
            assert(before + replace_all(rest, pat@, rep@) =~= out@ + replace_all(cs@.skip(i + 1), pat@, rep@));
            i = i + 1;
        }
    }
    assert(cs@.skip(cs@.len() as int) =~= Seq::<char>::empty());
    assert(out@ + Seq::<char>::empty() =~= out@);
    out
}

} // verus!
verus! {

// ---------------------------------------------------------------------------
// Laws of the text helpers
// ---------------------------------------------------------------------------

/// Reads back a text produced by `double_quotes`: a trailing pair of quotes
/// stands for one quote.
pub open spec fn undouble_quotes(s: Seq<char>) -> Seq<char>
    decreases s.len(),
{
    if s.len() == 0 {
        seq![]
    } else if s.last() == '\'' && s.len() >= 2 {
        undouble_quotes(s.subrange(0, s.len() - 2)) + seq!['\'']
    } else {
        undouble_quotes(s.drop_last()) + seq![s.last()]
    }
}

/// Reads back a text produced by `like_escaped`: a special character is
/// preceded by its `$`.
pub open spec fn like_unescaped(s: Seq<char>) -> Seq<char>
    decreases s.len(),
{
    if s.len() == 0 {
        seq![]
    } else if is_like_special(s.last()) && s.len() >= 2 {
        like_unescaped(s.subrange(0, s.len() - 2)) + seq![s.last()]
    } else {
        like_unescaped(s.drop_last()) + seq![s.last()]
    }
}

/// Quoting for SQL loses nothing: doubling the quotes of any text and reading
/// the pairs back gives the text again, so distinct values give distinct literals.
pub proof fn law_sql_quoting_reversible(s: Seq<char>)
    ensures
        undouble_quotes(double_quotes(s)) == s,
    decreases s.len(),
{
    if s.len() > 0 {
        law_sql_quoting_reversible(s.drop_last());
        let d = double_quotes(s);
        let p = double_quotes(s.drop_last());
        if s.last() == '\'' {
            assert(d.subrange(0, d.len() - 2) =~= p);
        } else {
            assert(d.drop_last() =~= p);
        }
        assert(s.drop_last() + seq![s.last()] =~= s);
    }
}

/// LIKE escaping loses nothing: reading the escaped text back gives the
/// original text.
pub proof fn law_like_escape_reversible(s: Seq<char>)
    ensures
        like_unescaped(like_escaped(s)) == s,
    decreases s.len(),
{
    if s.len() > 0 {
        law_like_escape_reversible(s.drop_last());
        let d = like_escaped(s);
        let p = like_escaped(s.drop_last());
        if is_like_special(s.last()) {
            assert(d.subrange(0, d.len() - 2) =~= p);
        } else {
            assert(d.drop_last() =~= p);
        }
        assert(s.drop_last() + seq![s.last()] =~= s);
    }
}

/// After escaping, no special character stands without its `$`: every `%`
/// and `_` in the escaped text is preceded by `$`.
pub proof fn law_like_escape_guards_wildcards(s: Seq<char>, i: int)
    requires
        0 <= i < like_escaped(s).len(),
        like_escaped(s)[i] == '%' || like_escaped(s)[i] == '_',
    ensures
        i > 0 && like_escaped(s)[i - 1] == '$',
    decreases s.len(),
{
    if s.len() > 0 {
        let p = like_escaped(s.drop_last());
        if i < p.len() {
            law_like_escape_guards_wildcards(s.drop_last(), i);
        }
    }
}

proof fn lemma_nat_digits(n: nat)
    ensures
        nat_digits(n).len() > 0,
        all_digits(nat_digits(n)),
        digits_value(nat_digits(n)) == n,
        is_digit(nat_digits(n)[0]),
    decreases n,
{
    let d = (n % 10) as int;
    assert(0 <= d < 10);
    assert((digit_char(d) as u32) == 48 + d);
    let s0 = nat_digits(n);
    assert(s0.last() == digit_char(d)) by {
        if n < 10 {
            assert(d == n);
        }
    }
    if n < 10 {
        assert(s0.drop_last() =~= Seq::<char>::empty());
        assert(digits_value(Seq::<char>::empty()) == 0);
        assert(digits_value(s0) == digits_value(s0.drop_last()) * 10 + ((s0.last() as u32) - 48));
    }
    if n >= 10 {
        lemma_nat_digits(n / 10);
        assert((n / 10) * 10 + n % 10 == n);
        let a = nat_digits(n / 10);
        let s = nat_digits(n);
        assert(s.drop_last() =~= a);
        assert forall|i: int| 0 <= i < s.len() implies is_digit(#[trigger] s[i]) by {
            if i < a.len() {
                assert(s[i] == a[i]);
            }
        }
        assert(s[0] == a[0]);
    }
}

/// Printing an `i32` in decimal and parsing the text gives the same `i32`.
pub proof fn law_decimal_roundtrip(i: i32)
    ensures
        parse_i32_text(int_decimal(i as int)) == Some(i),
{
    let t = int_decimal(i as int);
    if i < 0 {
        lemma_nat_digits((-i) as nat);
        assert(t.drop_first() =~= nat_digits((-i) as nat));
    } else {
        lemma_nat_digits(i as nat);
    }
}

} // verus!
