use vstd::prelude::*;

verus! {

/// Relies on `String::push`: appends one character at the end.
#[verifier::external_body]
pub(crate) fn push_char(s: &mut String, c: char)
    ensures
        final(s)@ == old(s)@.push(c),
{
    s.push(c)
}

/// Relies on `String::push_str`: appends the characters of `t` at the end.
#[verifier::external_body]
pub(crate) fn push_text(s: &mut String, t: &str)
    ensures
        final(s)@ == old(s)@ + t@,
{
    s.push_str(t)
}

/// The character of a decimal digit.
pub open spec fn digit_char(d: nat) -> char
    recommends
        d < 10,
{
    (('0' as u32) + d) as char
}

/// The decimal numeral of `n`, without leading zeros.
pub open spec fn decimal(n: nat) -> Seq<char>
    decreases n,
{
    if n < 10 {
        seq![digit_char(n)]
    } else {
        decimal(n / 10).push(digit_char(n % 10))
    }
}

/// Appends the decimal numeral of `n` to `s`.
pub fn push_decimal(s: &mut String, n: u64)
    ensures
        final(s)@ == old(s)@ + decimal(n as nat),
    decreases n,
{
    if n >= 10 {
        push_decimal(s, n / 10);
    }
    let d: u64 = n % 10;
    let c = ((('0' as u32) + (d as u32)) as u8) as char;
    assert(c == digit_char(d as nat));
    push_char(s, c);
    assert(s@ == old(s)@ + decimal(n as nat));
}

/// The numeral of `n` as a string.
pub fn decimal_text(n: u64) -> (r: String)
    ensures
        r@ == decimal(n as nat),
{
    let mut s = String::new();
    push_decimal(&mut s, n);
    assert(s@ =~= decimal(n as nat));
    s
}

/// A symbol name with one pair of enclosing quoting bars removed, if it has them.
pub open spec fn scrubbed(s: Seq<char>) -> Seq<char> {
    if s.len() >= 2 && s[0] == '|' && s[s.len() - 1] == '|' {
        s.subrange(1, s.len() - 1)
    } else if s.len() == 1 && s[0] == '|' {
        Seq::empty()
    } else {
        s
    }
}

/// Removes one pair of quoting bars around a symbol name, so that `|x|` and `x`
/// are looked up alike.
pub fn scrub_variable_name(variable_name: String) -> (r: String)
    ensures
        r@ == scrubbed(variable_name@),
{
    let n = variable_name.as_str().unicode_len();
    if n >= 1 && variable_name.as_str().get_char(0) == '|' && variable_name.as_str().get_char(n - 1) == '|' {
        if n == 1 {
            String::new()
        } else {
            variable_name.as_str().substring_char(1, n - 1).to_owned()
        }
    } else {
        variable_name
    }
}

} // verus!
