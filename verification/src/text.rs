use vstd::prelude::*;
use vstd::string::StrSliceExecFns;
use vstd::string::StringExecFns;

verus! {

/// Relies on `String::push`: appends one character at the end.
#[verifier::external_body]
pub fn push_char(s: &mut String, c: char)
    ensures
        final(s)@ == old(s)@.push(c),
{
    s.push(c)
}

/// Removes the last character of the buffer, if any: the single editing
/// point of insert mode.
pub fn trim_last_char(s: &String) -> (r: String)
    ensures
        s@.len() == 0 ==> r@ == Seq::<char>::empty(),
        s@.len() > 0 ==> r@ == s@.drop_last(),
{
    let n = s.as_str().unicode_len();
    if n == 0 {
        String::new()
    } else {
        let cut = s.as_str().substring_char(0, n - 1);
        assert(cut@ =~= s@.drop_last());
        String::from_str(cut)
    }
}

/// A string of `n` copies of `c`.
pub fn repeat_char(c: char, n: usize) -> (r: String)
    ensures
        r@ =~= Seq::new(n as nat, |i: int| c),
{
    let mut out = String::new();
    let mut i: usize = 0;
    while i < n
        invariant
            i <= n,
            out@ =~= Seq::new(i as nat, |j: int| c),
        decreases n - i,
    {
        push_char(&mut out, c);
        i = i + 1;
    }
    out
}

/// The mathematical contents of a sequence of strings: each string as
/// its sequence of characters.
pub open spec fn strings_view(s: Seq<String>) -> Seq<Seq<char>> {
    Seq::new(s.len(), |i: int| s[i]@)
}

pub proof fn lemma_strings_view_push(s: Seq<String>, x: String)
    ensures
        strings_view(s.push(x)) =~= strings_view(s).push(x@),
{
}

pub proof fn lemma_strings_view_remove(s: Seq<String>, i: int)
    requires
        0 <= i < s.len(),
    ensures
        strings_view(s.remove(i)) =~= strings_view(s).remove(i),
{
}

pub proof fn lemma_strings_view_insert(s: Seq<String>, i: int, x: String)
    requires
        0 <= i <= s.len(),
    ensures
        strings_view(s.insert(i, x)) =~= strings_view(s).insert(i, x@),
{
}

pub proof fn lemma_strings_view_update(s: Seq<String>, i: int, x: String)
    requires
        0 <= i < s.len(),
    ensures
        strings_view(s.update(i, x)) =~= strings_view(s).update(i, x@),
{
}

/// The character for one decimal digit.
pub open spec fn spec_digit_char(d: int) -> char {
    if d == 0 { '0' }
    else if d == 1 { '1' }
    else if d == 2 { '2' }
    else if d == 3 { '3' }
    else if d == 4 { '4' }
    else if d == 5 { '5' }
    else if d == 6 { '6' }
    else if d == 7 { '7' }
    else if d == 8 { '8' }
    else { '9' }
}

pub fn digit_char(d: usize) -> (c: char)
    requires
        d < 10,
    ensures
        c == spec_digit_char(d as int),
{
    match d {
        0 => '0',
        1 => '1',
        2 => '2',
        3 => '3',
        4 => '4',
        5 => '5',
        6 => '6',
        7 => '7',
        8 => '8',
        _ => '9',
    }
}

/// The usual decimal notation of `n`, most significant digit first,
/// without leading zeros (a single zero for 0).
pub open spec fn spec_decimal(n: int) -> Seq<char>
    decreases n,
{
    if n < 10 {
        seq![spec_digit_char(n)]
    } else {
        spec_decimal(n / 10).push(spec_digit_char(n % 10))
    }
}

pub fn usize_to_string(n: usize) -> (r: String)
    ensures
        r@ == spec_decimal(n as int),
    decreases n,
{
    if n < 10 {
        let mut out = String::new();
        push_char(&mut out, digit_char(n));
        assert(out@ =~= seq![spec_digit_char(n as int)]);
        out
    } else {
        let mut out = usize_to_string(n / 10);
        push_char(&mut out, digit_char(n % 10));
        out
    }
}

} // verus!
