//! Character-level helpers shared by the parsers of this crate.

use vstd::prelude::*;
use vstd::std_specs::iter::IteratorSpec;

verus! {

/// The characters that separate tokens: space, tab, line feed, form feed and
/// carriage return.
pub open spec fn is_ascii_space(c: char) -> bool {
    c == ' ' || c == '\t' || c == '\n' || c == '\x0C' || c == '\r'
}

/// Decides `is_ascii_space` at run time.
pub fn ascii_space(c: char) -> (r: bool)
    ensures
        r == is_ascii_space(c),
{
    c == ' ' || c == '\t' || c == '\n' || c == '\x0C' || c == '\r'
}

/// The characters of `s`, in order.
pub fn chars_of(s: &str) -> (r: Vec<char>)
    ensures
        r@ == s@,
{
    let mut it = s.chars();
    let mut out: Vec<char> = Vec::new();
    loop
        invariant
            out@ + it.remaining() == s@,
            it.obeys_prophetic_iter_laws(),
        ensures
            out@ == s@,
        decreases s@.len() - out@.len(),
    {
        match it.next() {
            Some(c) => {
                out.push(c);
            },
            None => {
                break;
            },
        }
    }
    out
}

/// `String::push` appends the character to the end of the string.
pub assume_specification[ String::push ](text: &mut String, c: char)
    ensures
        final(text)@ == old(text)@.push(c),
;

/// The decimal digit of a number below ten.
pub open spec fn digit_char(d: nat) -> char
    recommends
        d < 10,
{
    if d == 0 {
        '0'
    } else if d == 1 {
        '1'
    } else if d == 2 {
        '2'
    } else if d == 3 {
        '3'
    } else if d == 4 {
        '4'
    } else if d == 5 {
        '5'
    } else if d == 6 {
        '6'
    } else if d == 7 {
        '7'
    } else if d == 8 {
        '8'
    } else {
        '9'
    }
}

/// A natural number in decimal, without leading zeros.
pub open spec fn decimal(n: nat) -> Seq<char>
    decreases n,
{
    if n < 10 {
        seq![digit_char(n)]
    } else {
        decimal(n / 10).push(digit_char(n % 10))
    }
}

/// An integer in decimal, with a minus sign where it is negative.
pub open spec fn signed_decimal(n: int) -> Seq<char> {
    if n < 0 {
        seq!['-'] + decimal((-n) as nat)
    } else {
        decimal(n as nat)
    }
}

fn digit_of(d: u64) -> (r: char)
    requires
        d < 10,
    ensures
        r == digit_char(d as nat),
{
    if d == 0 {
        '0'
    } else if d == 1 {
        '1'
    } else if d == 2 {
        '2'
    } else if d == 3 {
        '3'
    } else if d == 4 {
        '4'
    } else if d == 5 {
        '5'
    } else if d == 6 {
        '6'
    } else if d == 7 {
        '7'
    } else if d == 8 {
        '8'
    } else {
        '9'
    }
}

/// Appends the decimal form of `n` to `out`.
pub fn push_decimal(out: &mut String, n: u64)
    ensures
        final(out)@ == old(out)@ + decimal(n as nat),
    decreases n,
{
    if n < 10 {
        out.push(digit_of(n));
        assert(old(out)@.push(digit_char(n as nat)) =~= old(out)@ + decimal(n as nat));
    } else {
        push_decimal(out, n / 10);
        out.push(digit_of(n % 10));
        assert((old(out)@ + decimal((n / 10) as nat)).push(digit_char((n % 10) as nat)) =~= old(
            out,
        )@ + decimal(n as nat));
    }
}

/// Appends the decimal form of `n` to `out`.
pub fn push_signed_decimal(out: &mut String, n: i64)
    ensures
        final(out)@ == old(out)@ + signed_decimal(n as int),
{
    if n < 0 {
        let magnitude: u64 = if n == i64::MIN {
            9223372036854775808u64
        } else {
            (-n) as u64
        };
        out.push('-');
        push_decimal(out, magnitude);
        assert(old(out)@.push('-') + decimal(magnitude as nat) =~= old(out)@ + (seq!['-']
            + decimal((-n) as nat)));
    } else {
        push_decimal(out, n as u64);
    }
}

/// `s` without the separators at its end.
pub open spec fn trim_end(s: Seq<char>) -> Seq<char>
    decreases s.len(),
{
    if s.len() == 0 || !is_ascii_space(s.last()) {
        s
    } else {
        trim_end(s.drop_last())
    }
}

/// The longest run of characters at the end of `s` that holds no separator.
pub open spec fn trailing_word(s: Seq<char>) -> Seq<char>
    decreases s.len(),
{
    if s.len() == 0 || is_ascii_space(s.last()) {
        Seq::empty()
    } else {
        trailing_word(s.drop_last()).push(s.last())
    }
}

/// The last of the pieces that the separators cut `s` into, if there is one.
pub open spec fn last_token(s: Seq<char>) -> Option<Seq<char>> {
    let word = trailing_word(trim_end(s));
    if word.len() == 0 {
        None
    } else {
        Some(word)
    }
}

/// A token is never empty and holds no separator, and a text has none exactly
/// when it is made of separators alone.
pub proof fn lemma_last_token(s: Seq<char>)
    ensures
        last_token(s) matches Some(t) ==> t.len() > 0 && forall|i: int|
            0 <= i < t.len() ==> !is_ascii_space(#[trigger] t[i]),
        last_token(s) is None <==> forall|i: int| 0 <= i < s.len() ==> is_ascii_space(#[trigger] s[i]),
{
    lemma_trailing_word(trim_end(s));
    lemma_trim_end(s);
}

proof fn lemma_trailing_word(s: Seq<char>)
    ensures
        forall|i: int|
            0 <= i < trailing_word(s).len() ==> !is_ascii_space(#[trigger] trailing_word(s)[i]),
        trailing_word(s).len() == 0 <==> (s.len() == 0 || is_ascii_space(s.last())),
    decreases s.len(),
{
    if s.len() == 0 || is_ascii_space(s.last()) {
    } else {
        lemma_trailing_word(s.drop_last());
    }
}

proof fn lemma_trim_end(s: Seq<char>)
    ensures
        trim_end(s).len() == 0 || !is_ascii_space(trim_end(s).last()),
        trim_end(s).len() == 0 <==> forall|i: int|
            0 <= i < s.len() ==> is_ascii_space(#[trigger] s[i]),
    decreases s.len(),
{
    if s.len() == 0 || !is_ascii_space(s.last()) {
    } else {
        lemma_trim_end(s.drop_last());
        let d = s.drop_last();
        if forall|i: int| 0 <= i < d.len() ==> is_ascii_space(#[trigger] d[i]) {
            assert forall|i: int| 0 <= i < s.len() implies is_ascii_space(#[trigger] s[i]) by {
                if i < d.len() {
                    assert(d[i] == s[i]);
                }
            }
        } else {
            let k = choose|k: int| 0 <= k < d.len() && !is_ascii_space(#[trigger] d[k]);
            assert(s[k] == d[k]);
        }
    }
}

/// Finds the last token of `chars` from position `from` on: the positions of its
/// first character and of the one behind its last.
pub fn last_token_span(chars: &Vec<char>, from: usize) -> (r: Option<(usize, usize)>)
    requires
        from <= chars.len(),
    ensures
        match r {
            Some((a, b)) => from <= a < b <= chars.len() && last_token(chars@.skip(from as int))
                == Some(chars@.subrange(a as int, b as int)),
            None => last_token(chars@.skip(from as int)) is None,
        },
{
    let ghost rest = chars@.skip(from as int);
    let mut end: usize = chars.len();
    assert(chars@.subrange(from as int, end as int) == rest);
    while end > from && ascii_space(chars[end - 1])
        invariant
            from <= end <= chars.len(),
            trim_end(rest) == trim_end(chars@.subrange(from as int, end as int)),
        decreases end,
    {
        assert(chars@.subrange(from as int, end as int).drop_last() == chars@.subrange(
            from as int,
            end - 1,
        ));
        end = end - 1;
    }
    let ghost trimmed = chars@.subrange(from as int, end as int);
    assert(trim_end(rest) == trimmed);
    let mut start: usize = end;
    assert(chars@.subrange(start as int, end as int) == Seq::<char>::empty());
    assert(trailing_word(trimmed) + Seq::<char>::empty() == trailing_word(trimmed));
    while start > from && !ascii_space(chars[start - 1])
        invariant
            from <= start <= end <= chars.len(),
            trimmed == chars@.subrange(from as int, end as int),
            trailing_word(trimmed) == trailing_word(chars@.subrange(from as int, start as int))
                + chars@.subrange(start as int, end as int),
        decreases start,
    {
        let ghost head = chars@.subrange(from as int, start as int);
        assert(head.drop_last() == chars@.subrange(from as int, start - 1));
        assert(trailing_word(head.drop_last()).push(head.last()) + chars@.subrange(
            start as int,
            end as int,
        ) == trailing_word(head.drop_last()) + chars@.subrange(start - 1, end as int));
        start = start - 1;
    }
    assert(trailing_word(chars@.subrange(from as int, start as int)) == Seq::<char>::empty());
    assert(trailing_word(trimmed) == chars@.subrange(start as int, end as int));
    if start < end {
        Some((start, end))
    } else {
        None
    }
}

} // verus!
