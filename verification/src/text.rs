//! Text as sequences of characters: reading a `str` out, building a `String` back.

use vstd::prelude::*;
use vstd::string::*;

verus! {

/// Appends one character. A thin wrapper over `String::push`.
#[verifier::external_body]
pub(crate) fn push_char(s: &mut String, c: char)
    ensures
        final(s)@ == old(s)@.push(c),
{
    s.push(c);
}

/// The characters of `s`, in order.
pub fn chars_of(s: &str) -> (out: Vec<char>)
    ensures
        out@ == s@,
{
    let n = s.unicode_len();
    let mut out: Vec<char> = Vec::new();
    let mut i: usize = 0;
    while i < n
        invariant
            n == s@.len(),
            i <= n,
            out@ == s@.subrange(0, i as int),
        decreases n - i,
    {
        out.push(s.get_char(i));
        i = i + 1;
        proof {
            assert(out@ =~= s@.subrange(0, i as int));
        }
    }
    proof {
        assert(out@ =~= s@);
    }
    out
}

/// Appends every character of `chars` to `s`.
pub fn push_all(s: &mut String, chars: &[char])
    ensures
        final(s)@ == old(s)@ + chars@,
{
    let mut i: usize = 0;
    while i < chars.len()
        invariant
            i <= chars@.len(),
            s@ == old(s)@ + chars@.subrange(0, i as int),
        decreases chars@.len() - i,
    {
        push_char(s, chars[i]);
        i = i + 1;
        proof {
            assert(s@ =~= old(s)@ + chars@.subrange(0, i as int));
        }
    }
    proof {
        assert(chars@.subrange(0, i as int) =~= chars@);
    }
}

/// A `String` holding exactly `chars`.
pub fn string_of(chars: &[char]) -> (s: String)
    ensures
        s@ == chars@,
{
    let mut s = String::new();
    push_all(&mut s, chars);
    proof {
        assert(Seq::<char>::empty() + chars@ =~= chars@);
    }
    s
}

/// Appends every character of `text` to `s`.
pub fn push_str(s: &mut String, text: &str)
    ensures
        final(s)@ == old(s)@ + text@,
{
    let chars = chars_of(text);
    push_all(s, chars.as_slice());
}

/// The first `n` characters of `chars`.
pub fn prefix_of(chars: &[char], n: usize) -> (out: Vec<char>)
    requires
        n <= chars@.len(),
    ensures
        out@ == chars@.subrange(0, n as int),
{
    let mut out: Vec<char> = Vec::new();
    let mut i: usize = 0;
    while i < n
        invariant
            n <= chars@.len(),
            i <= n,
            out@ == chars@.subrange(0, i as int),
        decreases n - i,
    {
        out.push(chars[i]);
        i = i + 1;
        proof {
            assert(out@ =~= chars@.subrange(0, i as int));
        }
    }
    out
}

/// An owned copy of `text`.
pub fn owned(text: &str) -> (s: String)
    ensures
        s@ == text@,
{
    let chars = chars_of(text);
    string_of(chars.as_slice())
}

/// Whether `s` is exactly `text`, compared character by character.
pub fn str_eq(s: &str, text: &str) -> (same: bool)
    ensures
        same == (s@ == text@),
{
    let a = chars_of(s);
    let b = chars_of(text);
    chars_eq(a.as_slice(), b.as_slice())
}

/// Whether two character sequences are equal.
pub fn chars_eq(a: &[char], b: &[char]) -> (same: bool)
    ensures
        same == (a@ == b@),
{
    if a.len() != b.len() {
        return false;
    }
    let mut i: usize = 0;
    while i < a.len()
        invariant
            a@.len() == b@.len(),
            i <= a@.len(),
            forall|k: int| 0 <= k < i ==> a@[k] == b@[k],
        decreases a@.len() - i,
    {
        if a[i] != b[i] {
            return false;
        }
        i = i + 1;
    }
    proof {
        assert(a@ =~= b@);
    }
    true
}

/// Whether `a` ends with `suffix`.
pub open spec fn spec_ends_with(a: Seq<char>, suffix: Seq<char>) -> bool {
    suffix.len() <= a.len() && a.subrange(a.len() - suffix.len(), a.len() as int) == suffix
}

/// Whether `a` ends with `suffix`, compared character by character.
pub fn ends_with(a: &[char], suffix: &[char]) -> (res: bool)
    ensures
        res == spec_ends_with(a@, suffix@),
{
    if suffix.len() > a.len() {
        return false;
    }
    let n = a.len();
    let offset = n - suffix.len();
    let mut i: usize = 0;
    while i < suffix.len()
        invariant
            n == a@.len(),
            offset + suffix@.len() == a@.len(),
            i <= suffix@.len(),
            forall|k: int| 0 <= k < i ==> a@[offset + k] == suffix@[k],
        decreases suffix@.len() - i,
    {
        if a[offset + i] != suffix[i] {
            proof {
                assert(a@.subrange(offset as int, a@.len() as int)[i as int] != suffix@[i as int]);
            }
            return false;
        }
        i = i + 1;
    }
    proof {
        assert(a@.subrange(offset as int, a@.len() as int) =~= suffix@);
    }
    true
}

/// Whether `a` contains the character `c`.
pub fn contains_char(a: &[char], c: char) -> (res: bool)
    ensures
        res == a@.contains(c),
{
    let mut i: usize = 0;
    while i < a.len()
        invariant
            i <= a@.len(),
            forall|k: int| 0 <= k < i ==> a@[k] != c,
        decreases a@.len() - i,
    {
        if a[i] == c {
            proof {
                assert(a@[i as int] == c);
            }
            return true;
        }
        i = i + 1;
    }
    false
}

/// Lexicographic order on characters by code point, a proper prefix first; the order
/// `str` comparison gives.
pub open spec fn lex_lt(a: Seq<char>, b: Seq<char>) -> bool
    decreases a.len(),
{
    if a.len() == 0 {
        b.len() > 0
    } else if b.len() == 0 {
        false
    } else if a[0] < b[0] {
        true
    } else if a[0] > b[0] {
        false
    } else {
        lex_lt(a.drop_first(), b.drop_first())
    }
}

/// The order is strict and total: never both ways, and one way between different texts.
pub proof fn lemma_lex_strict_total(a: Seq<char>, b: Seq<char>)
    ensures
        !(lex_lt(a, b) && lex_lt(b, a)),
        !lex_lt(a, a),
        a != b ==> lex_lt(a, b) || lex_lt(b, a),
    decreases a.len(),
{
    if a.len() > 0 && b.len() > 0 {
        lemma_lex_strict_total(a.drop_first(), b.drop_first());
        lemma_lex_strict_total(a.drop_first(), a.drop_first());
        if a != b && a[0] == b[0] {
            assert(a == seq![a[0]] + a.drop_first());
            assert(b == seq![b[0]] + b.drop_first());
        }
    } else if a.len() > 0 {
        lemma_lex_strict_total(a.drop_first(), a.drop_first());
    } else if b.len() > 0 {
    } else {
        assert(a =~= b);
    }
}

/// The order is transitive.
pub proof fn lemma_lex_transitive(a: Seq<char>, b: Seq<char>, c: Seq<char>)
    requires
        lex_lt(a, b),
        lex_lt(b, c),
    ensures
        lex_lt(a, c),
    decreases a.len(),
{
    if a.len() > 0 && b.len() > 0 && c.len() > 0 && a[0] == b[0] && b[0] == c[0] {
        lemma_lex_transitive(a.drop_first(), b.drop_first(), c.drop_first());
    }
}

/// Not before, twice over, is not before: what a stable sort needs of its order.
pub proof fn lemma_lex_not_lt_transitive(a: Seq<char>, b: Seq<char>, c: Seq<char>)
    requires
        !lex_lt(a, b),
        !lex_lt(b, c),
    ensures
        !lex_lt(a, c),
{
    lemma_lex_strict_total(a, b);
    lemma_lex_strict_total(b, c);
    lemma_lex_strict_total(a, c);
    if lex_lt(a, c) {
        if a != b && b != c {
            lemma_lex_transitive(c, b, a);
        }
    }
}

/// Whether `a` sorts before `b`.
pub fn lex_less(a: &[char], b: &[char]) -> (less: bool)
    ensures
        less == lex_lt(a@, b@),
{
    let mut i: usize = 0;
    proof {
        assert(a@.skip(0) =~= a@);
        assert(b@.skip(0) =~= b@);
    }
    while i < a.len() && i < b.len() && a[i] == b[i]
        invariant
            i <= a@.len(),
            i <= b@.len(),
            lex_lt(a@, b@) == lex_lt(a@.skip(i as int), b@.skip(i as int)),
        decreases a@.len() - i,
    {
        proof {
            assert(a@.skip(i as int).drop_first() =~= a@.skip(i + 1));
            assert(b@.skip(i as int).drop_first() =~= b@.skip(i + 1));
        }
        i = i + 1;
    }
    if i == a.len() {
        i < b.len()
    } else if i == b.len() {
        false
    } else {
        a[i] < b[i]
    }
}

/// The decimal digit `d` as a character.
pub open spec fn digit_char(d: nat) -> char {
    (48 + d) as char
}

/// `n` written in decimal, without leading zeros.
pub open spec fn decimal(n: nat) -> Seq<char>
    decreases n,
{
    if n < 10 {
        seq![digit_char(n)]
    } else {
        decimal(n / 10).push(digit_char(n % 10))
    }
}

/// `n` in decimal, at least two digits.
pub open spec fn two_digits(n: nat) -> Seq<char> {
    if n < 10 {
        seq!['0'] + decimal(n)
    } else {
        decimal(n)
    }
}

fn digit(d: u64) -> (c: char)
    requires
        d < 10,
    ensures
        c == digit_char(d as nat),
{
    if d == 0 {
        '0'
    } else if d == 1 {
        '1'
    } else if d == 2 {
        '2'
    } else if d == 3 {
        '3'
    } else if d == 4 {
        '4'
    } else if d == 5 {
        '5'
    } else if d == 6 {
        '6'
    } else if d == 7 {
        '7'
    } else if d == 8 {
        '8'
    } else {
        '9'
    }
}

/// Appends `n` in decimal.
pub fn push_decimal(s: &mut String, n: u64)
    ensures
        final(s)@ == old(s)@ + decimal(n as nat),
    decreases n,
{
    if n >= 10 {
        push_decimal(s, n / 10);
    }
    push_char(s, digit(n % 10));
    proof {
        assert(s@ =~= old(s)@ + decimal(n as nat));
    }
}

/// Appends `n` in decimal, at least two digits.
pub fn push_two_digits(s: &mut String, n: u64)
    ensures
        final(s)@ == old(s)@ + two_digits(n as nat),
{
    if n < 10 {
        push_char(s, '0');
    }
    push_decimal(s, n);
    proof {
        assert(s@ =~= old(s)@ + two_digits(n as nat));
    }
}

/// `n` in decimal with a minus sign when negative.
pub open spec fn signed_decimal(n: int) -> Seq<char> {
    if n < 0 {
        "-"@ + decimal((-n) as nat)
    } else {
        decimal(n as nat)
    }
}

/// Appends `n` in decimal, with a minus sign when negative.
pub fn push_signed(s: &mut String, n: i64)
    ensures
        final(s)@ == old(s)@ + signed_decimal(n as int),
{
    if n < 0 {
        push_str(s, "-");
        let magnitude: u64 = (0i128 - (n as i128)) as u64;
        push_decimal(s, magnitude);
        proof {
            reveal_strlit("-");
            assert(s@ =~= old(s)@ + signed_decimal(n as int));
        }
    } else {
        push_decimal(s, n as u64);
    }
}

/// The pieces of `s` between newlines, as `str::split('\n')` yields them: always at least
/// one, and an empty piece wherever two newlines meet or one ends the text.
pub open spec fn fields(s: Seq<char>) -> Seq<Seq<char>>
    decreases s.len(),
{
    if s.len() == 0 {
        seq![Seq::empty()]
    } else {
        let before = fields(s.drop_last());
        if s.last() == '\n' {
            before.push(Seq::empty())
        } else {
            before.update(before.len() - 1, before.last().push(s.last()))
        }
    }
}

proof fn lemma_fields_nonempty(s: Seq<char>)
    ensures
        fields(s).len() >= 1,
    decreases s.len(),
{
    if s.len() > 0 {
        lemma_fields_nonempty(s.drop_last());
    }
}

/// The characters each string holds.
pub open spec fn string_views(strings: Seq<String>) -> Seq<Seq<char>> {
    strings.map_values(|string: String| string@)
}

/// `text` cut at every newline.
pub fn split_fields(text: &str) -> (pieces: Vec<String>)
    ensures
        string_views(pieces@) == fields(text@),
{
    let chars = chars_of(text);
    let mut pieces: Vec<String> = Vec::new();
    let mut current = String::new();
    let mut i: usize = 0;
    while i < chars.len()
        invariant
            chars@ == text@,
            i <= chars@.len(),
            string_views(pieces@).push(current@) == fields(chars@.subrange(0, i as int)),
        decreases chars@.len() - i,
    {
        let c = chars[i];
        proof {
            let now = chars@.subrange(0, i + 1);
            assert(now.drop_last() =~= chars@.subrange(0, i as int));
            assert(now.last() == c);
            lemma_fields_nonempty(chars@.subrange(0, i as int));
        }
        if c == '\n' {
            let done = current;
            current = String::new();
            proof {
                assert(string_views(pieces@.push(done)) =~= string_views(pieces@).push(done@));
            }
            pieces.push(done);
            proof {
                assert(string_views(pieces@).push(current@) =~= fields(chars@.subrange(0, i + 1)));
            }
        } else {
            push_char(&mut current, c);
            proof {
                assert(string_views(pieces@).push(current@) =~= fields(chars@.subrange(0, i + 1)));
            }
        }
        i = i + 1;
    }
    let ghost last = current@;
    pieces.push(current);
    proof {
        assert(chars@.subrange(0, i as int) =~= chars@);
        assert(string_views(pieces@) =~= string_views(pieces@.drop_last()).push(last));
        assert(pieces@.drop_last() =~= pieces@.subrange(0, pieces@.len() - 1));
    }
    pieces
}

} // verus!
