//! Text helpers shared by the codec and the command matcher.
//!
//! Every function here is stated over the `Seq<char>` view of the strings it
//! handles, so that callers can reason about text without looking at bytes.

use vstd::prelude::*;
use vstd::string::*;

verus! {

/// `str`'s `==` from the standard library: two string slices are equal
/// exactly when they hold the same characters. Trusted.
pub assume_specification[ <str as PartialEq>::eq ](a: &str, b: &str) -> (r: bool)
    ensures
        r == (a@ == b@),
;

/// Whether `c` is white space: one of the characters with the Unicode
/// property `White_Space`. They are tab to carriage return, the space, the
/// next-line control, the no-break space, the Ogham space mark, the spaces
/// from en quad to hair space, the line and paragraph separators, the
/// narrow no-break space, the medium mathematical space and the
/// ideographic space.
pub open spec fn is_white_space(c: char) -> bool {
    let code = c as u32;
    ||| 0x0009 <= code <= 0x000d
    ||| code == 0x0020
    ||| code == 0x0085
    ||| code == 0x00a0
    ||| code == 0x1680
    ||| 0x2000 <= code <= 0x200a
    ||| code == 0x2028
    ||| code == 0x2029
    ||| code == 0x202f
    ||| code == 0x205f
    ||| code == 0x3000
}

/// `char::is_whitespace` from the standard library. Trusted: the result
/// tells whether `c` has the Unicode property `White_Space`, which
/// `is_white_space` spells out.
pub assume_specification[ char::is_whitespace ](c: char) -> (r: bool)
    ensures
        r == is_white_space(c),
;

/// The views of a sequence of owned strings.
pub open spec fn views(lines: Seq<String>) -> Seq<Seq<char>> {
    lines.map_values(|s: String| s@)
}

/// The views of a sequence of borrowed strings.
pub open spec fn slice_views(parts: Seq<&str>) -> Seq<Seq<char>> {
    parts.map_values(|s: &str| s@)
}

/// The position of the first `c` in `s`, or `s.len()` where there is none.
pub open spec fn index_of(s: Seq<char>, c: char) -> int
    decreases s.len(),
{
    if s.len() == 0 {
        0
    } else if s[0] == c {
        0
    } else {
        1 + index_of(s.skip(1), c)
    }
}

/// The pieces of `s` between occurrences of `sep`. There is always at least
/// one piece; a separator at the very end leaves an empty last piece.
pub open spec fn split_on(s: Seq<char>, sep: char) -> Seq<Seq<char>>
    decreases s.len(),
{
    let i = index_of(s, sep);
    if 0 <= i < s.len() {
        seq![s.take(i)] + split_on(s.skip(i + 1), sep)
    } else {
        seq![s]
    }
}

/// The lines joined into one text, with `sep` between neighbours.
pub open spec fn join_with(lines: Seq<Seq<char>>, sep: char) -> Seq<char>
    decreases lines.len(),
{
    if lines.len() == 0 {
        Seq::empty()
    } else if lines.len() == 1 {
        lines[0]
    } else {
        join_with(lines.drop_last(), sep).push(sep) + lines.last()
    }
}

/// `s` without its leading white space.
pub open spec fn trim_start(s: Seq<char>) -> Seq<char>
    decreases s.len(),
{
    if s.len() > 0 && is_white_space(s[0]) {
        trim_start(s.skip(1))
    } else {
        s
    }
}

/// `s` without its trailing white space.
pub open spec fn trim_end(s: Seq<char>) -> Seq<char>
    decreases s.len(),
{
    if s.len() > 0 && is_white_space(s.last()) {
        trim_end(s.drop_last())
    } else {
        s
    }
}

/// `s` without leading and trailing white space.
pub open spec fn trimmed(s: Seq<char>) -> Seq<char> {
    trim_end(trim_start(s))
}

/// The decimal digit for `d`, where `d < 10`.
pub open spec fn digit(d: nat) -> char {
    if d == 0 {
        '0'
    } else if d == 1 {
        '1'
    } else if d == 2 {
        '2'
    } else if d == 3 {
        '3'
    } else if d == 4 {
        '4'
    } else if d == 5 {
        '5'
    } else if d == 6 {
        '6'
    } else if d == 7 {
        '7'
    } else if d == 8 {
        '8'
    } else {
        '9'
    }
}

/// `n` written in decimal, without leading zeros.
pub open spec fn decimal(n: nat) -> Seq<char>
    decreases n,
{
    if n < 10 {
        seq![digit(n)]
    } else {
        decimal(n / 10).push(digit(n % 10))
    }
}

/// If `c` first occurs in `s` at `i` (or nowhere, with `i == s.len()`), then
/// `index_of` finds `i`.
pub proof fn lemma_index_of(s: Seq<char>, c: char, i: int)
    requires
        0 <= i <= s.len(),
        forall|k: int| 0 <= k < i ==> s[k] != c,
        i < s.len() ==> s[i] == c,
    ensures
        index_of(s, c) == i,
    decreases s.len(),
{
    if s.len() == 0 {
    } else if i == 0 {
    } else {
        assert(s[0] != c);
        let t = s.skip(1);
        assert forall|k: int| 0 <= k < i - 1 implies t[k] != c by {
            assert(t[k] == s[k + 1]);
        }
        lemma_index_of(t, c, i - 1);
    }
}

/// `index_of` finds the first `c`: nothing before it is `c`, and what it
/// points at is `c` unless it points behind the end.
pub proof fn lemma_index_of_first(s: Seq<char>, c: char)
    ensures
        0 <= index_of(s, c) <= s.len(),
        forall|k: int| 0 <= k < index_of(s, c) ==> s[k] != c,
        index_of(s, c) < s.len() ==> s[index_of(s, c)] == c,
    decreases s.len(),
{
    if s.len() > 0 && s[0] != c {
        let t = s.skip(1);
        lemma_index_of_first(t, c);
        assert forall|k: int| 0 <= k < index_of(s, c) implies s[k] != c by {
            if k > 0 {
                assert(t[k - 1] == s[k]);
            }
        }
        if index_of(s, c) < s.len() {
            assert(t[index_of(t, c)] == s[index_of(s, c)]);
        }
    }
}

/// A text without `sep` is one piece.
pub proof fn lemma_split_on_plain(s: Seq<char>, sep: char)
    requires
        forall|k: int| 0 <= k < s.len() ==> s[k] != sep,
    ensures
        split_on(s, sep) == seq![s],
{
    lemma_index_of(s, sep, s.len() as int);
}

/// There is always at least one piece.
pub proof fn lemma_split_on_len(s: Seq<char>, sep: char)
    ensures
        split_on(s, sep).len() >= 1,
    decreases s.len(),
{
    lemma_index_of_first(s, sep);
    let i = index_of(s, sep);
    if 0 <= i < s.len() {
        lemma_split_on_len(s.skip(i + 1), sep);
    }
}

/// No piece holds `sep`.
pub proof fn lemma_split_on_pieces(s: Seq<char>, sep: char)
    ensures
        forall|j: int, k: int|
            0 <= j < split_on(s, sep).len() && 0 <= k < split_on(s, sep)[j].len() ==> split_on(
                s,
                sep,
            )[j][k] != sep,
    decreases s.len(),
{
    lemma_index_of_first(s, sep);
    let i = index_of(s, sep);
    if 0 <= i < s.len() {
        lemma_split_on_pieces(s.skip(i + 1), sep);
        let rest = split_on(s.skip(i + 1), sep);
        assert forall|j: int, k: int|
            0 <= j < split_on(s, sep).len() && 0 <= k < split_on(s, sep)[j].len() implies split_on(
            s,
            sep,
        )[j][k] != sep by {
            if j == 0 {
                assert(split_on(s, sep)[0] == s.take(i));
            } else {
                assert(split_on(s, sep)[j] == rest[j - 1]);
            }
        }
    }
}

/// Cutting two texts put together: the pieces of the first, with the first
/// piece of the second joined to the last of them, and then the other
/// pieces of the second.
pub proof fn lemma_split_on_concat(a: Seq<char>, b: Seq<char>, sep: char)
    ensures
        split_on(a, sep).len() >= 1,
        split_on(b, sep).len() >= 1,
        split_on(a + b, sep) == split_on(a, sep).drop_last().push(
            split_on(a, sep).last() + split_on(b, sep)[0],
        ) + split_on(b, sep).skip(1),
    decreases a.len(),
{
    lemma_split_on_len(a, sep);
    lemma_split_on_len(b, sep);
    lemma_index_of_first(a, sep);
    lemma_index_of_first(b, sep);
    let i = index_of(a, sep);
    let whole = a + b;
    if 0 <= i < a.len() {
        let rest = a.skip(i + 1);
        assert forall|k: int| 0 <= k < i implies whole[k] != sep by {
            assert(whole[k] == a[k]);
        }
        assert(whole[i] == a[i]);
        lemma_index_of(whole, sep, i);
        assert(whole.take(i) =~= a.take(i));
        assert(whole.skip(i + 1) =~= rest + b);
        lemma_split_on_concat(rest, b, sep);
        lemma_split_on_len(rest, sep);
        let pa = split_on(a, sep);
        let pr = split_on(rest, sep);
        assert(pa == seq![a.take(i)] + pr);
        assert(pa.last() == pr.last());
        assert(pa.drop_last() =~= seq![a.take(i)] + pr.drop_last());
        assert(split_on(whole, sep) =~= pa.drop_last().push(pa.last() + split_on(b, sep)[0])
            + split_on(b, sep).skip(1));
    } else {
        let j = index_of(b, sep);
        assert(split_on(a, sep) == seq![a]);
        assert forall|k: int| 0 <= k < a.len() + j implies whole[k] != sep by {
            if k < a.len() {
                assert(whole[k] == a[k]);
            } else {
                assert(whole[k] == b[k - a.len()]);
            }
        }
        if j < b.len() {
            assert(whole[a.len() + j] == b[j]);
            lemma_index_of(whole, sep, a.len() + j);
            assert(whole.take(a.len() + j) =~= a + b.take(j));
            assert(whole.skip(a.len() + j + 1) =~= b.skip(j + 1));
            assert(split_on(b, sep) == seq![b.take(j)] + split_on(b.skip(j + 1), sep));
            assert(split_on(b, sep).skip(1) =~= split_on(b.skip(j + 1), sep));
            assert(split_on(whole, sep) =~= seq![a].drop_last().push(a + b.take(j)) + split_on(
                b,
                sep,
            ).skip(1));
        } else {
            lemma_index_of(whole, sep, whole.len() as int);
            assert(split_on(b, sep) == seq![b]);
            assert(split_on(whole, sep) =~= seq![a].drop_last().push(a + b) + seq![b].skip(1));
        }
    }
}

/// Whether two string slices hold the same characters.
pub fn str_eq(a: &str, b: &str) -> (r: bool)
    ensures
        r == (a@ == b@),
{
    *a == *b
}

/// The characters of `s`, in order.
pub fn chars_of(s: &str) -> (v: Vec<char>)
    ensures
        v@ == s@,
{
    let mut v: Vec<char> = Vec::new();
    for c in it: s.chars()
        invariant
            v@ == it.seq().take(it.index() as int),
            it.seq() == s@,
    {
        v.push(c);
    }
    v
}

/// Mapping a sequence to its views commutes with appending one string.
pub proof fn lemma_slice_views_push(parts: Seq<&str>, part: &str)
    ensures
        slice_views(parts.push(part)) == slice_views(parts).push(part@),
{
    assert(slice_views(parts.push(part)) =~= slice_views(parts).push(part@));
}

/// Mapping a sequence to its views commutes with appending one string.
pub proof fn lemma_views_push(lines: Seq<String>, line: String)
    ensures
        views(lines.push(line)) == views(lines).push(line@),
{
    assert(views(lines.push(line)) =~= views(lines).push(line@));
}

/// The pieces of `s` between occurrences of `sep`, borrowed from `s`.
pub fn split<'a>(s: &'a str, sep: char) -> (parts: Vec<&'a str>)
    ensures
        slice_views(parts@) == split_on(s@, sep),
{
    let chars = chars_of(s);
    let n = chars.len();
    let mut parts: Vec<&'a str> = Vec::new();
    let mut start: usize = 0;
    let mut i: usize = 0;
    assert(s@.skip(0) =~= s@);
    assert(slice_views(parts@) + split_on(s@, sep) =~= split_on(s@, sep));
    while i < n
        invariant
            chars@ == s@,
            n == chars.len(),
            start <= i <= n,
            forall|k: int| start <= k < i ==> chars@[k] != sep,
            split_on(s@, sep) == slice_views(parts@) + split_on(s@.skip(start as int), sep),
        decreases n - i,
    {
        if chars[i] == sep {
            let piece = s.substring_char(start, i);
            proof {
                let rest = s@.skip(start as int);
                lemma_index_of(rest, sep, i - start);
                assert(rest.take(i - start) =~= s@.subrange(start as int, i as int));
                assert(rest.skip(i - start + 1) =~= s@.skip(i + 1));
                lemma_slice_views_push(parts@, piece);
                assert(slice_views(parts@) + (seq![piece@] + split_on(s@.skip(i + 1), sep))
                    =~= slice_views(parts@).push(piece@) + split_on(s@.skip(i + 1), sep));
            }
            parts.push(piece);
            start = i + 1;
        }
        i += 1;
    }
    let last = s.substring_char(start, n);
    proof {
        let rest = s@.skip(start as int);
        lemma_index_of(rest, sep, n - start);
        assert(rest =~= s@.subrange(start as int, n as int));
        lemma_slice_views_push(parts@, last);
        assert(slice_views(parts@) + seq![last@] =~= slice_views(parts@).push(last@));
    }
    parts.push(last);
    parts
}

/// The lines joined into one text, with a newline between neighbours.
pub fn join_lines(lines: &Vec<String>) -> (text: String)
    ensures
        text@ == join_with(views(lines@), '\n'),
{
    let mut text = String::new();
    let mut i: usize = 0;
    while i < lines.len()
        invariant
            i <= lines.len(),
            text@ == join_with(views(lines@).take(i as int), '\n'),
        decreases lines.len() - i,
    {
        proof {
            reveal_strlit("\n");
            let before = views(lines@).take(i as int);
            let after = views(lines@).take(i + 1);
            assert(after.drop_last() =~= before);
            assert(after.last() == lines@[i as int]@);
            assert("\n"@ =~= seq!['\n']);
        }
        if i > 0 {
            text.append("\n");
        }
        text.append(lines[i].as_str());
        proof {
            if i > 0 {
                assert(text@ =~= join_with(views(lines@).take(i as int), '\n').push('\n')
                    + lines@[i as int]@);
            } else {
                assert(text@ =~= lines@[i as int]@);
            }
        }
        i += 1;
    }
    assert(views(lines@).take(lines.len() as int) =~= views(lines@));
    text
}

/// `s` without leading and trailing white space, borrowed from `s`.
pub fn trim<'a>(s: &'a str) -> (r: &'a str)
    ensures
        r@ == trimmed(s@),
{
    let chars = chars_of(s);
    let n = chars.len();
    let mut start: usize = 0;
    assert(s@.skip(0) =~= s@);
    while start < n && chars[start].is_whitespace()
        invariant
            chars@ == s@,
            n == chars.len(),
            start <= n,
            trim_start(s@) == trim_start(s@.skip(start as int)),
        decreases n - start,
    {
        assert(s@.skip(start as int).skip(1) =~= s@.skip(start + 1));
        start += 1;
    }
    assert(trim_start(s@) == s@.skip(start as int));
    let mut end: usize = n;
    assert(s@.skip(start as int) =~= s@.subrange(start as int, n as int));
    while end > start && chars[end - 1].is_whitespace()
        invariant
            chars@ == s@,
            n == chars.len(),
            start <= end <= n,
            trimmed(s@) == trim_end(s@.subrange(start as int, end as int)),
        decreases end,
    {
        assert(s@.subrange(start as int, end as int).drop_last() =~= s@.subrange(
            start as int,
            end - 1,
        ));
        end -= 1;
    }
    s.substring_char(start, end)
}

/// The one-character string for a decimal digit.
fn digit_str(d: usize) -> (r: &'static str)
    requires
        d < 10,
    ensures
        r@ == seq![digit(d as nat)],
{
    proof {
        reveal_strlit("0");
        reveal_strlit("1");
        reveal_strlit("2");
        reveal_strlit("3");
        reveal_strlit("4");
        reveal_strlit("5");
        reveal_strlit("6");
        reveal_strlit("7");
        reveal_strlit("8");
        reveal_strlit("9");
    }
    let r = if d == 0 {
        "0"
    } else if d == 1 {
        "1"
    } else if d == 2 {
        "2"
    } else if d == 3 {
        "3"
    } else if d == 4 {
        "4"
    } else if d == 5 {
        "5"
    } else if d == 6 {
        "6"
    } else if d == 7 {
        "7"
    } else if d == 8 {
        "8"
    } else {
        "9"
    };
    assert(r@ =~= seq![digit(d as nat)]);
    r
}

/// `n` written in decimal, without leading zeros.
pub fn decimal_string(n: usize) -> (r: String)
    ensures
        r@ == decimal(n as nat),
    decreases n,
{
    if n < 10 {
        String::from_str(digit_str(n))
    } else {
        let mut r = decimal_string(n / 10);
        r.append(digit_str(n % 10));
        assert(r@ =~= decimal(n as nat / 10).push(digit(n as nat % 10)));
        r
    }
}

} // verus!
