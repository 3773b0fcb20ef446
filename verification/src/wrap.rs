//! Line wrapping for the bodies of outgoing notices.
//!
//! Free text is cut into words at spaces, and the words are packed greedily
//! into lines: a word joins the line, behind a space, as long as the line
//! stays within the limit. A newline in the text always ends a line. A word
//! is never cut, so a word longer than the limit gets a line of its own.

use crate::pattern::{regex_compiles, regex_pieces, split};
use crate::text::{
    chars_of, lemma_split_on_concat, lemma_split_on_plain, lemma_views_push, slice_views, split_on,
    views,
};
use vstd::prelude::*;
use vstd::string::*;
use vstd::utf8::{encode_scalar, encode_utf8};

verus! {

/// The pattern at which text is cut into words: a space, or the mark that
/// is put behind every newline.
pub const SEPARATORS: &'static str = "[ \0]";

/// The width that wraps the body of a notice unless another is asked for.
pub const DEFAULT_WIDTH: usize = 70;

/// The length of `w` in bytes of UTF-8, which is how widths are counted.
pub open spec fn byte_len(w: Seq<char>) -> nat {
    encode_utf8(w).len()
}

/// `s` with a NUL put behind every newline, so that cutting at NUL leaves
/// each newline at the end of its word.
pub open spec fn mark_breaks(s: Seq<char>) -> Seq<char>
    decreases s.len(),
{
    if s.len() == 0 {
        Seq::empty()
    } else if s.last() == '\n' {
        mark_breaks(s.drop_last()).push('\n').push('\0')
    } else {
        mark_breaks(s.drop_last()).push(s.last())
    }
}

/// Whether `w` ends in a newline.
pub open spec fn ends_line(w: Seq<char>) -> bool {
    w.len() > 0 && w.last() == '\n'
}

/// The text packed so far, and the width used on its last line.
pub struct Packed {
    pub text: Seq<char>,
    pub used: nat,
}

/// Whether a word of `width` bytes opens a new line when `used` bytes of
/// the line are taken: on a line that holds something, when the line with a
/// space and the word would pass `limit`; on an empty line, when the word
/// alone passes it.
pub open spec fn opens_line(limit: nat, used: nat, width: nat) -> bool {
    if used == 0 {
        width > limit
    } else {
        used + 1 + width > limit
    }
}

/// Packing one more word `w` behind `p`, with lines of at most `limit`
/// bytes: the word opens a new line where it does not fit, and otherwise
/// follows on the current line, after a space unless the line is empty. A
/// word that ends in a newline leaves an empty line behind it.
pub open spec fn pack_word(limit: nat, p: Packed, w: Seq<char>) -> Packed {
    let width = byte_len(w);
    let placed = if opens_line(limit, p.used, width) {
        Packed { text: p.text.push('\n') + w, used: width }
    } else if p.used == 0 {
        Packed { text: p.text + w, used: width }
    } else {
        Packed { text: p.text.push(' ') + w, used: p.used + 1 + width }
    };
    Packed { text: placed.text, used: if ends_line(w) { 0 } else { placed.used } }
}

/// All of `words` packed in order, starting from nothing.
pub open spec fn pack(limit: nat, words: Seq<Seq<char>>) -> Packed
    decreases words.len(),
{
    if words.len() == 0 {
        Packed { text: Seq::empty(), used: 0 }
    } else {
        pack_word(limit, pack(limit, words.drop_last()), words.last())
    }
}

/// The lines that `words` make when packed to `limit`.
pub open spec fn packed_lines(limit: nat, words: Seq<Seq<char>>) -> Seq<Seq<char>> {
    split_on(pack(limit, words).text, '\n')
}

/// The lines that wrapping `text` to `limit` gives. Where the engine
/// rejects the separator pattern the text is not wrapped, only cut at its
/// newlines.
pub open spec fn wrapped(limit: nat, text: Seq<char>) -> Seq<Seq<char>> {
    if regex_compiles(SEPARATORS@) {
        packed_lines(limit, regex_pieces(SEPARATORS@, mark_breaks(text)))
    } else {
        split_on(text, '\n')
    }
}

/// What stands between two words of a packed text: nothing, a space or a
/// newline.
pub open spec fn is_joint(joint: Seq<char>) -> bool {
    joint == Seq::<char>::empty() || joint == seq![' '] || joint == seq!['\n']
}

/// The words one after another, each behind its joint.
pub open spec fn glued(joints: Seq<Seq<char>>, words: Seq<Seq<char>>) -> Seq<char>
    decreases words.len(),
{
    if words.len() == 0 || joints.len() != words.len() {
        Seq::empty()
    } else {
        glued(joints.drop_last(), words.drop_last()) + joints.last() + words.last()
    }
}

/// The joints that packing puts before each of `words`.
pub open spec fn joints_of(limit: nat, words: Seq<Seq<char>>) -> Seq<Seq<char>>
    decreases words.len(),
{
    if words.len() == 0 {
        Seq::empty()
    } else {
        let before = pack(limit, words.drop_last());
        joints_of(limit, words.drop_last()).push(
            if opens_line(limit, before.used, byte_len(words.last())) {
                seq!['\n']
            } else if before.used == 0 {
                Seq::empty()
            } else {
                seq![' ']
            },
        )
    }
}

/// No word is ever cut. The packed text is the words as they are, in
/// order, with nothing, a space or a newline before each; and the newline
/// stands exactly before the words that open a line.
pub proof fn lemma_words_stay_whole(limit: nat, words: Seq<Seq<char>>)
    ensures
        joints_of(limit, words).len() == words.len(),
        forall|i: int| 0 <= i < words.len() ==> is_joint(#[trigger] joints_of(limit, words)[i]),
        pack(limit, words).text == glued(joints_of(limit, words), words),
        forall|i: int|
            0 <= i < words.len() ==> (#[trigger] joints_of(limit, words)[i] == seq!['\n']
                <==> opens_line(limit, pack(limit, words.take(i)).used, byte_len(words[i]))),
    decreases words.len(),
{
    if words.len() > 0 {
        let front = words.drop_last();
        lemma_words_stay_whole(limit, front);
        let joints = joints_of(limit, words);
        assert(joints.drop_last() =~= joints_of(limit, front));
        assert(seq![' '] != seq!['\n']) by {
            assert(seq![' '][0] != seq!['\n'][0]);
        }
        assert(Seq::<char>::empty() != seq!['\n']) by {
            assert(Seq::<char>::empty().len() != seq!['\n'].len());
        }
        let before = pack(limit, front);
        let word = words.last();
        assert(pack(limit, words).text =~= before.text + joints.last() + word);
        assert forall|i: int| 0 <= i < words.len() implies (#[trigger] joints[i] == seq!['\n']
            <==> opens_line(limit, pack(limit, words.take(i)).used, byte_len(words[i]))) by {
            if i < words.len() - 1 {
                assert(joints[i] == joints_of(limit, front)[i]);
                assert(words.take(i) =~= front.take(i));
            } else {
                assert(words.take(i) =~= front);
            }
        }
    }
}

/// A word as the text is cut into them: it holds no space, and a newline
/// only at its end.
pub open spec fn is_word(w: Seq<char>) -> bool {
    forall|i: int| 0 <= i < w.len() ==> w[i] != ' ' && (w[i] == '\n' ==> i == w.len() - 1)
}

/// A line is in order when it is at most `limit` bytes wide, or holds a
/// single word and no space.
pub open spec fn fits_or_single(limit: nat, line: Seq<char>) -> bool {
    byte_len(line) <= limit || forall|i: int| 0 <= i < line.len() ==> line[i] != ' '
}

/// What packing keeps true of the text so far: every line is in order, and
/// the last line is no wider than the width counted as used.
pub open spec fn tidy(limit: nat, p: Packed) -> bool {
    let lines = split_on(p.text, '\n');
    &&& forall|j: int| 0 <= j < lines.len() ==> fits_or_single(limit, #[trigger] lines[j])
    &&& byte_len(lines.last()) <= p.used
}

/// The width of two texts put together is the sum of their widths.
pub proof fn lemma_byte_len_concat(a: Seq<char>, b: Seq<char>)
    ensures
        byte_len(a + b) == byte_len(a) + byte_len(b),
    decreases a.len(),
{
    if a.len() == 0 {
        assert(a + b =~= b);
    } else {
        assert((a + b).drop_first() =~= a.drop_first() + b);
        assert((a + b)[0] == a[0]);
        lemma_byte_len_concat(a.drop_first(), b);
    }
}

/// Every character is at least one byte wide, and a space is exactly one.
pub proof fn lemma_byte_len_one(c: char)
    ensures
        byte_len(seq![c]) >= 1,
        byte_len(seq![' ']) == 1,
{
    assert(seq![c].drop_first() =~= Seq::<char>::empty());
    assert(encode_utf8(seq![c]) =~= encode_scalar(c as u32) + encode_utf8(
        Seq::<char>::empty(),
    ));
    assert(seq![' '].drop_first() =~= Seq::<char>::empty());
    assert(encode_utf8(seq![' ']) =~= encode_scalar(' ' as u32) + encode_utf8(
        Seq::<char>::empty(),
    ));
    assert(' ' as u32 == 32u32);
}

/// Only the empty text has no width.
pub proof fn lemma_byte_len_zero(a: Seq<char>)
    requires
        byte_len(a) == 0,
    ensures
        a.len() == 0,
{
    if a.len() > 0 {
        assert(a =~= seq![a[0]] + a.drop_first());
        lemma_byte_len_concat(seq![a[0]], a.drop_first());
        lemma_byte_len_one(a[0]);
    }
}

/// The lines that one word makes: the word itself, or what stands before
/// its newline and an empty line behind it.
proof fn lemma_word_lines(w: Seq<char>)
    requires
        is_word(w),
    ensures
        ends_line(w) ==> split_on(w, '\n') == seq![w.drop_last(), Seq::<char>::empty()],
        !ends_line(w) ==> split_on(w, '\n') == seq![w],
        ends_line(w) ==> byte_len(w.drop_last()) <= byte_len(w),
{
    if ends_line(w) {
        let v = w.drop_last();
        let nl = seq!['\n'];
        assert(w =~= v + nl);
        lemma_split_on_plain(v, '\n');
        crate::text::lemma_index_of(nl, '\n', 0);
        assert(nl.take(0) =~= Seq::<char>::empty());
        assert(nl.skip(1) =~= Seq::<char>::empty());
        lemma_split_on_plain(Seq::<char>::empty(), '\n');
        assert(split_on(nl, '\n') =~= seq![Seq::<char>::empty(), Seq::<char>::empty()]);
        lemma_split_on_concat(v, nl, '\n');
        assert(v + Seq::<char>::empty() =~= v);
        assert(split_on(w, '\n') =~= seq![v, Seq::<char>::empty()]);
        lemma_byte_len_concat(v, nl);
    } else {
        lemma_split_on_plain(w, '\n');
    }
}

/// Packing one more word keeps the text tidy.
proof fn lemma_pack_word_tidy(limit: nat, p: Packed, w: Seq<char>)
    requires
        tidy(limit, p),
        is_word(w),
    ensures
        tidy(limit, pack_word(limit, p, w)),
{
    let lines = split_on(p.text, '\n');
    let cur = lines.last();
    let width = byte_len(w);
    let v = if ends_line(w) { w.drop_last() } else { w };
    let empty = Seq::<char>::empty();
    let tail = if ends_line(w) { seq![empty] } else { Seq::<Seq<char>>::empty() };
    let q = pack_word(limit, p, w);
    lemma_word_lines(w);
    crate::text::lemma_split_on_len(p.text, '\n');
    assert(split_on(w, '\n') =~= seq![v] + tail);
    assert(byte_len(v) <= width);
    assert(byte_len(empty) == 0);
    assert(forall|i: int| 0 <= i < v.len() ==> v[i] != ' ') by {
        assert forall|i: int| 0 <= i < v.len() implies v[i] != ' ' by {
            assert(v[i] == w[i]);
        }
    }
    assert(fits_or_single(limit, v));
    assert(fits_or_single(limit, empty));
    if opens_line(limit, p.used, width) {
        let nl = seq!['\n'];
        assert(q.text =~= p.text + (nl + w));
        crate::text::lemma_index_of(nl, '\n', 0);
        assert(nl.take(0) =~= empty);
        assert(nl.skip(1) =~= empty);
        lemma_split_on_plain(empty, '\n');
        assert(split_on(nl, '\n') =~= seq![empty, empty]);
        lemma_split_on_concat(nl, w, '\n');
        assert(empty + v =~= v);
        assert(split_on(nl + w, '\n') =~= seq![empty, v] + tail);
        lemma_split_on_concat(p.text, nl + w, '\n');
        assert(cur + empty =~= cur);
        let after = split_on(q.text, '\n');
        assert(after =~= lines + seq![v] + tail);
        assert forall|j: int| 0 <= j < after.len() implies fits_or_single(
            limit,
            #[trigger] after[j],
        ) by {
            if j < lines.len() {
                assert(after[j] == lines[j]);
            }
        }
    } else if p.used == 0 {
        lemma_byte_len_zero(cur);
        assert(cur =~= empty);
        assert(q.text =~= p.text + w);
        lemma_split_on_concat(p.text, w, '\n');
        assert(cur + v =~= v);
        let after = split_on(q.text, '\n');
        assert(after =~= lines.drop_last().push(v) + tail);
        assert forall|j: int| 0 <= j < after.len() implies fits_or_single(
            limit,
            #[trigger] after[j],
        ) by {
            if j < lines.len() - 1 {
                assert(after[j] == lines[j]);
            }
        }
    } else {
        let sp = seq![' '];
        assert(q.text =~= p.text + (sp + w));
        lemma_split_on_plain(sp, '\n');
        lemma_split_on_concat(sp, w, '\n');
        assert(split_on(sp + w, '\n') =~= seq![sp + v] + tail);
        lemma_split_on_concat(p.text, sp + w, '\n');
        let joined = cur + (sp + v);
        lemma_byte_len_concat(sp, v);
        lemma_byte_len_concat(cur, sp + v);
        lemma_byte_len_one(' ');
        assert(byte_len(joined) <= p.used + 1 + width);
        assert(fits_or_single(limit, joined));
        let after = split_on(q.text, '\n');
        assert(after =~= lines.drop_last().push(joined) + tail);
        assert forall|j: int| 0 <= j < after.len() implies fits_or_single(
            limit,
            #[trigger] after[j],
        ) by {
            if j < lines.len() - 1 {
                assert(after[j] == lines[j]);
            }
        }
    }
}

/// Every line fits, or holds a single word. Where the words hold no space
/// and a newline only at their end, as the words of a text do, each line of
/// the packed text is at most `limit` bytes wide, unless it is one word
/// that is wider than that by itself.
pub proof fn lemma_lines_fit(limit: nat, words: Seq<Seq<char>>)
    requires
        forall|i: int| 0 <= i < words.len() ==> is_word(#[trigger] words[i]),
    ensures
        tidy(limit, pack(limit, words)),
        forall|j: int|
            0 <= j < packed_lines(limit, words).len() ==> fits_or_single(
                limit,
                #[trigger] packed_lines(limit, words)[j],
            ),
    decreases words.len(),
{
    if words.len() == 0 {
        lemma_split_on_plain(Seq::<char>::empty(), '\n');
        assert(byte_len(Seq::<char>::empty()) == 0);
    } else {
        let front = words.drop_last();
        assert forall|i: int| 0 <= i < front.len() implies is_word(#[trigger] front[i]) by {
            assert(front[i] == words[i]);
        }
        lemma_lines_fit(limit, front);
        lemma_pack_word_tidy(limit, pack(limit, front), words.last());
    }
}

/// The same of wrapped text: where the engine cuts the text into words,
/// each line of the wrapped text is at most `limit` bytes wide or holds a
/// single word.
pub proof fn lemma_wrapped_lines_fit(limit: nat, text: Seq<char>)
    ensures
        regex_compiles(SEPARATORS@) && (forall|i: int|
            0 <= i < regex_pieces(SEPARATORS@, mark_breaks(text)).len() ==> is_word(
                #[trigger] regex_pieces(SEPARATORS@, mark_breaks(text))[i],
            )) ==> forall|j: int|
            0 <= j < wrapped(limit, text).len() ==> fits_or_single(
                limit,
                #[trigger] wrapped(limit, text)[j],
            ),
{
    let words = regex_pieces(SEPARATORS@, mark_breaks(text));
    if regex_compiles(SEPARATORS@) && (forall|i: int|
        0 <= i < words.len() ==> is_word(#[trigger] words[i])) {
        lemma_lines_fit(limit, words);
    }
}

/// `s` with a NUL put behind every newline.
pub fn marked(s: &str) -> (r: String)
    ensures
        r@ == mark_breaks(s@),
{
    let chars = chars_of(s);
    let n = chars.len();
    let mut r = String::new();
    let mut start: usize = 0;
    let mut i: usize = 0;
    assert(s@.take(0) =~= Seq::<char>::empty());
    while i < n
        invariant
            chars@ == s@,
            n == chars.len(),
            start <= i <= n,
            r@ + s@.subrange(start as int, i as int) == mark_breaks(s@.take(i as int)),
        decreases n - i,
    {
        proof {
            assert(s@.take(i + 1).drop_last() =~= s@.take(i as int));
            assert(s@.take(i + 1).last() == s@[i as int]);
        }
        if chars[i] == '\n' {
            let piece = s.substring_char(start, i + 1);
            let ghost before = r@;
            r.append(piece);
            r.append("\0");
            proof {
                reveal_strlit("\0");
                assert("\0"@ =~= seq!['\0']);
                assert(piece@ =~= s@.subrange(start as int, i as int).push('\n'));
                assert(r@ =~= (before + s@.subrange(start as int, i as int)).push('\n').push(
                    '\0',
                ));
                assert(r@ + s@.subrange(i + 1, i + 1) =~= r@);
            }
            start = i + 1;
        } else {
            proof {
                assert(r@ + s@.subrange(start as int, i + 1) =~= (r@ + s@.subrange(
                    start as int,
                    i as int,
                )).push(s@[i as int]));
            }
        }
        i += 1;
    }
    let piece = s.substring_char(start, n);
    r.append(piece);
    assert(s@.take(n as int) =~= s@);
    r
}

/// Whether `w` ends in a newline.
fn ends_with_newline(w: &str) -> (r: bool)
    ensures
        r == ends_line(w@),
{
    let chars = chars_of(w);
    chars.len() > 0 && chars[chars.len() - 1] == '\n'
}

/// Packs `words` into lines of at most `limit` bytes. A word that ends in a
/// newline closes its line; a word that, with the space before it, would
/// take the line past `limit` opens a new one, so that no word is ever cut.
pub fn pack_words(limit: usize, words: &Vec<&str>) -> (lines: Vec<String>)
    ensures
        views(lines@) == packed_lines(limit as nat, slice_views(words@)),
{
    let mut text = String::new();
    let mut used: usize = 0;
    let mut i: usize = 0;
    assert(slice_views(words@).take(0) =~= Seq::<Seq<char>>::empty());
    while i < words.len()
        invariant
            i <= words.len(),
            pack(limit as nat, slice_views(words@).take(i as int)) == (Packed {
                text: text@,
                used: used as nat,
            }),
        decreases words.len() - i,
    {
        let word = words[i];
        let width = word.as_bytes().len();
        proof {
            reveal_strlit("\n");
            reveal_strlit(" ");
            assert("\n"@ =~= seq!['\n']);
            assert(" "@ =~= seq![' ']);
            let upto = slice_views(words@).take(i + 1);
            assert(upto.drop_last() =~= slice_views(words@).take(i as int));
            assert(upto.last() == word@);
            assert(width == byte_len(word@));
        }
        let ghost before = text@;
        let opens = if used == 0 {
            width > limit
        } else {
            (used as u128) + 1 + (width as u128) > (limit as u128)
        };
        if opens {
            text.append("\n");
            text.append(word);
            assert(text@ =~= before.push('\n') + word@);
            used = width;
        } else if used == 0 {
            text.append(word);
            used = width;
        } else {
            text.append(" ");
            text.append(word);
            assert(text@ =~= before.push(' ') + word@);
            used = used + 1 + width;
        }
        if ends_with_newline(word) {
            used = 0;
        }
        i += 1;
    }
    assert(slice_views(words@).take(words.len() as int) =~= slice_views(words@));
    owned_lines(text.as_str())
}

/// The lines of `text`, cut at its newlines, each as a string of its own.
pub fn owned_lines(text: &str) -> (lines: Vec<String>)
    ensures
        views(lines@) == split_on(text@, '\n'),
{
    let parts = crate::text::split(text, '\n');
    let mut lines: Vec<String> = Vec::new();
    let mut i: usize = 0;
    while i < parts.len()
        invariant
            i <= parts.len(),
            views(lines@) == slice_views(parts@).take(i as int),
        decreases parts.len() - i,
    {
        let line = String::from_str(parts[i]);
        proof {
            lemma_views_push(lines@, line);
            assert(slice_views(parts@).take(i + 1) =~= slice_views(parts@).take(i as int).push(
                parts@[i as int]@,
            ));
        }
        lines.push(line);
        i += 1;
    }
    assert(slice_views(parts@).take(parts.len() as int) =~= slice_views(parts@));
    lines
}

/// Wraps `val` to lines of at most `limit` bytes: the text is cut into
/// words at spaces and behind newlines, and the words are packed.
pub fn wrap_lines(limit: usize, val: &str) -> (lines: Vec<String>)
    ensures
        views(lines@) == wrapped(limit as nat, val@),
{
    let text = marked(val);
    match split(SEPARATORS, text.as_str()) {
        Some(words) => pack_words(limit, &words),
        None => owned_lines(val),
    }
}

} // verus!
