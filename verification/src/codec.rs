//! Notices on the wire: the block of lines that the receiver prints for each
//! notice it delivers, and the arguments that the sender takes for each
//! notice it is to send.
//!
//! A block is a text of lines, each `key: value`. A key may come more than
//! once: the values of `body` are the lines of the body, and the values of
//! any other key are read one after another as one text. Lines with other
//! keys, such as the one that ends the block, are passed over.

use crate::text::{chars_of, lemma_views_push, slice_views, split, split_on, str_eq, views};
use crate::zephyr::{Direction, IncomingData, IncomingView, Notice, NoticeView};
use vstd::prelude::*;
use vstd::string::*;
use vstd::utf8::{decode_utf8, valid_utf8};

verus! {

/// The key of the opcode.
pub const KEY_OPCODE: &'static str = "opcode";

/// The key of the class.
pub const KEY_CLASS: &'static str = "class";

/// The key of the instance.
pub const KEY_INSTANCE: &'static str = "instance";

/// The key of the sender.
pub const KEY_SENDER: &'static str = "sender";

/// The key that tells whether the sender was authenticated.
pub const KEY_AUTH: &'static str = "auth";

/// The key of the time of day. Its value is not kept.
pub const KEY_TIME: &'static str = "time";

/// The key of the date. Its value is not kept.
pub const KEY_DATE: &'static str = "date";

/// The key of the host the notice came from.
pub const KEY_HOST: &'static str = "fromhost";

/// The key of the signature.
pub const KEY_SIGNATURE: &'static str = "signature";

/// The key of one line of the body.
pub const KEY_BODY: &'static str = "body";

/// The value of `auth` that marks a notice as authenticated.
pub const AUTH_YES: &'static str = "yes";

/// Why a block could not be read as a notice.
#[derive(Clone, Copy, Debug, PartialEq, Eq, Structural)]
pub enum DecodeError {
    /// The block is not UTF-8 text.
    NotText,
    /// The line with this number, counted from 0, holds a known key and
    /// nothing else: the `: ` and the value are missing.
    MissingValue(usize),
}

/// Where the first `: ` of `line` starts, or `line.len()` where there is
/// none.
pub open spec fn separator_index(line: Seq<char>) -> int
    decreases line.len(),
{
    if line.len() < 2 {
        line.len() as int
    } else if line[0] == ':' && line[1] == ' ' {
        0
    } else {
        1 + separator_index(line.skip(1))
    }
}

/// The key of a line: what stands before its first `: `, or the whole line
/// where there is none.
pub open spec fn key_of(line: Seq<char>) -> Seq<char> {
    line.take(separator_index(line))
}

/// The value of a line: what stands behind its first `: `, if it has one.
pub open spec fn value_of(line: Seq<char>) -> Option<Seq<char>> {
    let i = separator_index(line);
    if i < line.len() {
        Some(line.skip(i + 2))
    } else {
        None
    }
}

/// Whether `key` is one of the keys that a notice is read from.
pub open spec fn is_known_key(key: Seq<char>) -> bool {
    ||| key == KEY_OPCODE@
    ||| key == KEY_CLASS@
    ||| key == KEY_INSTANCE@
    ||| key == KEY_SENDER@
    ||| key == KEY_AUTH@
    ||| key == KEY_TIME@
    ||| key == KEY_DATE@
    ||| key == KEY_HOST@
    ||| key == KEY_SIGNATURE@
    ||| key == KEY_BODY@
}

/// Whether a line holds a known key without a value.
pub open spec fn lacks_value(line: Seq<char>) -> bool {
    is_known_key(key_of(line)) && value_of(line) is None
}

/// The values of the lines whose key is `key`, in order.
pub open spec fn values_of(lines: Seq<Seq<char>>, key: Seq<char>) -> Seq<Seq<char>>
    decreases lines.len(),
{
    if lines.len() == 0 {
        Seq::empty()
    } else {
        let before = values_of(lines.drop_last(), key);
        match value_of(lines.last()) {
            Some(value) => if key_of(lines.last()) == key {
                before.push(value)
            } else {
                before
            },
            None => before,
        }
    }
}

/// The texts of `parts`, one after another.
pub open spec fn concat(parts: Seq<Seq<char>>) -> Seq<char>
    decreases parts.len(),
{
    if parts.len() == 0 {
        Seq::empty()
    } else {
        concat(parts.drop_last()) + parts.last()
    }
}

/// The text under `key`: its values, one after another.
pub open spec fn text_of(lines: Seq<Seq<char>>, key: Seq<char>) -> Seq<char> {
    concat(values_of(lines, key))
}

/// The notice that a block's lines stand for.
pub open spec fn notice_of(lines: Seq<Seq<char>>) -> NoticeView {
    NoticeView {
        opcode: text_of(lines, KEY_OPCODE@),
        direction: Direction::Incoming,
        class: text_of(lines, KEY_CLASS@),
        instance: text_of(lines, KEY_INSTANCE@),
        sender: text_of(lines, KEY_SENDER@),
        zsig: text_of(lines, KEY_SIGNATURE@),
        body: values_of(lines, KEY_BODY@),
        incoming_data: Some(
            IncomingView {
                is_auth: text_of(lines, KEY_AUTH@) == AUTH_YES@,
                date: 0,
                host: text_of(lines, KEY_HOST@),
            },
        ),
    }
}

/// The number of the first line that holds a known key without a value, or
/// `lines.len()` where every line is in order.
pub open spec fn first_lacking(lines: Seq<Seq<char>>) -> int
    decreases lines.len(),
{
    if lines.len() == 0 {
        0
    } else if lacks_value(lines[0]) {
        0
    } else {
        1 + first_lacking(lines.skip(1))
    }
}

/// What reading the lines of a block gives: the notice they stand for, or
/// the number of the first line that holds a known key without a value.
pub open spec fn decoded_lines(lines: Seq<Seq<char>>) -> Result<NoticeView, DecodeError> {
    if first_lacking(lines) < lines.len() {
        Err(DecodeError::MissingValue(first_lacking(lines) as usize))
    } else {
        Ok(notice_of(lines))
    }
}

/// What reading a block of text gives.
pub open spec fn decoded(raw: Seq<char>) -> Result<NoticeView, DecodeError> {
    decoded_lines(split_on(raw, '\n'))
}

/// What reading a block of bytes gives.
pub open spec fn decoded_bytes(bytes: Seq<u8>) -> Result<NoticeView, DecodeError> {
    if valid_utf8(bytes) {
        decoded(decode_utf8(bytes))
    } else {
        Err(DecodeError::NotText)
    }
}

/// The plain value of what `decode` returns.
pub open spec fn result_view(r: Result<Notice, DecodeError>) -> Result<NoticeView, DecodeError> {
    match r {
        Ok(notice) => Ok(notice@),
        Err(e) => Err(e),
    }
}

/// Whether a `: ` starts at position `k` of `line`.
pub open spec fn separator_at(line: Seq<char>, k: int) -> bool {
    0 <= k && k + 1 < line.len() && line[k] == ':' && line[k + 1] == ' '
}

/// If the first `: ` of `line` starts at `i` (or there is none, with
/// `i == line.len()`), then `separator_index` finds `i`.
proof fn lemma_separator_index(line: Seq<char>, i: int)
    requires
        0 <= i <= line.len(),
        forall|k: int| 0 <= k < i ==> !separator_at(line, k),
        i < line.len() ==> separator_at(line, i),
    ensures
        separator_index(line) == i,
    decreases line.len(),
{
    if line.len() < 2 {
    } else if i == 0 {
    } else {
        let rest = line.skip(1);
        assert(!separator_at(line, 0));
        assert forall|k: int| 0 <= k < i - 1 implies !separator_at(rest, k) by {
            assert(!separator_at(line, k + 1));
            if k + 1 < rest.len() {
                assert(rest[k] == line[k + 1]);
                assert(rest[k + 1] == line[k + 2]);
            }
        }
        if i < line.len() {
            assert(separator_at(line, i));
            assert(rest[i - 1] == line[i]);
            assert(rest[i] == line[i + 1]);
        }
        lemma_separator_index(rest, i - 1);
    }
}

/// What one more line adds to the values and to the text under `key`.
proof fn lemma_next_line(lines: Seq<Seq<char>>, line: Seq<char>, key: Seq<char>)
    ensures
        values_of(lines.push(line), key) == if value_of(line) is Some && key_of(line) == key {
            values_of(lines, key).push(value_of(line)->0)
        } else {
            values_of(lines, key)
        },
        text_of(lines.push(line), key) == if value_of(line) is Some && key_of(line) == key {
            text_of(lines, key) + value_of(line)->0
        } else {
            text_of(lines, key)
        },
{
    assert(lines.push(line).drop_last() =~= lines);
    assert(lines.push(line).last() == line);
    if value_of(line) is Some && key_of(line) == key {
        let values = values_of(lines, key);
        let value = value_of(line)->0;
        assert(values.push(value).drop_last() =~= values);
        assert(values.push(value).last() == value);
    }
}

/// The key and the value of a line, borrowed from it.
fn parse_line<'a>(line: &'a str) -> (field: (&'a str, Option<&'a str>))
    ensures
        field.0@ == key_of(line@),
        match field.1 {
            Some(value) => value_of(line@) == Some(value@),
            None => value_of(line@) is None,
        },
{
    let chars = chars_of(line);
    let n = chars.len();
    let mut i: usize = 0;
    while n - i >= 2
        invariant
            chars@ == line@,
            n == chars.len(),
            i <= n,
            forall|k: int| 0 <= k < i ==> !separator_at(line@, k),
        decreases n - i,
    {
        if chars[i] == ':' && chars[i + 1] == ' ' {
            proof {
                lemma_separator_index(line@, i as int);
                assert(line@.take(i as int) =~= line@.subrange(0, i as int));
                assert(line@.skip(i + 2) =~= line@.subrange(i + 2, n as int));
            }
            return (line.substring_char(0, i), Some(line.substring_char(i + 2, n)));
        }
        i += 1;
    }
    proof {
        assert forall|k: int| 0 <= k < n implies !separator_at(line@, k) by {
            if k < i {
            } else {
                assert(k + 1 >= n);
            }
        }
        lemma_separator_index(line@, n as int);
        assert(line@.take(n as int) =~= line@);
    }
    (line, None)
}

/// Whether `key` is one of the keys that a notice is read from.
fn is_known(key: &str) -> (known: bool)
    ensures
        known == is_known_key(key@),
{
    str_eq(key, KEY_OPCODE) || str_eq(key, KEY_CLASS) || str_eq(key, KEY_INSTANCE) || str_eq(
        key,
        KEY_SENDER,
    ) || str_eq(key, KEY_AUTH) || str_eq(key, KEY_TIME) || str_eq(key, KEY_DATE) || str_eq(
        key,
        KEY_HOST,
    ) || str_eq(key, KEY_SIGNATURE) || str_eq(key, KEY_BODY)
}

/// The keys that are kept are six or more letters apart from one another:
/// no two of them are the same text.
proof fn lemma_keys_differ()
    ensures
        KEY_OPCODE@ != KEY_CLASS@,
        KEY_OPCODE@ != KEY_INSTANCE@,
        KEY_OPCODE@ != KEY_SENDER@,
        KEY_OPCODE@ != KEY_AUTH@,
        KEY_OPCODE@ != KEY_HOST@,
        KEY_OPCODE@ != KEY_SIGNATURE@,
        KEY_OPCODE@ != KEY_BODY@,
        KEY_CLASS@ != KEY_INSTANCE@,
        KEY_CLASS@ != KEY_SENDER@,
        KEY_CLASS@ != KEY_AUTH@,
        KEY_CLASS@ != KEY_HOST@,
        KEY_CLASS@ != KEY_SIGNATURE@,
        KEY_CLASS@ != KEY_BODY@,
        KEY_INSTANCE@ != KEY_SENDER@,
        KEY_INSTANCE@ != KEY_AUTH@,
        KEY_INSTANCE@ != KEY_HOST@,
        KEY_INSTANCE@ != KEY_SIGNATURE@,
        KEY_INSTANCE@ != KEY_BODY@,
        KEY_SENDER@ != KEY_AUTH@,
        KEY_SENDER@ != KEY_HOST@,
        KEY_SENDER@ != KEY_SIGNATURE@,
        KEY_SENDER@ != KEY_BODY@,
        KEY_AUTH@ != KEY_HOST@,
        KEY_AUTH@ != KEY_SIGNATURE@,
        KEY_AUTH@ != KEY_BODY@,
        KEY_HOST@ != KEY_SIGNATURE@,
        KEY_HOST@ != KEY_BODY@,
        KEY_SIGNATURE@ != KEY_BODY@,
{
    reveal_strlit("opcode");
    reveal_strlit("class");
    reveal_strlit("instance");
    reveal_strlit("sender");
    reveal_strlit("auth");
    reveal_strlit("fromhost");
    reveal_strlit("signature");
    reveal_strlit("body");
    assert(KEY_OPCODE@[0] == 'o');
    assert(KEY_CLASS@[0] == 'c');
    assert(KEY_INSTANCE@[0] == 'i');
    assert(KEY_SENDER@[0] == 's');
    assert(KEY_SENDER@[1] == 'e');
    assert(KEY_AUTH@[0] == 'a');
    assert(KEY_HOST@[0] == 'f');
    assert(KEY_SIGNATURE@[0] == 's');
    assert(KEY_SIGNATURE@[1] == 'i');
    assert(KEY_BODY@[0] == 'b');
}

/// Reads a block of text as a notice. The values of each key are put
/// together in the order of their lines; a notice is authenticated where
/// the value of `auth` is exactly `yes`. The values of `time` and `date` are
/// not read: the date of the notice is always 0. A line that holds a known
/// key and no value makes the block malformed.
pub fn decode(raw: &str) -> (r: Result<Notice, DecodeError>)
    ensures
        result_view(r) == decoded(raw@),
        r matches Ok(notice) ==> notice@.well_formed(),
{
    let lines = split(raw, '\n');
    let ghost all = slice_views(lines@);
    let mut opcode = String::new();
    let mut class = String::new();
    let mut instance = String::new();
    let mut sender = String::new();
    let mut auth = String::new();
    let mut host = String::new();
    let mut zsig = String::new();
    let mut body: Vec<String> = Vec::new();
    let mut i: usize = 0;
    proof {
        assert(all.skip(0) =~= all);
        assert(all.take(0) =~= Seq::<Seq<char>>::empty());
    }
    while i < lines.len()
        invariant
            i <= lines.len(),
            all == slice_views(lines@),
            all == split_on(raw@, '\n'),
            first_lacking(all) == i + first_lacking(all.skip(i as int)),
            opcode@ == text_of(all.take(i as int), KEY_OPCODE@),
            class@ == text_of(all.take(i as int), KEY_CLASS@),
            instance@ == text_of(all.take(i as int), KEY_INSTANCE@),
            sender@ == text_of(all.take(i as int), KEY_SENDER@),
            auth@ == text_of(all.take(i as int), KEY_AUTH@),
            host@ == text_of(all.take(i as int), KEY_HOST@),
            zsig@ == text_of(all.take(i as int), KEY_SIGNATURE@),
            views(body@) == values_of(all.take(i as int), KEY_BODY@),
        decreases lines.len() - i,
    {
        let line = lines[i];
        let (key, value) = parse_line(line);
        proof {
            lemma_keys_differ();
            let seen = all.take(i as int);
            assert(all.take(i + 1) =~= seen.push(line@));
            lemma_next_line(seen, line@, KEY_OPCODE@);
            lemma_next_line(seen, line@, KEY_CLASS@);
            lemma_next_line(seen, line@, KEY_INSTANCE@);
            lemma_next_line(seen, line@, KEY_SENDER@);
            lemma_next_line(seen, line@, KEY_AUTH@);
            lemma_next_line(seen, line@, KEY_HOST@);
            lemma_next_line(seen, line@, KEY_SIGNATURE@);
            lemma_next_line(seen, line@, KEY_BODY@);
            assert(all.skip(i as int)[0] == line@);
            assert(all.skip(i as int).skip(1) =~= all.skip(i + 1));
        }
        match value {
            None => {
                if is_known(key) {
                    return Err(DecodeError::MissingValue(i));
                }
            },
            Some(value) => {
                if str_eq(key, KEY_OPCODE) {
                    opcode.append(value);
                } else if str_eq(key, KEY_CLASS) {
                    class.append(value);
                } else if str_eq(key, KEY_INSTANCE) {
                    instance.append(value);
                } else if str_eq(key, KEY_SENDER) {
                    sender.append(value);
                } else if str_eq(key, KEY_AUTH) {
                    auth.append(value);
                } else if str_eq(key, KEY_HOST) {
                    host.append(value);
                } else if str_eq(key, KEY_SIGNATURE) {
                    zsig.append(value);
                } else if str_eq(key, KEY_BODY) {
                    let owned = String::from_str(value);
                    proof {
                        lemma_views_push(body@, owned);
                    }
                    body.push(owned);
                }
            },
        }
        i += 1;
    }
    proof {
        assert(all.take(lines.len() as int) =~= all);
    }
    let is_auth = str_eq(auth.as_str(), AUTH_YES);
    Ok(
        Notice {
            opcode,
            direction: Direction::Incoming,
            class,
            instance,
            sender,
            zsig,
            body,
            incoming_data: Some(IncomingData { is_auth, date: 0, host }),
        },
    )
}

/// `std::str::from_utf8`: the text that `bytes` encode, where they are
/// valid UTF-8.
///
/// Trusted: the result is `Some` exactly when the bytes are valid UTF-8, and
/// then holds the characters that they decode to.
#[verifier::external_body]
fn utf8_text(bytes: &[u8]) -> (text: Option<&str>)
    ensures
        text is Some <==> valid_utf8(bytes@),
        text matches Some(t) ==> t@ == decode_utf8(bytes@),
{
    std::str::from_utf8(bytes).ok()
}

/// Reads a block of bytes as a notice: the bytes have to be UTF-8 text, and
/// the text is read as `decode` reads it.
pub fn decode_block(bytes: &[u8]) -> (r: Result<Notice, DecodeError>)
    ensures
        result_view(r) == decoded_bytes(bytes@),
        r matches Ok(notice) ==> notice@.well_formed(),
{
    match utf8_text(bytes) {
        Some(raw) => decode(raw),
        None => Err(DecodeError::NotText),
    }
}

/// The message that the sender is given for a body: each line, followed by
/// a newline.
pub open spec fn message_of(body: Seq<Seq<char>>) -> Seq<char>
    decreases body.len(),
{
    if body.len() == 0 {
        Seq::empty()
    } else {
        (message_of(body.drop_last()) + body.last()).push('\n')
    }
}

/// The arguments that the sender is given for a notice: the flag that
/// makes it deliver without waiting, then the class, the instance, the
/// sender, the signature, the opcode and the message, each behind its flag.
pub open spec fn sender_arguments_of(notice: NoticeView) -> Seq<Seq<char>> {
    seq![
        "-d"@,
        "-c"@,
        notice.class,
        "-i"@,
        notice.instance,
        "-S"@,
        notice.sender,
        "-s"@,
        notice.zsig,
        "-O"@,
        notice.opcode,
        "-m"@,
        message_of(notice.body),
    ]
}

/// The message that the sender is given for a body.
pub fn message(body: &Vec<String>) -> (text: String)
    ensures
        text@ == message_of(views(body@)),
{
    let mut text = String::new();
    let mut i: usize = 0;
    assert(views(body@).take(0) =~= Seq::<Seq<char>>::empty());
    while i < body.len()
        invariant
            i <= body.len(),
            text@ == message_of(views(body@).take(i as int)),
        decreases body.len() - i,
    {
        proof {
            reveal_strlit("\n");
            let upto = views(body@).take(i + 1);
            assert(upto.drop_last() =~= views(body@).take(i as int));
            assert(upto.last() == body@[i as int]@);
        }
        let ghost before = text@;
        text.append(body[i].as_str());
        text.append("\n");
        assert(text@ =~= (before + body@[i as int]@).push('\n'));
        i += 1;
    }
    assert(views(body@).take(body.len() as int) =~= views(body@));
    text
}

/// The arguments that the sender is given for `notice`.
pub fn sender_arguments(notice: &Notice) -> (arguments: Vec<String>)
    ensures
        views(arguments@) == sender_arguments_of(notice@),
{
    let mut arguments: Vec<String> = Vec::new();
    arguments.push(String::from_str("-d"));
    arguments.push(String::from_str("-c"));
    arguments.push(notice.class.clone());
    arguments.push(String::from_str("-i"));
    arguments.push(notice.instance.clone());
    arguments.push(String::from_str("-S"));
    arguments.push(notice.sender.clone());
    arguments.push(String::from_str("-s"));
    arguments.push(notice.zsig.clone());
    arguments.push(String::from_str("-O"));
    arguments.push(notice.opcode.clone());
    arguments.push(String::from_str("-m"));
    arguments.push(message(&notice.body));
    assert(views(arguments@) =~= sender_arguments_of(notice@));
    arguments
}

} // verus!
