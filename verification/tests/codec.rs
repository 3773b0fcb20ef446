use zephyr_bot::codec::{decode, decode_block, message, sender_arguments, DecodeError};
use zephyr_bot::transport::{
    receiver_arguments, subscription_file, Step, Zephyr, CHUNK, FORMAT,
    RECEIVER, SENDER,
};
use zephyr_bot::zephyr::{Direction, Notice, Triplet};

const BLOCK: &str = "opcode: \nclass: help\ninstance: ai\nsender: alice\nauth: yes\ntime: 12:00\ndate: today\nfromhost: host.example\nsignature: Alice A.\nbody: topy, sit.\nbody: please\ndone\n";

#[test]
fn a_block_is_read_field_by_field() {
    let n = decode(BLOCK).unwrap();
    assert_eq!(n.opcode, "");
    assert_eq!(n.direction, Direction::Incoming);
    assert_eq!(n.class, "help");
    assert_eq!(n.instance, "ai");
    assert_eq!(n.sender, "alice");
    assert_eq!(n.zsig, "Alice A.");
    assert_eq!(n.body, vec!["topy, sit.".to_string(), "please".to_string()]);
    let data = n.incoming_data.unwrap();
    assert!(data.is_auth);
    assert_eq!(data.date, 0);
    assert_eq!(data.host, "host.example");
}

#[test]
fn only_yes_authenticates() {
    assert!(decode("auth: yes").unwrap().is_auth());
    assert!(!decode("auth: Yes").unwrap().is_auth());
    assert!(!decode("auth: no").unwrap().is_auth());
    assert!(!decode("auth: yes ").unwrap().is_auth());
    assert!(!decode("class: help").unwrap().is_auth());
    // The values of a key that comes twice are read as one text.
    assert!(decode("auth: y\nauth: es").unwrap().is_auth());
}

#[test]
fn a_key_that_comes_again_adds_to_its_text() {
    let n = decode("class: he\nclass: lp\nbody: a\ninstance: ai\nbody: b").unwrap();
    assert_eq!(n.class, "help");
    assert_eq!(n.instance, "ai");
    assert_eq!(n.body, vec!["a".to_string(), "b".to_string()]);
}

#[test]
fn unknown_keys_are_passed_over() {
    let n = decode("colour: red\nclass: help\ndone\n\nwhatever").unwrap();
    assert_eq!(n.class, "help");
    assert!(n.body.is_empty());
}

#[test]
fn a_value_is_cut_at_the_first_separator_only() {
    let n = decode("body: a: b: c\nsignature: ").unwrap();
    assert_eq!(n.body, vec!["a: b: c".to_string()]);
    assert_eq!(n.zsig, "");
}

#[test]
fn an_empty_block_is_an_empty_notice() {
    let n = decode("").unwrap();
    assert_eq!(n.opcode, "");
    assert_eq!(n.class, "");
    assert!(n.body.is_empty());
    assert!(n.incoming_data.is_some());
}

#[test]
fn a_known_key_without_value_is_malformed() {
    assert_eq!(decode("class").err(), Some(DecodeError::MissingValue(0)));
    assert_eq!(decode("class: help\nbody\nopcode").err(), Some(DecodeError::MissingValue(1)));
    assert_eq!(decode("class: help\nx\ntime").err(), Some(DecodeError::MissingValue(2)));
    assert_eq!(decode("body:").err(), None);
    assert_eq!(decode("body:x").err(), None);
}

#[test]
fn bytes_have_to_be_text() {
    assert_eq!(decode_block(&[0xff, 0xfe]).err(), Some(DecodeError::NotText));
    let n = decode_block("class: h\u{e9}lp\nbody: x".as_bytes()).unwrap();
    assert_eq!(n.class, "h\u{e9}lp");
    assert_eq!(n.body, vec!["x".to_string()]);
    assert_eq!(decode_block(b"sender").err(), Some(DecodeError::MissingValue(0)));
}

#[test]
fn the_message_ends_each_line_with_a_newline() {
    assert_eq!(message(&vec!["a".to_string(), "b".to_string()]), "a\nb\n");
    assert_eq!(message(&vec![]), "");
    assert_eq!(message(&vec!["".to_string()]), "\n");
}

#[test]
fn the_sender_gets_each_field_behind_its_flag() {
    let n = Notice::new_outgoing("AUTO", "help", "ai", "topy", "woof", "one\ntwo");
    assert_eq!(
        sender_arguments(&n),
        vec!["-d", "-c", "help", "-i", "ai", "-S", "topy", "-s", "woof", "-O", "AUTO", "-m", "one\ntwo\n"]
    );
    assert_eq!(SENDER, "zwrite");
}

#[test]
fn the_receiver_is_started_on_its_two_files() {
    assert_eq!(
        receiver_arguments("/tmp/f", "/tmp/s"),
        vec!["-nofork", "-ttymode", "-f", "/tmp/f", "-subfile", "/tmp/s"]
    );
    assert_eq!(RECEIVER, "zwgc");
    assert!(FORMAT.contains("print \"done\\n\""));
}

#[test]
fn a_subscription_is_one_line_with_stars_for_wildcards() {
    assert_eq!(Triplet::of_class("help").to_line(), "help,*,*");
    assert_eq!(Triplet::of_instance("help", "ai").to_line(), "help,ai,*");
    assert_eq!(Triplet::new("help", "ai", "bob").to_line(), "help,ai,bob");
    assert_eq!(
        subscription_file(&vec![Triplet::of_class("help"), Triplet::new("a", "b", "c")]),
        "help,*,*\na,b,c\n"
    );
    assert_eq!(subscription_file(&vec![]), "");
}

#[test]
fn a_short_read_ends_the_block() {
    let (mut zio, _) = Zephyr::new(vec![]);
    assert!(zio.read_raw(&[b'a'; CHUNK]).is_none());
    assert_eq!(zio.read_raw(b"bc"), Some([vec![b'a'; CHUNK], b"bc".to_vec()].concat()));
    // The next block starts from nothing.
    assert_eq!(zio.read_raw(b"x"), Some(b"x".to_vec()));
    assert_eq!(zio.read_raw(b""), Some(vec![]));
    assert_eq!(CHUNK, 512);
}

#[test]
fn a_complete_block_is_read_as_a_notice() {
    let (mut zio, _) = Zephyr::new(vec![]);
    let head = [b"colour: ".to_vec(), vec![b'a'; CHUNK - 8]].concat();
    assert!(zio.read(&head).is_none());
    let n = zio.read(b"\nclass: help").unwrap().unwrap();
    assert_eq!(n.class, "help");
    assert_eq!(zio.read(b"class").unwrap().err(), Some(DecodeError::MissingValue(0)));
    assert_eq!(zio.read(&[0xff]).unwrap().err(), Some(DecodeError::NotText));
    assert!(zio.read(b"").unwrap().is_ok());
}

#[test]
fn the_transport_starts_by_throwing_a_block_away() {
    let (zio, steps) = Zephyr::new(vec![Triplet::of_class("help")]);
    assert_eq!(steps, vec![Step::WriteFiles, Step::Spawn, Step::DiscardBlock]);
    assert!(zio.is_running());
    assert_eq!(zio.subs(), &vec![Triplet::of_class("help")]);
    assert_eq!(zio.sub_file(), "help,*,*\n");
}

#[test]
fn the_receiver_is_stopped_before_it_is_started_again() {
    let (mut zio, _) = Zephyr::new(vec![]);
    assert_eq!(zio.restart(), vec![Step::Kill, Step::Spawn]);
    assert!(zio.is_running());
    assert_eq!(zio.kill(), vec![Step::Kill]);
    assert_eq!(zio.restart(), vec![Step::Spawn]);
    assert!(zio.is_running());
}

#[test]
fn stopping_twice_is_stopping_once() {
    let (mut zio, _) = Zephyr::new(vec![]);
    assert_eq!(zio.kill(), vec![Step::Kill]);
    assert!(!zio.is_running());
    assert_eq!(zio.kill(), vec![]);
    assert!(!zio.is_running());
    assert_eq!(zio.close(), vec![Step::RemoveFiles]);
    let (mut zio, _) = Zephyr::new(vec![]);
    assert_eq!(zio.close(), vec![Step::Kill, Step::RemoveFiles]);
    assert!(!zio.is_running());
}

#[test]
fn a_step_that_failed_is_taken_note_of() {
    let (mut zio, _) = Zephyr::new(vec![Triplet::of_class("help")]);
    zio.spawn_failed();
    assert!(!zio.is_running());
    assert_eq!(zio.restart(), vec![Step::Spawn]);
    assert!(zio.read_raw(&[b'a'; CHUNK]).is_none());
    zio.spawn_failed();
    assert!(!zio.is_running());
    assert_eq!(zio.kill(), vec![]);
    zio.kill_failed();
    assert!(zio.is_running());
    assert_eq!(zio.kill(), vec![Step::Kill]);
    assert_eq!(zio.subs(), &vec![Triplet::of_class("help")]);
    // What had come in before the failed start is gone.
    assert_eq!(zio.restart(), vec![Step::Spawn]);
    assert_eq!(zio.read_raw(b"x"), Some(b"x".to_vec()));
}

#[test]
fn stopping_drops_what_had_come_in() {
    let (mut zio, _) = Zephyr::new(vec![]);
    assert!(zio.read_raw(&[b'a'; CHUNK]).is_none());
    zio.restart();
    assert_eq!(zio.read_raw(b"x"), Some(b"x".to_vec()));
}

#[test]
fn sending_takes_the_arguments_of_the_notice() {
    let (zio, _) = Zephyr::new(vec![]);
    let n = Notice::new_outgoing("AUTO", "help", "ai", "topy", "woof", "hi");
    assert_eq!(zio.zwrite(&n), sender_arguments(&n));
}
