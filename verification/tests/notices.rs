use zephyr_bot::zephyr::{clone_lines, Direction, IncomingData, Notice, Triplet, AUTO, PERSONAL};

fn inbound(class: &str, instance: &str, auth: bool) -> Notice {
    Notice {
        opcode: "".to_string(),
        direction: Direction::Incoming,
        class: class.to_string(),
        instance: instance.to_string(),
        sender: "alice".to_string(),
        zsig: "hi".to_string(),
        body: vec!["hello".to_string()],
        incoming_data: Some(IncomingData { is_auth: auth, date: 0, host: "host".to_string() }),
    }
}

#[test]
fn an_outgoing_notice_carries_what_it_was_given() {
    let n = Notice::new_outgoing("op", "help", "ai", "topy", "woof", "hello world");
    assert_eq!(n.opcode, "op");
    assert_eq!(n.direction, Direction::Outgoing);
    assert_eq!(n.class, "help");
    assert_eq!(n.instance, "ai");
    assert_eq!(n.sender, "topy");
    assert_eq!(n.zsig, "woof");
    assert_eq!(n.body, vec!["hello world".to_string()]);
    assert!(n.incoming_data.is_none());
}

#[test]
fn the_default_width_is_seventy() {
    let seventy = "a".repeat(34) + " " + &"b".repeat(35);
    assert_eq!(seventy.len(), 70);
    let n = Notice::new_outgoing("", "c", "i", "s", "z", &seventy);
    assert_eq!(n.body, vec![seventy.clone()]);
    let longer = "a".repeat(35) + " " + &"b".repeat(35);
    assert_eq!(longer.len(), 71);
    let n = Notice::new_outgoing("", "c", "i", "s", "z", &longer);
    assert_eq!(n.body, vec!["a".repeat(35), "b".repeat(35)]);
}

#[test]
fn an_outgoing_notice_is_wrapped_to_the_width_asked_for() {
    let n = Notice::new_outgoing_with_wrap("", "c", "i", "s", "z", "one two three", 10);
    assert_eq!(n.body, vec!["one two".to_string(), "three".to_string()]);
}

#[test]
fn a_reply_to_a_notice_goes_back_to_its_topic() {
    let reply = inbound("help", "ai", true).make_reply("topy", "woof", "hello");
    assert_eq!(reply.class, "help");
    assert_eq!(reply.instance, "ai");
    assert_eq!(reply.opcode, AUTO);
    assert_eq!(reply.opcode, "AUTO");
    assert_eq!(reply.sender, "topy");
    assert_eq!(reply.zsig, "woof");
    assert_eq!(reply.body, vec!["hello".to_string()]);
    assert_eq!(reply.direction, Direction::Outgoing);
    assert!(reply.incoming_data.is_none());
}

#[test]
fn a_reply_to_a_triplet_without_instance_is_personal() {
    let reply = Triplet::of_class("help").make_reply("topy", "woof", "hello");
    assert_eq!(reply.class, "help");
    assert_eq!(reply.instance, "personal");
    assert_eq!(PERSONAL, "personal");
    let reply = Triplet::of_instance("help", "ai").make_reply("topy", "woof", "hello");
    assert_eq!(reply.instance, "ai");
    let reply = Triplet::new("help", "ai", "bob").make_reply("topy", "woof", "hello");
    assert_eq!(reply.class, "help");
    assert_eq!(reply.instance, "ai");
}

#[test]
fn the_triplet_of_a_notice_is_its_class_and_instance() {
    let t = inbound("help", "ai", true).triplet();
    assert_eq!(t.class, "help");
    assert_eq!(t.instance, Some("ai".to_string()));
    assert_eq!(t.recipient, None);
}

#[test]
fn triplets_are_made_of_what_they_are_given() {
    let t = Triplet::of_class("help");
    assert_eq!((t.class.as_str(), t.instance, t.recipient), ("help", None, None));
    let t = Triplet::of_instance("help", "ai");
    assert_eq!((t.class.as_str(), t.instance, t.recipient), ("help", Some("ai".to_string()), None));
    let t = Triplet::new("help", "ai", "bob");
    assert_eq!(
        (t.class.as_str(), t.instance, t.recipient),
        ("help", Some("ai".to_string()), Some("bob".to_string()))
    );
}

#[test]
fn triplets_compare_by_what_they_hold() {
    assert!(Triplet::of_class("help") == Triplet::of_class("help"));
    assert!(Triplet::of_class("help") != Triplet::of_class("other"));
    assert!(Triplet::of_class("help") != Triplet::of_instance("help", "ai"));
    assert!(Triplet::of_instance("help", "ai") == Triplet::of_instance("help", "ai"));
    assert!(Triplet::of_instance("help", "ai") != Triplet::new("help", "ai", "bob"));
    assert!(Triplet::new("help", "ai", "bob") == Triplet::new("help", "ai", "bob").clone());
}

#[test]
fn a_wildcard_instance_covers_every_instance() {
    let n = inbound("help", "ai", true);
    assert!(n.was_sent_to(&Triplet::of_class("help")));
    assert!(n.was_sent_to(&Triplet::of_instance("help", "ai")));
    assert!(n.was_sent_to(&Triplet::new("help", "ai", "bob")));
    assert!(!n.was_sent_to(&Triplet::of_instance("help", "other")));
    assert!(!n.was_sent_to(&Triplet::of_class("other")));
    assert!(!n.was_sent_to(&Triplet::of_instance("other", "ai")));
}

#[test]
fn only_a_received_notice_can_be_authenticated() {
    assert!(inbound("help", "ai", true).is_auth());
    assert!(!inbound("help", "ai", false).is_auth());
    assert!(!Notice::new_outgoing("", "c", "i", "s", "z", "b").is_auth());
}

#[test]
fn a_copy_of_a_notice_holds_the_same() {
    let n = inbound("help", "ai", true);
    let c = n.clone();
    assert_eq!(c.opcode, n.opcode);
    assert_eq!(c.direction, n.direction);
    assert_eq!(c.class, n.class);
    assert_eq!(c.instance, n.instance);
    assert_eq!(c.sender, n.sender);
    assert_eq!(c.zsig, n.zsig);
    assert_eq!(c.body, n.body);
    let data = c.incoming_data.unwrap();
    assert!(data.is_auth);
    assert_eq!(data.host, "host");
    assert_eq!(clone_lines(&vec!["a".to_string(), "b".to_string()]), vec!["a", "b"]);
}
