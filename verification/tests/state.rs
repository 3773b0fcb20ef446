use zephyr_bot::bot::builder::Builder;
use zephyr_bot::bot::{Bot, State};
use zephyr_bot::command::{CommandMatch, Scope, Shape};
use zephyr_bot::signature::Signature;
use zephyr_bot::store::{Store, Value};
use zephyr_bot::zephyr::{Direction, IncomingData, Notice, Triplet};

fn inbound(class: &str, instance: &str) -> Notice {
    Notice {
        opcode: "".to_string(),
        direction: Direction::Incoming,
        class: class.to_string(),
        instance: instance.to_string(),
        sender: "alice".to_string(),
        zsig: "".to_string(),
        body: vec![],
        incoming_data: Some(IncomingData { is_auth: true, date: 0, host: "host".to_string() }),
    }
}

fn state() -> State<u32> {
    State::new("topy", "help", "ai", Signature::fixed("woof"), 7, vec![Triplet::of_class("help")])
}

fn sent(n: &Notice) -> (String, String, String, String, String, Vec<String>) {
    (
        n.opcode.clone(),
        n.class.clone(),
        n.instance.clone(),
        n.sender.clone(),
        n.zsig.clone(),
        n.body.clone(),
    )
}

fn reply(class: &str, instance: &str, zsig: &str, body: &str) -> (String, String, String, String, String, Vec<String>) {
    (
        "AUTO".to_string(),
        class.to_string(),
        instance.to_string(),
        "topy".to_string(),
        zsig.to_string(),
        vec![body.to_string()],
    )
}

#[test]
fn a_new_state_has_nothing_queued_and_nothing_stored() {
    let st = state();
    assert_eq!(st.name, "topy");
    assert_eq!(st.class, "help");
    assert_eq!(st.instance, "ai");
    assert_eq!(*st.extra_ref(), 7);
    assert_eq!(st.subs(), &vec![Triplet::of_class("help")]);
    assert!(st.outbox.is_empty());
    assert!(st.data.get("anything").is_none());
}

#[test]
fn replies_are_queued_in_order() {
    let mut st = state();
    st.reply_here("one");
    st.reply_here_zsigned("meow", "two");
    st.reply_to(&inbound("other", "place"), "three");
    st.reply_to_zsigned(&inbound("other", "place"), "meow", "four");
    st.reply_at(&Triplet::of_class("third"), "five");
    st.reply_at_zsigned(&Triplet::new("third", "x", "bob"), "meow", "six");
    let got: Vec<_> = st.outbox.iter().map(sent).collect();
    assert_eq!(
        got,
        vec![
            reply("help", "ai", "woof", "one"),
            reply("help", "ai", "meow", "two"),
            reply("other", "place", "woof", "three"),
            reply("other", "place", "meow", "four"),
            reply("third", "personal", "woof", "five"),
            reply("third", "x", "meow", "six"),
        ]
    );
    assert_eq!(st.name, "topy");
    assert_eq!(*st.extra_ref(), 7);
}

#[test]
fn zwrite_queues_a_copy() {
    let mut st = state();
    let n = Notice::new_outgoing("op", "c", "i", "s", "z", "body");
    st.zwrite(&n);
    assert_eq!(st.outbox.len(), 1);
    assert_eq!(sent(&st.outbox[0]), sent(&n));
    let taken = st.take_outbox();
    assert_eq!(taken.len(), 1);
    assert!(st.outbox.is_empty());
    assert!(st.take_outbox().is_empty());
}

#[test]
fn a_long_reply_is_wrapped() {
    let mut st = state();
    let long = "a".repeat(40) + " " + &"b".repeat(40);
    st.reply_here(&long);
    assert_eq!(st.outbox[0].body, vec!["a".repeat(40), "b".repeat(40)]);
}

#[test]
fn the_location_is_where_the_bot_is() {
    let mut st = state();
    assert_eq!(st.location(), Triplet::of_instance("help", "ai"));
    st.move_to(Triplet::of_instance("other", "place"));
    assert_eq!(st.location(), Triplet::of_instance("other", "place"));
    assert_eq!(st.class, "other");
    assert_eq!(st.instance, "place");
    st.move_to(Triplet::of_class("third"));
    assert_eq!(st.location(), Triplet::of_instance("third", "personal"));
    // Moving does not subscribe.
    assert_eq!(st.subs(), &vec![Triplet::of_class("help")]);
}

#[test]
fn the_bots_own_data_can_be_changed_in_place() {
    let mut st = state();
    *st.extra_mut() += 1;
    assert_eq!(*st.extra_ref(), 8);
}

#[test]
fn what_is_stored_is_read_back_under_its_kind() {
    let mut store = Store::new();
    assert!(store.insert("count", Value::Number(3)).is_none());
    assert_eq!(store.get_number("count"), Some(3));
    assert_eq!(store.get_flag("count"), None);
    assert_eq!(store.get_text("count"), None);
    assert!(store.insert("on", Value::Flag(true)).is_none());
    assert_eq!(store.get_flag("on"), Some(true));
    assert_eq!(store.get_number("on"), None);
    assert_eq!(store.get_text("on"), None);
    assert!(store.insert("who", Value::Text("alice".to_string())).is_none());
    assert_eq!(store.get_text("who"), Some("alice"));
    assert_eq!(store.get_flag("who"), None);
    assert_eq!(store.get_number("who"), None);
    assert_eq!(store.get_number("count"), Some(3));
    assert_eq!(store.get_number("missing"), None);
}

#[test]
fn storing_again_replaces() {
    let mut store = Store::new();
    store.insert("k", Value::Number(1));
    let old = store.insert("k", Value::Text("x".to_string()));
    assert!(matches!(old, Some(Value::Number(1))));
    assert_eq!(store.get_number("k"), None);
    assert_eq!(store.get_text("k"), Some("x"));
    assert!(matches!(store.get("k"), Some(Value::Text(_))));
}

#[test]
fn what_is_removed_is_gone() {
    let mut store = Store::new();
    store.insert("a", Value::Number(1));
    store.insert("b", Value::Flag(false));
    assert!(matches!(store.remove("a"), Some(Value::Number(1))));
    assert!(store.remove("a").is_none());
    assert!(store.get("a").is_none());
    assert_eq!(store.get_flag("b"), Some(false));
    assert!(store.remove("missing").is_none());
}

#[test]
fn the_state_carries_a_store() {
    let mut st = state();
    st.data.insert("seen", Value::Number(1));
    assert_eq!(st.data.get_number("seen"), Some(1));
    assert_eq!(st.data.get_text("seen"), None);
}

#[test]
fn a_fixed_signature_is_always_the_same() {
    let s = Signature::fixed("woof");
    assert_eq!(s.sign(), "woof");
    assert_eq!(s.sign(), "woof");
}

#[test]
fn a_picked_signature_is_one_of_those_given() {
    let given = vec!["woof".to_string(), "bark".to_string(), "arf".to_string()];
    let s = Signature::one_of(given.clone());
    let mut seen = std::collections::HashSet::new();
    for _ in 0..200 {
        let z = s.sign();
        assert!(given.contains(&z));
        seen.insert(z);
    }
    // With two hundred draws from three, more than one is seen.
    assert!(seen.len() > 1);
    let only = Signature::one_of(vec!["woof".to_string()]);
    assert_eq!(only.sign(), "woof");
}

#[test]
fn a_computed_signature_is_what_the_closure_gives() {
    let s = Signature::computed(|| "grr".to_string());
    assert_eq!(s.sign(), "grr");
}

#[test]
fn a_builder_starts_empty() {
    let b = Builder::new("topy", ("help", "ai"));
    assert_eq!(b.name, "topy");
    assert_eq!(b.class, "help");
    assert_eq!(b.instance, "ai");
    assert_eq!(b.zsig.sign(), "");
    assert!(b.subs.is_empty());
    assert!(b.commands.is_empty());
    assert!(b.pre_command_handlers.is_empty());
    assert!(b.post_command_handlers.is_empty());
}

#[test]
fn a_builder_collects_subscriptions_in_order() {
    let b = Bot::build("topy", ("help", "ai"))
        .sub_to_class("help")
        .sub_to_classes(vec!["a", "b"])
        .sub_to(vec![Triplet::new("c", "d", "e")]);
    assert_eq!(
        b.subs,
        vec![
            Triplet::of_class("help"),
            Triplet::of_class("a"),
            Triplet::of_class("b"),
            Triplet::new("c", "d", "e")
        ]
    );
}

#[test]
fn a_builder_sets_the_signature() {
    assert_eq!(Bot::build("topy", ("help", "ai")).with_zsig("woof").zsig.sign(), "woof");
    assert_eq!(Bot::build("topy", ("help", "ai")).zsig_fn(|| "grr".to_string()).zsig.sign(), "grr");
    let b = Bot::build("topy", ("help", "ai")).with_zsigs(vec!["woof", "bark"]);
    for _ in 0..20 {
        let z = b.zsig.sign();
        assert!(z == "woof" || z == "bark");
    }
}

#[test]
fn a_built_bot_runs_what_was_registered() {
    let mut bot = Bot::build("topy", ("help", "ai"))
        .with_zsig("woof")
        .sub_to_class("help")
        .with_extra(Vec::<String>::new())
        .pre(|state: &mut State<Vec<String>>, _notice: &Notice| {
            state.extra_mut().push("pre".to_string());
            false
        })
        .command(
            Shape::order(),
            Scope::Local,
            vec!["sit"],
            |state: &mut State<Vec<String>>, notice: &Notice, found: &CommandMatch| {
                state.extra_mut().push(found.command.to_string());
                state.reply_to(notice, "sitting");
            },
        )
        .post(|state: &mut State<Vec<String>>, _notice: &Notice| {
            state.extra_mut().push("post".to_string());
            true
        })
        .build();
    assert_eq!(bot.state.name, "topy");
    assert_eq!(bot.state.subs(), &vec![Triplet::of_class("help")]);
    let mut n = inbound("help", "ai");
    n.body = vec!["topy, sit.".to_string()];
    bot.tick(n);
    assert_eq!(bot.state.extra_ref(), &vec!["pre".to_string(), "sit".to_string()]);
    assert_eq!(bot.state.outbox.len(), 1);
    assert_eq!(bot.state.outbox[0].zsig, "woof");
    assert_eq!(bot.state.outbox[0].body, vec!["sitting".to_string()]);
    bot.tick(inbound("help", "ai"));
    assert_eq!(
        bot.state.extra_ref(),
        &vec!["pre".to_string(), "sit".to_string(), "pre".to_string(), "post".to_string()]
    );
}

#[test]
fn new_data_keeps_what_was_set_before() {
    let b = Bot::build("topy", ("help", "ai")).with_zsig("woof").sub_to_class("help").with_extra(5u8);
    assert_eq!(b.name, "topy");
    assert_eq!(b.class, "help");
    assert_eq!(b.instance, "ai");
    assert_eq!(b.zsig.sign(), "woof");
    assert_eq!(b.extra, 5);
    assert_eq!(b.subs, vec![Triplet::of_class("help")]);
    assert!(b.pre_command_handlers.is_empty());
    assert!(b.commands.is_empty());
    assert!(b.post_command_handlers.is_empty());
}
