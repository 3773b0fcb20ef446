use zephyr_bot::bot::{Bot, State, TICK_PAUSE_MILLIS};
use zephyr_bot::command::{Command, CommandMatch, Handler, Scope, Shape};
use zephyr_bot::signature::Signature;
use zephyr_bot::zephyr::{Direction, IncomingData, Notice};

fn inbound(class: &str, instance: &str, opcode: &str, body: &[&str]) -> Notice {
    Notice {
        opcode: opcode.to_string(),
        direction: Direction::Incoming,
        class: class.to_string(),
        instance: instance.to_string(),
        sender: "alice".to_string(),
        zsig: "".to_string(),
        body: body.iter().map(|l| l.to_string()).collect(),
        incoming_data: Some(IncomingData { is_auth: true, date: 0, host: "host".to_string() }),
    }
}

type Seen = Vec<(String, String, Vec<String>)>;

fn record(state: &mut State<Seen>, _notice: &Notice, found: &CommandMatch) {
    let args = found.args.iter().map(|a| a.to_string()).collect();
    state.extra_mut().push((found.referent.to_string(), found.command.to_string(), args));
}

fn seen(referent: &str, command: &str, args: &[&str]) -> (String, String, Vec<String>) {
    (referent.to_string(), command.to_string(), args.iter().map(|a| a.to_string()).collect())
}

fn state(extra: Seen) -> State<Seen> {
    State::new("topy", "help", "ai", Signature::fixed("woof"), extra, vec![])
}

fn bot(commands: Vec<Command<Seen>>, pre: Vec<Handler<Seen>>, post: Vec<Handler<Seen>>) -> Bot<Seen> {
    Bot::new("topy", "help", "ai", Signature::fixed("woof"), Seen::new(), vec![], commands, pre, post)
}

fn mark(label: &'static str, claims: bool) -> Handler<Seen> {
    Handler::new(move |state: &mut State<Seen>, _notice: &Notice| {
        state.extra_mut().push(seen(label, "", &[]));
        claims
    })
}

#[test]
fn local_order_fires_once_with_the_match() {
    let sit = Command::new(Shape::order(), Scope::Local, vec!["sit"], record);
    let mut bot = bot(vec![sit], vec![], vec![]);
    bot.tick(inbound("help", "ai", "", &["topy, sit."]));
    assert_eq!(bot.state.extra_ref(), &vec![seen("topy", "sit", &[])]);
}

#[test]
fn a_local_command_needs_the_topic_of_the_bot() {
    let sit = Command::new(Shape::order(), Scope::Local, vec!["sit"], record);
    let mut st = state(vec![]);
    assert!(!sit.try_exec(&mut st, &inbound("help", "other", "", &["topy, sit."])));
    assert!(!sit.try_exec(&mut st, &inbound("other", "ai", "", &["topy, sit."])));
    assert!(st.extra_ref().is_empty());
    assert!(sit.try_exec(&mut st, &inbound("help", "ai", "", &["topy, sit."])));
    assert_eq!(st.extra_ref(), &vec![seen("topy", "sit", &[])]);
}

#[test]
fn a_command_for_everywhere_fires_on_any_topic() {
    let sit = Command::new(Shape::order(), Scope::Everywhere, vec!["sit"], record);
    let mut st = state(vec![]);
    assert!(sit.try_exec(&mut st, &inbound("other", "place", "", &["topy, sit."])));
    assert!(sit.try_exec(&mut st, &inbound("help", "ai", "", &["topy, sit."])));
    assert_eq!(st.extra_ref().len(), 2);
    let secret = Command::new(Shape::order(), Scope::Secret, vec!["sit"], record);
    assert!(secret.try_exec(&mut st, &inbound("other", "place", "", &["topy, sit."])));
    assert_eq!(st.extra_ref().len(), 3);
}

#[test]
fn a_command_that_does_not_match_leaves_the_state_alone() {
    let sit = Command::new(Shape::order(), Scope::Everywhere, vec!["sit"], record);
    let mut st = state(vec![]);
    assert!(!sit.try_exec(&mut st, &inbound("help", "ai", "", &["topy, dance."])));
    assert!(!sit.try_exec(&mut st, &inbound("help", "ai", "", &["bob, sit."])));
    assert!(!sit.try_exec(&mut st, &inbound("help", "ai", "", &["hello there"])));
    assert!(st.extra_ref().is_empty());
    assert!(st.outbox.is_empty());
}

#[test]
fn the_body_is_joined_and_trimmed_before_it_is_matched() {
    let sit = Command::new(Shape::order(), Scope::Everywhere, vec!["sit"], record);
    let mut st = state(vec![]);
    assert!(sit.try_exec(&mut st, &inbound("help", "ai", "", &["  topy, sit.  ", ""])));
    assert!(sit.try_exec(&mut st, &inbound("help", "ai", "", &["", "topy, sit.", " "])));
    // A newline in the middle is not white space at an end.
    assert!(!sit.try_exec(&mut st, &inbound("help", "ai", "", &["topy,", "sit."])));
    assert_eq!(st.extra_ref().len(), 2);
}

#[test]
fn the_referent_is_the_name_the_bot_has_now() {
    let sit = Command::new(Shape::order(), Scope::Everywhere, vec!["sit"], record);
    let mut st = state(vec![]);
    st.name = "rex".to_string();
    assert!(!sit.try_exec(&mut st, &inbound("help", "ai", "", &["topy, sit."])));
    assert!(sit.try_exec(&mut st, &inbound("help", "ai", "", &["rex, sit."])));
}

#[test]
fn arguments_reach_the_action() {
    let give = Command::new(Shape::binary_invoke(), Scope::Local, vec!["give"], record);
    let mut bot = bot(vec![give], vec![], vec![]);
    bot.tick(inbound("help", "ai", "", &["topy.give('the cat', 'a toy')"]));
    assert_eq!(bot.state.extra_ref(), &vec![seen("topy", "give", &["the cat", "a toy"])]);
}

#[test]
fn pre_handler_wins_over_command() {
    let sit = Command::new(Shape::order(), Scope::Everywhere, vec!["sit"], record);
    let mut bot = bot(vec![sit], vec![mark("pre", true)], vec![mark("post", true)]);
    bot.tick(inbound("help", "ai", "", &["topy, sit."]));
    assert_eq!(bot.state.extra_ref(), &vec![seen("pre", "", &[])]);
}

#[test]
fn a_handler_that_passes_lets_the_command_run() {
    let sit = Command::new(Shape::order(), Scope::Everywhere, vec!["sit"], record);
    let mut bot = bot(vec![sit], vec![mark("pre", false)], vec![mark("post", true)]);
    bot.tick(inbound("help", "ai", "", &["topy, sit."]));
    assert_eq!(bot.state.extra_ref(), &vec![seen("pre", "", &[]), seen("topy", "sit", &[])]);
}

#[test]
fn steps_run_in_the_order_in_which_they_were_registered() {
    let sit = Command::new(Shape::order(), Scope::Everywhere, vec!["sit"], record);
    let lie = Command::new(Shape::order(), Scope::Everywhere, vec!["lie"], record);
    let mut bot = bot(
        vec![sit, lie],
        vec![mark("pre1", false), mark("pre2", false)],
        vec![mark("post1", false), mark("post2", true), mark("post3", true)],
    );
    bot.tick(inbound("help", "ai", "", &["hello"]));
    assert_eq!(
        bot.state.extra_ref(),
        &vec![
            seen("pre1", "", &[]),
            seen("pre2", "", &[]),
            seen("post1", "", &[]),
            seen("post2", "", &[])
        ]
    );
}

#[test]
fn the_first_command_that_fires_is_the_only_one() {
    let first = Command::new(Shape::order(), Scope::Everywhere, vec!["sit"], record);
    let second = Command::new(
        Shape::order(),
        Scope::Everywhere,
        vec!["sit"],
        |state: &mut State<Seen>, _notice: &Notice, _found: &CommandMatch| {
            state.extra_mut().push(seen("second", "", &[]));
        },
    );
    let mut bot = bot(vec![first, second], vec![], vec![mark("post", true)]);
    bot.tick(inbound("help", "ai", "", &["topy, sit."]));
    assert_eq!(bot.state.extra_ref(), &vec![seen("topy", "sit", &[])]);
}

#[test]
fn an_auto_notice_triggers_nothing() {
    let sit = Command::new(Shape::order(), Scope::Everywhere, vec!["sit"], record);
    let mut bot = bot(vec![sit], vec![mark("pre", true)], vec![mark("post", true)]);
    bot.tick(inbound("help", "ai", "AUTO", &["topy, sit."]));
    bot.tick(inbound("help", "ai", "AUTO", &[]));
    assert!(bot.state.extra_ref().is_empty());
    assert!(bot.state.outbox.is_empty());
    // Only the exact opcode is dropped.
    bot.tick(inbound("help", "ai", "auto", &["topy, sit."]));
    assert_eq!(bot.state.extra_ref(), &vec![seen("pre", "", &[])]);
}

#[test]
fn an_unclaimed_notice_is_dropped() {
    let sit = Command::new(Shape::order(), Scope::Everywhere, vec!["sit"], record);
    let mut bot = bot(vec![sit], vec![], vec![]);
    bot.tick(inbound("help", "ai", "", &["just chatting"]));
    assert!(bot.state.extra_ref().is_empty());
    assert!(bot.state.outbox.is_empty());
}

#[test]
fn a_turn_hands_out_the_replies_and_rests() {
    let greet = Command::new(
        Shape::order(),
        Scope::Local,
        vec!["greet"],
        |state: &mut State<Seen>, notice: &Notice, _found: &CommandMatch| {
            state.reply_to(notice, "hello");
        },
    );
    let mut bot = bot(vec![greet], vec![], vec![]);
    let turn = bot.turn(Some(inbound("help", "ai", "", &["topy, greet"])));
    assert_eq!(turn.pause_millis, 100);
    assert_eq!(TICK_PAUSE_MILLIS, 100);
    assert_eq!(turn.send.len(), 1);
    assert_eq!(turn.send[0].class, "help");
    assert_eq!(turn.send[0].instance, "ai");
    assert_eq!(turn.send[0].opcode, "AUTO");
    assert_eq!(turn.send[0].sender, "topy");
    assert_eq!(turn.send[0].zsig, "woof");
    assert_eq!(turn.send[0].body, vec!["hello".to_string()]);
    assert!(bot.state.outbox.is_empty());
    // The bot does not react to its own reply.
    let echo = turn.send[0].clone();
    let turn = bot.turn(Some(echo));
    assert!(turn.send.is_empty());
}

#[test]
fn a_failed_read_changes_nothing() {
    let mut bot = bot(vec![], vec![mark("pre", true)], vec![]);
    let turn = bot.turn(None);
    assert!(turn.send.is_empty());
    assert_eq!(turn.pause_millis, 100);
    assert!(bot.state.extra_ref().is_empty());
}

#[test]
fn a_handler_reports_what_its_action_reports() {
    let mut st = state(vec![]);
    assert!(mark("yes", true).try_exec(&mut st, &inbound("help", "ai", "", &[])));
    assert!(!mark("no", false).try_exec(&mut st, &inbound("help", "ai", "", &[])));
    assert_eq!(st.extra_ref(), &vec![seen("yes", "", &[]), seen("no", "", &[])]);
}
