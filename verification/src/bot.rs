//! The bot and its state.

use crate::command::{Command, Handler};
use crate::signature::Signature;
use crate::store::Store;
use crate::zephyr::{Notice, NoticeView, Triplet, TripletView, AUTO, PERSONAL};
use vstd::prelude::*;
use vstd::string::*;

pub mod builder;

verus! {

/// The plain values of a list of notices.
pub open spec fn notice_views(notices: Seq<Notice>) -> Seq<NoticeView> {
    notices.map_values(|n: Notice| n@)
}

/// The plain values of a list of triplets.
pub open spec fn triplet_views(triplets: Seq<Triplet>) -> Seq<TripletView> {
    triplets.map_values(|t: Triplet| t@)
}

/// What a bot carries from notice to notice, and what its commands and
/// handlers work on: who and where it is, how it signs, what it is
/// subscribed to, what it remembers, and the replies that wait to be sent.
pub struct State<E> {
    /// The name the bot answers to.
    pub name: String,
    /// The class the bot is on.
    pub class: String,
    /// The instance the bot is on.
    pub instance: String,
    /// Where the signatures of replies come from.
    pub zsig: Signature,
    /// The bot's own data.
    pub extra: E,
    /// The triplets the bot is subscribed to.
    pub subs: Vec<Triplet>,
    /// The notices that wait to be sent, oldest first.
    pub outbox: Vec<Notice>,
    /// What the bot remembers.
    pub data: Store,
}

impl<E> State<E> {
    /// The plain values of the notices that wait to be sent.
    pub open spec fn outbox(self) -> Seq<NoticeView> {
        notice_views(self.outbox@)
    }

    /// The topic the bot is on.
    pub open spec fn topic(self) -> TripletView {
        TripletView { class: self.class@, instance: Some(self.instance@), recipient: None }
    }

    /// Whether this state is `before` with `notice` queued behind the
    /// notices that waited already, and nothing else changed.
    pub open spec fn queued_after(self, before: State<E>, notice: NoticeView) -> bool {
        self.outbox() == before.outbox().push(notice) && self.same_but_outbox(before)
    }

    /// Whether `other` differs from this state in nothing but the notices
    /// that wait to be sent.
    pub open spec fn same_but_outbox(self, other: State<E>) -> bool {
        &&& self.name == other.name
        &&& self.class == other.class
        &&& self.instance == other.instance
        &&& self.zsig == other.zsig
        &&& self.extra == other.extra
        &&& self.subs == other.subs
        &&& self.data == other.data
    }

    /// The state of a bot called `name` on the topic of `class` and
    /// `instance`, with nothing remembered and nothing to send.
    pub fn new(
        name: &str,
        class: &str,
        instance: &str,
        zsig: Signature,
        extra: E,
        subs: Vec<Triplet>,
    ) -> (state: State<E>)
        ensures
            state.name@ == name@,
            state.class@ == class@,
            state.instance@ == instance@,
            state.zsig == zsig,
            state.extra == extra,
            state.subs == subs,
            state.outbox@ == Seq::<Notice>::empty(),
            state.data@ == Map::<Seq<char>, crate::store::ValueView>::empty(),
    {
        let state = State {
            name: String::from_str(name),
            class: String::from_str(class),
            instance: String::from_str(instance),
            zsig,
            extra,
            subs,
            outbox: Vec::new(),
            data: Store::new(),
        };
        state
    }

    /// The triplets the bot is subscribed to.
    pub fn subs(&self) -> (subs: &Vec<Triplet>)
        ensures
            *subs == self.subs,
    {
        &self.subs
    }

    /// Queues `notice` for sending, behind those that wait already.
    pub fn zwrite(&mut self, notice: &Notice)
        ensures
            final(self).queued_after(*old(self), notice@),
    {
        let copy = notice.clone();
        proof {
            assert(notice_views(self.outbox@.push(copy)) =~= notice_views(self.outbox@).push(
                notice@,
            ));
        }
        self.outbox.push(copy);
    }

    /// Takes out the notices that wait to be sent, oldest first.
    pub fn take_outbox(&mut self) -> (notices: Vec<Notice>)
        ensures
            notices == old(self).outbox,
            final(self).outbox@ == Seq::<Notice>::empty(),
            final(self).same_but_outbox(*old(self)),
    {
        let mut notices: Vec<Notice> = Vec::new();
        std::mem::swap(&mut notices, &mut self.outbox);
        notices
    }

    /// Replies with `body` on the topic the bot is on, signed by the bot's
    /// signature source.
    pub fn reply_here(&mut self, body: &str)
        ensures
            exists|zsig: Seq<char>|
                old(self).zsig.signs(zsig) && #[trigger] final(self).queued_after(
                    *old(self),
                    old(self).topic().reply(old(self).name@, zsig, body@),
                ),
    {
        let here = self.location();
        self.reply_at(&here, body)
    }

    /// Replies with `body` on the topic the bot is on, signed `zsig`.
    pub fn reply_here_zsigned(&mut self, zsig: &str, body: &str)
        ensures
            final(self).queued_after(
                *old(self),
                old(self).topic().reply(old(self).name@, zsig@, body@),
            ),
    {
        let here = self.location();
        self.reply_at_zsigned(&here, zsig, body)
    }

    /// Replies with `body` on the topic that `notice` was sent to, signed
    /// by the bot's signature source.
    pub fn reply_to(&mut self, notice: &Notice, body: &str)
        ensures
            exists|zsig: Seq<char>|
                old(self).zsig.signs(zsig) && #[trigger] final(self).queued_after(
                    *old(self),
                    notice@.triplet().reply(old(self).name@, zsig, body@),
                ),
    {
        let there = notice.triplet();
        self.reply_at(&there, body)
    }

    /// Replies with `body` on the topic that `notice` was sent to, signed
    /// `zsig`.
    pub fn reply_to_zsigned(&mut self, notice: &Notice, zsig: &str, body: &str)
        ensures
            final(self).queued_after(
                *old(self),
                notice@.triplet().reply(old(self).name@, zsig@, body@),
            ),
    {
        let there = notice.triplet();
        self.reply_at_zsigned(&there, zsig, body)
    }

    /// Replies with `body` to `triplet`, signed by the bot's signature
    /// source.
    pub fn reply_at(&mut self, triplet: &Triplet, body: &str)
        ensures
            exists|zsig: Seq<char>|
                old(self).zsig.signs(zsig) && #[trigger] final(self).queued_after(
                    *old(self),
                    triplet@.reply(old(self).name@, zsig, body@),
                ),
    {
        let zsig = self.zsig.sign();
        self.reply_at_zsigned(triplet, zsig.as_str(), body)
    }

    /// Replies with `body` to `triplet`, signed `zsig`: the reply is queued
    /// for sending, with the bot's name as its sender.
    pub fn reply_at_zsigned(&mut self, triplet: &Triplet, zsig: &str, body: &str)
        ensures
            final(self).queued_after(
                *old(self),
                triplet@.reply(old(self).name@, zsig@, body@),
            ),
    {
        let reply = triplet.make_reply(self.name.as_str(), zsig, body);
        proof {
            assert(notice_views(self.outbox@.push(reply)) =~= notice_views(self.outbox@).push(
                reply@,
            ));
        }
        self.outbox.push(reply);
    }

    /// The topic the bot is on.
    pub fn location(&self) -> (here: Triplet)
        ensures
            here@ == self.topic(),
    {
        Triplet::of_instance(self.class.as_str(), self.instance.as_str())
    }

    /// Moves the bot to the topic of `to`: to its class, and to its
    /// instance, or to `personal` where it names none. Subscriptions stay
    /// as they are.
    pub fn move_to(&mut self, to: Triplet)
        ensures
            final(self).class@ == to@.class,
            final(self).instance@ == to@.reply_instance(),
            final(self).name == old(self).name,
            final(self).zsig == old(self).zsig,
            final(self).extra == old(self).extra,
            final(self).subs == old(self).subs,
            final(self).data == old(self).data,
            final(self).outbox == old(self).outbox,
    {
        self.class = to.class;
        self.instance = match to.instance {
            Some(instance) => instance,
            None => String::from_str(PERSONAL),
        };
    }

    /// The bot's own data.
    pub fn extra_ref(&self) -> (extra: &E)
        ensures
            *extra == self.extra,
    {
        &self.extra
    }

    /// The bot's own data, to change it in place.
    pub fn extra_mut(&mut self) -> (extra: &mut E)
        ensures
            *extra == old(self).extra,
            final(self).extra == *final(extra),
            final(self).name == old(self).name,
            final(self).class == old(self).class,
            final(self).instance == old(self).instance,
            final(self).zsig == old(self).zsig,
            final(self).subs == old(self).subs,
            final(self).outbox == old(self).outbox,
            final(self).data == old(self).data,
    {
        &mut self.extra
    }
}

/// The steps that a notice goes through, in order: the handlers that come
/// before the commands, the commands, and the handlers that come after.
#[verifier::reject_recursive_types(E)]
pub struct Pipeline<E> {
    pub before: Seq<Handler<E>>,
    pub commands: Seq<Command<E>>,
    pub after: Seq<Handler<E>>,
}

impl<E> Pipeline<E> {
    /// The number of steps.
    pub open spec fn len(self) -> nat {
        self.before.len() + self.commands.len() + self.after.len()
    }

    /// Whether step `k`, run on `from` for `notice`, may leave `to` and
    /// report `fired`.
    pub open spec fn step(self, k: int, notice: Notice, from: State<E>, to: State<E>, fired: bool) -> bool {
        if 0 <= k < self.before.len() {
            self.before[k].outcome(from, notice, to, fired)
        } else if self.before.len() <= k < self.before.len() + self.commands.len() {
            self.commands[k - self.before.len()].outcome(from, notice, to, fired)
        } else if self.before.len() + self.commands.len() <= k < self.len() {
            self.after[k - self.before.len() - self.commands.len()].outcome(
                from,
                notice,
                to,
                fired,
            )
        } else {
            false
        }
    }

    /// Whether the first `k` steps, run in order on `from` without any of
    /// them firing, may leave `to`.
    pub open spec fn passed(self, k: nat, notice: Notice, from: State<E>, to: State<E>) -> bool
        decreases k,
    {
        if k == 0 {
            to == from
        } else {
            exists|mid: State<E>|
                self.passed((k - 1) as nat, notice, from, mid) && #[trigger] self.step(
                    k - 1,
                    notice,
                    mid,
                    to,
                    false,
                )
        }
    }

    /// Where the first `k` steps pass and step `k` does not fire either,
    /// the first `k + 1` steps pass.
    pub proof fn lemma_pass_on(self, k: nat, notice: Notice, from: State<E>, mid: State<E>, to: State<E>)
        requires
            self.passed(k, notice, from, mid),
            self.step(k as int, notice, mid, to, false),
        ensures
            self.passed(k + 1, notice, from, to),
    {
        assert(self.passed(((k + 1) - 1) as nat, notice, from, mid));
        assert(self.step((k + 1) - 1, notice, mid, to, false));
    }

    /// Whether step `k` may fire and leave `to`, after the steps before it
    /// have run on `from` and none of them has fired.
    pub open spec fn fired_at(self, k: nat, notice: Notice, from: State<E>, to: State<E>) -> bool {
        exists|mid: State<E>|
            self.passed(k, notice, from, mid) && #[trigger] self.step(k as int, notice, mid, to, true)
    }

    /// Whether running the steps in order on `from`, up to and with the
    /// first that fires, may leave `to`.
    pub open spec fn ran(self, notice: Notice, from: State<E>, to: State<E>) -> bool {
        ||| self.passed(self.len(), notice, from, to)
        ||| exists|k: nat| k < self.len() && #[trigger] self.fired_at(k, notice, from, to)
    }
}

/// Something that can be tried on a notice as one step of the pipeline.
trait Stage<E> {
    /// Whether trying it on `before`, for `notice`, may leave `after` and
    /// report `fired`.
    spec fn stage_outcome(&self, before: State<E>, notice: Notice, after: State<E>, fired: bool) -> bool;

    /// Tries it and says whether it fired.
    fn try_stage(&self, state: &mut State<E>, notice: &Notice) -> (fired: bool)
        ensures
            self.stage_outcome(*old(state), *notice, *final(state), fired),
    ;
}

impl<E> Stage<E> for Handler<E> {
    spec fn stage_outcome(&self, before: State<E>, notice: Notice, after: State<E>, fired: bool) -> bool {
        self.outcome(before, notice, after, fired)
    }

    fn try_stage(&self, state: &mut State<E>, notice: &Notice) -> (fired: bool) {
        self.try_exec(state, notice)
    }
}

impl<E> Stage<E> for Command<E> {
    spec fn stage_outcome(&self, before: State<E>, notice: Notice, after: State<E>, fired: bool) -> bool {
        self.outcome(before, notice, after, fired)
    }

    fn try_stage(&self, state: &mut State<E>, notice: &Notice) -> (fired: bool) {
        self.try_exec(state, notice)
    }
}

/// Tries the steps of `list` in order, which are the steps of the pipeline
/// from `offset` on, and stops at the first that fires.
fn run_stage<E, S: Stage<E>>(
    list: &Vec<S>,
    state: &mut State<E>,
    notice: &Notice,
    Ghost(steps): Ghost<Pipeline<E>>,
    Ghost(offset): Ghost<nat>,
    Ghost(start): Ghost<State<E>>,
) -> (fired: bool)
    requires
        offset + list@.len() <= steps.len(),
        forall|i: int, a: State<E>, b: State<E>, f: bool|
            0 <= i < list@.len() && #[trigger] list@[i].stage_outcome(a, *notice, b, f)
                ==> steps.step(offset + i, *notice, a, b, f),
        steps.passed(offset, *notice, start, *old(state)),
    ensures
        fired ==> exists|k: nat|
            k < steps.len() && #[trigger] steps.fired_at(k, *notice, start, *final(state)),
        !fired ==> steps.passed(offset + list@.len(), *notice, start, *final(state)),
{
    let mut i: usize = 0;
    while i < list.len()
        invariant
            i <= list@.len(),
            offset + list@.len() <= steps.len(),
            forall|i: int, a: State<E>, b: State<E>, f: bool|
                0 <= i < list@.len() && #[trigger] list@[i].stage_outcome(a, *notice, b, f)
                    ==> steps.step(offset + i, *notice, a, b, f),
            steps.passed(offset + i as nat, *notice, start, *state),
        decreases list@.len() - i,
    {
        let ghost mid = *state;
        if list[i].try_stage(state, notice) {
            proof {
                assert(list@[i as int].stage_outcome(mid, *notice, *state, true));
                assert(steps.step(offset + i, *notice, mid, *state, true));
                assert(steps.fired_at(offset + i as nat, *notice, start, *state));
            }
            return true;
        }
        proof {
            assert(list@[i as int].stage_outcome(mid, *notice, *state, false));
            steps.lemma_pass_on(offset + i as nat, *notice, start, mid, *state);
        }
        i += 1;
    }
    false
}

/// How long the bot rests after each turn, in milliseconds.
pub const TICK_PAUSE_MILLIS: u64 = 100;

/// What one turn of the bot's loop asks of whoever runs it.
pub struct Turn {
    /// The notices to send, oldest first.
    pub send: Vec<Notice>,
    /// How long to rest before the next read, in milliseconds.
    pub pause_millis: u64,
}

/// A bot: its state, and what it runs on each notice.
#[verifier::reject_recursive_types(E)]
pub struct Bot<E = ()> {
    pub state: State<E>,
    pub commands: Vec<Command<E>>,
    pub pre_command_handlers: Vec<Handler<E>>,
    pub post_command_handlers: Vec<Handler<E>>,
}

impl Bot {
    /// The start of a bot.
    pub fn build(name: &str, start: (&str, &str)) -> (builder: builder::Builder)
        ensures
            builder.name@ == name@,
            builder.class@ == start.0@,
            builder.instance@ == start.1@,
            forall|zsig: Seq<char>| builder.zsig.signs(zsig) <==> zsig == Seq::<char>::empty(),
            builder.subs@ == Seq::<Triplet>::empty(),
            builder.commands@ == Seq::<Command<()>>::empty(),
            builder.pre_command_handlers@ == Seq::<Handler<()>>::empty(),
            builder.post_command_handlers@ == Seq::<Handler<()>>::empty(),
    {
        builder::Builder::new(name, start)
    }
}

impl<E> Bot<E> {
    /// The steps that the bot takes a notice through.
    pub open spec fn pipeline(self) -> Pipeline<E> {
        Pipeline {
            before: self.pre_command_handlers@,
            commands: self.commands@,
            after: self.post_command_handlers@,
        }
    }

    /// Whether a tick for `notice` may take the bot's state to `to`: a
    /// notice sent by a program is dropped, and any other goes through the
    /// pipeline until a step fires.
    pub open spec fn ticked(self, notice: Notice, to: State<E>) -> bool {
        if notice.opcode@ == AUTO@ {
            to == self.state
        } else {
            self.pipeline().ran(notice, self.state, to)
        }
    }

    /// A bot called `name` on the topic of `class` and `instance`.
    pub fn new(
        name: &str,
        class: &str,
        instance: &str,
        zsig: Signature,
        extra: E,
        subs: Vec<Triplet>,
        commands: Vec<Command<E>>,
        pre_command_handlers: Vec<Handler<E>>,
        post_command_handlers: Vec<Handler<E>>,
    ) -> (bot: Bot<E>)
        ensures
            bot.state.name@ == name@,
            bot.state.class@ == class@,
            bot.state.instance@ == instance@,
            bot.state.zsig == zsig,
            bot.state.extra == extra,
            bot.state.subs == subs,
            bot.state.outbox@ == Seq::<Notice>::empty(),
            bot.state.data@ == Map::<Seq<char>, crate::store::ValueView>::empty(),
            bot.commands == commands,
            bot.pre_command_handlers == pre_command_handlers,
            bot.post_command_handlers == post_command_handlers,
    {
        Bot {
            state: State::new(name, class, instance, zsig, extra, subs),
            commands,
            pre_command_handlers,
            post_command_handlers,
        }
    }

    /// Takes one notice through the bot. A notice whose opcode is `AUTO` is
    /// dropped. Any other goes to the handlers that come before the
    /// commands, then to the commands, then to the handlers that come
    /// after, each in the order in which it was registered, and no further
    /// than the first that fires.
    pub fn tick(&mut self, notice: Notice)
        ensures
            old(self).ticked(notice, final(self).state),
            final(self).commands == old(self).commands,
            final(self).pre_command_handlers == old(self).pre_command_handlers,
            final(self).post_command_handlers == old(self).post_command_handlers,
    {
        if crate::text::str_eq(notice.opcode.as_str(), AUTO) {
            return ;
        }
        let ghost steps = self.pipeline();
        let ghost start = self.state;
        let ghost first = self.pre_command_handlers@.len();
        let ghost second = first + self.commands@.len();
        if run_stage(
            &self.pre_command_handlers,
            &mut self.state,
            &notice,
            Ghost(steps),
            Ghost(0),
            Ghost(start),
        ) {
            return ;
        }
        if run_stage(
            &self.commands,
            &mut self.state,
            &notice,
            Ghost(steps),
            Ghost(first),
            Ghost(start),
        ) {
            return ;
        }
        let _ = run_stage(
            &self.post_command_handlers,
            &mut self.state,
            &notice,
            Ghost(steps),
            Ghost(second),
            Ghost(start),
        );
    }

    /// One turn of the bot's loop, given what the transport read. A notice
    /// is taken through the bot, and the replies that it left are handed
    /// out to be sent, oldest first. A read that failed changes nothing.
    /// Either way the bot rests before it reads again.
    pub fn turn(&mut self, read: Option<Notice>) -> (turn: Turn)
        ensures
            turn.pause_millis == TICK_PAUSE_MILLIS,
            final(self).commands == old(self).commands,
            final(self).pre_command_handlers == old(self).pre_command_handlers,
            final(self).post_command_handlers == old(self).post_command_handlers,
            match read {
                Some(notice) => exists|mid: State<E>|
                    {
                        &&& #[trigger] old(self).ticked(notice, mid)
                        &&& turn.send == mid.outbox
                        &&& final(self).state.same_but_outbox(mid)
                        &&& final(self).state.outbox@ == Seq::<Notice>::empty()
                    },
                None => {
                    &&& turn.send@ == Seq::<Notice>::empty()
                    &&& final(self).state == old(self).state
                },
            },
    {
        match read {
            Some(notice) => {
                self.tick(notice);
                let ghost mid = self.state;
                let send = self.state.take_outbox();
                assert(old(self).ticked(notice, mid));
                Turn { send, pause_millis: TICK_PAUSE_MILLIS }
            },
            None => Turn { send: Vec::new(), pause_millis: TICK_PAUSE_MILLIS },
        }
    }
}

/// Where the first `m` steps pass, each of them can leave some state
/// without firing.
proof fn lemma_passed_steps_do_not_fire<E>(
    steps: Pipeline<E>,
    m: nat,
    k: nat,
    notice: Notice,
    from: State<E>,
    to: State<E>,
)
    requires
        steps.passed(m, notice, from, to),
        k < m,
    ensures
        exists|a: State<E>, b: State<E>| #[trigger] steps.step(k as int, notice, a, b, false),
    decreases m,
{
    let mid = choose|mid: State<E>|
        steps.passed((m - 1) as nat, notice, from, mid) && #[trigger] steps.step(
            m - 1,
            notice,
            mid,
            to,
            false,
        );
    if k == m - 1 {
        assert(steps.step(k as int, notice, mid, to, false));
    } else {
        lemma_passed_steps_do_not_fire(steps, (m - 1) as nat, k, notice, from, mid);
    }
}

/// The first claim wins. Where step `k` of a pipeline fires on every state,
/// whatever the notice goes through ends with a step that fires at `k` or
/// before: no step behind `k` runs. So a handler that comes before the
/// commands and claims a notice keeps every command from running.
pub proof fn lemma_first_claim_wins<E>(
    steps: Pipeline<E>,
    k: nat,
    notice: Notice,
    from: State<E>,
    to: State<E>,
)
    requires
        k < steps.len(),
        forall|a: State<E>, b: State<E>| !steps.step(k as int, notice, a, b, false),
        steps.ran(notice, from, to),
    ensures
        exists|j: nat| j <= k && #[trigger] steps.fired_at(j, notice, from, to),
{
    if steps.passed(steps.len(), notice, from, to) {
        lemma_passed_steps_do_not_fire(steps, steps.len(), k, notice, from, to);
    } else {
        let j = choose|j: nat| j < steps.len() && #[trigger] steps.fired_at(j, notice, from, to);
        if j > k {
            let mid = choose|mid: State<E>|
                steps.passed(j, notice, from, mid) && #[trigger] steps.step(
                    j as int,
                    notice,
                    mid,
                    to,
                    true,
                );
            lemma_passed_steps_do_not_fire(steps, j, k, notice, from, mid);
        }
    }
}

/// A notice that a program sent is dropped: whatever its body says, and
/// whatever the bot would run, a tick leaves the state as it was.
pub proof fn lemma_auto_is_dropped<E>(bot: Bot<E>, notice: Notice, to: State<E>)
    requires
        notice.opcode@ == AUTO@,
        bot.ticked(notice, to),
    ensures
        to == bot.state,
{
}

/// A notice that no step claims, and that no handler touches, is dropped:
/// where every command passes it over, and there are no handlers, a tick
/// leaves the state as it was.
pub proof fn lemma_unclaimed_is_dropped<E>(bot: Bot<E>, notice: Notice, to: State<E>)
    requires
        bot.pre_command_handlers@.len() == 0,
        bot.post_command_handlers@.len() == 0,
        forall|i: int, state: State<E>|
            0 <= i < bot.commands@.len() ==> !(#[trigger] bot.commands@[i].fires(state, notice)),
        bot.ticked(notice, to),
    ensures
        to == bot.state,
{
    if notice.opcode@ != AUTO@ {
        let steps = bot.pipeline();
        if steps.passed(steps.len(), notice, bot.state, to) {
            lemma_passing_commands_change_nothing(steps, steps.len(), notice, bot.state, to);
        } else {
            let j = choose|j: nat|
                j < steps.len() && #[trigger] steps.fired_at(j, notice, bot.state, to);
            let mid = choose|mid: State<E>|
                steps.passed(j, notice, bot.state, mid) && #[trigger] steps.step(
                    j as int,
                    notice,
                    mid,
                    to,
                    true,
                );
            assert(bot.commands@[j as int].fires(mid, notice));
        }
    }
}

/// Commands that do not fire leave the state alone.
proof fn lemma_passing_commands_change_nothing<E>(
    steps: Pipeline<E>,
    m: nat,
    notice: Notice,
    from: State<E>,
    to: State<E>,
)
    requires
        steps.before.len() == 0,
        steps.after.len() == 0,
        m <= steps.len(),
        steps.passed(m, notice, from, to),
    ensures
        to == from,
    decreases m,
{
    if m > 0 {
        let mid = choose|mid: State<E>|
            steps.passed((m - 1) as nat, notice, from, mid) && #[trigger] steps.step(
                m - 1,
                notice,
                mid,
                to,
                false,
            );
        lemma_passing_commands_change_nothing(steps, (m - 1) as nat, notice, from, mid);
    }
}

} // verus!
