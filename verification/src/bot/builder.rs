//! Putting a bot together step by step.

use crate::bot::{triplet_views, Bot, State};
use crate::command::{
    closure_acts, closure_reports, Action, Command, CommandMatch, Handler, Hook, MatchView, Scope,
    Shape,
};
use crate::signature::Signature;
use crate::text::slice_views;
use crate::zephyr::{Notice, Triplet, TripletView};
use vstd::prelude::*;
use vstd::string::*;

verus! {

/// What a bot is going to be made of.
#[verifier::reject_recursive_types(E)]
pub struct Builder<E = ()> {
    pub name: String,
    pub class: String,
    pub instance: String,
    pub zsig: Signature,
    pub extra: E,
    pub subs: Vec<Triplet>,
    pub commands: Vec<Command<E>>,
    pub pre_command_handlers: Vec<Handler<E>>,
    pub post_command_handlers: Vec<Handler<E>>,
}

/// The triplet that subscribes to all of a class.
pub open spec fn whole_class(class: Seq<char>) -> TripletView {
    TripletView { class, instance: None, recipient: None }
}

/// The triplets that subscribe to all of each class.
pub open spec fn whole_classes(classes: Seq<Seq<char>>) -> Seq<TripletView> {
    classes.map_values(|class: Seq<char>| whole_class(class))
}

impl Builder {
    /// The start of a bot called `name` on the class and instance of
    /// `start`: it signs with the empty signature, is subscribed to
    /// nothing and runs nothing.
    pub fn new(name: &str, start: (&str, &str)) -> (builder: Builder)
        ensures
            builder.name@ == name@,
            builder.class@ == start.0@,
            builder.instance@ == start.1@,
            forall|zsig: Seq<char>| builder.zsig.signs(zsig) <==> zsig == Seq::<char>::empty(),
            builder.subs@ == Seq::<Triplet>::empty(),
            builder.commands@ == Seq::<Command<()>>::empty(),
            builder.pre_command_handlers@ == Seq::<Handler<()>>::empty(),
            builder.post_command_handlers@ == Seq::<Handler<()>>::empty(),
    {
        proof {
            reveal_strlit("");
            assert(""@ =~= Seq::<char>::empty());
        }
        Builder {
            name: String::from_str(name),
            class: String::from_str(start.0),
            instance: String::from_str(start.1),
            zsig: Signature::fixed(""),
            extra: (),
            subs: Vec::new(),
            commands: Vec::new(),
            pre_command_handlers: Vec::new(),
            post_command_handlers: Vec::new(),
        }
    }
}

impl<E> Builder<E> {
    /// Signs every reply `zsig`.
    pub fn with_zsig(self, zsig: &str) -> (builder: Builder<E>)
        ensures
            forall|given: Seq<char>| builder.zsig.signs(given) <==> given == zsig@,
            builder == (Builder { zsig: builder.zsig, ..self }),
    {
        let mut builder = self;
        builder.zsig = Signature::fixed(zsig);
        builder
    }

    /// Signs each reply with one of `zsigs`, picked at random.
    pub fn with_zsigs(self, zsigs: Vec<&str>) -> (builder: Builder<E>)
        requires
            zsigs.len() > 0,
        ensures
            forall|given: Seq<char>|
                builder.zsig.signs(given) <==> slice_views(zsigs@).contains(given),
            builder == (Builder { zsig: builder.zsig, ..self }),
    {
        let mut owned: Vec<String> = Vec::new();
        let mut i: usize = 0;
        while i < zsigs.len()
            invariant
                i <= zsigs.len(),
                owned.len() == i,
                forall|k: int| 0 <= k < i ==> owned[k]@ == zsigs[k]@,
            decreases zsigs.len() - i,
        {
            owned.push(String::from_str(zsigs[i]));
            i += 1;
        }
        let mut builder = self;
        builder.zsig = Signature::one_of(owned);
        proof {
            assert forall|given: Seq<char>| builder.zsig.signs(given) <==> slice_views(
                zsigs@,
            ).contains(given) by {
                if builder.zsig.signs(given) {
                    let k = choose|k: int| 0 <= k < owned.len() && owned[k]@ == given;
                    assert(slice_views(zsigs@)[k] == given);
                }
                if slice_views(zsigs@).contains(given) {
                    let k = choose|k: int|
                        0 <= k < slice_views(zsigs@).len() && slice_views(zsigs@)[k] == given;
                    assert(owned[k]@ == given);
                }
            }
        }
        builder
    }

    /// Signs each reply with what the closure `signer` hands out for it.
    pub fn zsig_fn<F>(self, signer: F) -> (builder: Builder<E>) where F: Fn() -> String + 'static
        requires
            call_requires(signer, ()),
        ensures
            forall|given: Seq<char>|
                builder.zsig.signs(given) <==> exists|zsig: String|
                    zsig@ == given && call_ensures(signer, (), zsig),
            builder == (Builder { zsig: builder.zsig, ..self }),
    {
        let mut builder = self;
        builder.zsig = Signature::computed(signer);
        builder
    }

    /// Subscribes to all of `class`.
    pub fn sub_to_class(self, class: &str) -> (builder: Builder<E>)
        ensures
            triplet_views(builder.subs@) == triplet_views(self.subs@).push(whole_class(class@)),
            builder == (Builder { subs: builder.subs, ..self }),
    {
        let mut builder = self;
        let triplet = Triplet::of_class(class);
        assert(triplet_views(builder.subs@.push(triplet)) =~= triplet_views(builder.subs@).push(
            triplet@,
        ));
        builder.subs.push(triplet);
        builder
    }

    /// Subscribes to all of each of `classes`.
    pub fn sub_to_classes(self, classes: Vec<&str>) -> (builder: Builder<E>)
        ensures
            triplet_views(builder.subs@) == triplet_views(self.subs@) + whole_classes(
                slice_views(classes@),
            ),
            builder == (Builder { subs: builder.subs, ..self }),
    {
        let mut builder = self;
        let mut i: usize = 0;
        assert(triplet_views(builder.subs@) + whole_classes(slice_views(classes@).take(0))
            =~= triplet_views(builder.subs@));
        while i < classes.len()
            invariant
                i <= classes.len(),
                triplet_views(builder.subs@) == triplet_views(self.subs@) + whole_classes(
                    slice_views(classes@).take(i as int),
                ),
                builder == (Builder { subs: builder.subs, ..self }),
            decreases classes.len() - i,
        {
            let triplet = Triplet::of_class(classes[i]);
            proof {
                assert(triplet_views(builder.subs@.push(triplet)) =~= triplet_views(
                    builder.subs@,
                ).push(triplet@));
                assert(whole_classes(slice_views(classes@).take(i + 1)) =~= whole_classes(
                    slice_views(classes@).take(i as int),
                ).push(triplet@));
            }
            builder.subs.push(triplet);
            i += 1;
        }
        assert(slice_views(classes@).take(classes.len() as int) =~= slice_views(classes@));
        builder
    }

    /// Subscribes to each of `triplets`.
    pub fn sub_to(self, triplets: Vec<Triplet>) -> (builder: Builder<E>)
        ensures
            builder.subs@ == self.subs@ + triplets@,
            builder == (Builder { subs: builder.subs, ..self }),
    {
        let mut builder = self;
        let mut triplets = triplets;
        builder.subs.append(&mut triplets);
        builder
    }

    /// Registers a command, behind those registered already.
    pub fn command<F>(self, shape: Shape, scope: Scope, labels: Vec<&str>, action: F) -> (builder:
        Builder<E>) where F: Fn(&mut State<E>, &Notice, &CommandMatch) -> () + 'static
        requires
            forall|state: &mut State<E>, notice: &Notice, found: &CommandMatch|
                call_requires(action, (state, notice, found)),
        ensures
            builder.commands@.len() == self.commands@.len() + 1,
            builder.commands@.drop_last() == self.commands@,
            builder.commands@.last().patterns() == shape@,
            builder.commands@.last().scope() == scope,
            builder.commands@.last().labels() == slice_views(labels@),
            forall|before: State<E>, notice: Notice, found: MatchView, after: State<E>|
                builder.commands@.last().effect(before, notice, found, after) <==> Action::<
                    E,
                >::effect(&action, before, notice, found, after),
            forall|before: State<E>, notice: Notice, found: MatchView, after: State<E>|
                builder.commands@.last().effect(before, notice, found, after) <==> closure_acts(
                    action,
                    before,
                    notice,
                    found,
                ),
            builder == (Builder { commands: builder.commands, ..self }),
    {
        let mut builder = self;
        let command = Command::new(shape, scope, labels, action);
        assert(builder.commands@.push(command).drop_last() =~= builder.commands@);
        builder.commands.push(command);
        builder
    }

    /// Registers a handler to run before the commands, behind those
    /// registered already.
    pub fn pre<F>(self, action: F) -> (builder: Builder<E>) where
        F: Fn(&mut State<E>, &Notice) -> bool + 'static,
        requires
            forall|state: &mut State<E>, notice: &Notice| call_requires(action, (state, notice)),
        ensures
            builder.pre_command_handlers@.len() == self.pre_command_handlers@.len() + 1,
            builder.pre_command_handlers@.drop_last() == self.pre_command_handlers@,
            forall|before: State<E>, notice: Notice, after: State<E>, fired: bool|
                builder.pre_command_handlers@.last().outcome(before, notice, after, fired)
                    <==> Hook::<E>::outcome(&action, before, notice, after, fired),
            forall|before: State<E>, notice: Notice, after: State<E>, fired: bool|
                builder.pre_command_handlers@.last().outcome(before, notice, after, fired)
                    <==> closure_reports(action, before, notice, fired),
            builder == (Builder { pre_command_handlers: builder.pre_command_handlers, ..self }),
    {
        let mut builder = self;
        let handler = Handler::new(action);
        assert(builder.pre_command_handlers@.push(handler).drop_last()
            =~= builder.pre_command_handlers@);
        builder.pre_command_handlers.push(handler);
        builder
    }

    /// Registers a handler to run after the commands, behind those
    /// registered already.
    pub fn post<F>(self, action: F) -> (builder: Builder<E>) where
        F: Fn(&mut State<E>, &Notice) -> bool + 'static,
        requires
            forall|state: &mut State<E>, notice: &Notice| call_requires(action, (state, notice)),
        ensures
            builder.post_command_handlers@.len() == self.post_command_handlers@.len() + 1,
            builder.post_command_handlers@.drop_last() == self.post_command_handlers@,
            forall|before: State<E>, notice: Notice, after: State<E>, fired: bool|
                builder.post_command_handlers@.last().outcome(before, notice, after, fired)
                    <==> Hook::<E>::outcome(&action, before, notice, after, fired),
            forall|before: State<E>, notice: Notice, after: State<E>, fired: bool|
                builder.post_command_handlers@.last().outcome(before, notice, after, fired)
                    <==> closure_reports(action, before, notice, fired),
            builder == (Builder { post_command_handlers: builder.post_command_handlers, ..self }),
    {
        let mut builder = self;
        let handler = Handler::new(action);
        assert(builder.post_command_handlers@.push(handler).drop_last()
            =~= builder.post_command_handlers@);
        builder.post_command_handlers.push(handler);
        builder
    }

    /// Gives the bot data of its own, of another type. Commands and
    /// handlers work on one type of data, so this comes before any of them
    /// is registered: nothing may be registered yet.
    pub fn with_extra<E2>(self, extra: E2) -> (builder: Builder<E2>)
        requires
            self.commands@.len() == 0,
            self.pre_command_handlers@.len() == 0,
            self.post_command_handlers@.len() == 0,
        ensures
            builder.name == self.name,
            builder.class == self.class,
            builder.instance == self.instance,
            builder.zsig == self.zsig,
            builder.extra == extra,
            builder.subs == self.subs,
            builder.commands@ == Seq::<Command<E2>>::empty(),
            builder.pre_command_handlers@ == Seq::<Handler<E2>>::empty(),
            builder.post_command_handlers@ == Seq::<Handler<E2>>::empty(),
    {
        Builder {
            name: self.name,
            class: self.class,
            instance: self.instance,
            zsig: self.zsig,
            extra,
            subs: self.subs,
            commands: Vec::new(),
            pre_command_handlers: Vec::new(),
            post_command_handlers: Vec::new(),
        }
    }

    /// The bot.
    pub fn build(self) -> (bot: Bot<E>)
        ensures
            bot.state.name@ == self.name@,
            bot.state.class@ == self.class@,
            bot.state.instance@ == self.instance@,
            bot.state.zsig == self.zsig,
            bot.state.extra == self.extra,
            bot.state.subs == self.subs,
            bot.state.outbox@ == Seq::<Notice>::empty(),
            bot.state.data@ == Map::<Seq<char>, crate::store::ValueView>::empty(),
            bot.commands == self.commands,
            bot.pre_command_handlers == self.pre_command_handlers,
            bot.post_command_handlers == self.post_command_handlers,
    {
        Bot::new(
            self.name.as_str(),
            self.class.as_str(),
            self.instance.as_str(),
            self.zsig,
            self.extra,
            self.subs,
            self.commands,
            self.pre_command_handlers,
            self.post_command_handlers,
        )
    }
}

} // verus!
