//! Commands, handlers and the shapes that commands are phrased in.
//!
//! A shape is an ordered list of patterns. Each pattern names the group that
//! holds the bot's name (`self`), the group that holds the command label
//! (`cmd`), and the groups that hold the arguments (`_0`, `_1`, and so on:
//! the name of a group cannot start with a digit).
//! A text matches a shape through the first of its patterns that matches the
//! text, addresses the expected bot and carries an accepted label.

use crate::bot::State;
use crate::pattern::{captures, captures_of, group_view, groups_view, Group};
use crate::text::{
    decimal, decimal_string, join_lines, join_with, lemma_slice_views_push, slice_views, str_eq,
    trim, trimmed, views,
};
use crate::zephyr::Notice;
use vstd::prelude::*;
use vstd::string::*;

verus! {

/// Where a command listens.
#[derive(Clone, Copy, Debug, PartialEq, Eq, Structural)]
pub enum Scope {
    /// Only on the topic that the bot is on.
    Local,
    /// On every topic.
    Everywhere,
    /// On every topic, like `Everywhere`; the tag tells whoever reads it
    /// that the command should not be echoed.
    Secret,
}

/// The group that holds the name of the bot addressed.
pub const GROUP_SELF: &'static str = "self";

/// The group that holds the command label.
pub const GROUP_COMMAND: &'static str = "cmd";

/// What stands before the number in the name of an argument's group.
pub const GROUP_ARGUMENT: &'static str = "_";

/// The name of the group that holds argument `index`.
pub open spec fn argument_group(index: nat) -> Seq<char> {
    GROUP_ARGUMENT@ + decimal(index)
}

/// `topy, sit!`
pub const ORDER_NAME_FIRST: &'static str = "^(?P<self>[\\w]+) *, *(?P<cmd>[\\w]+) *[.!]?$";

/// `sit, topy!`
pub const ORDER_NAME_LAST: &'static str = "^(?P<cmd>[\\w]+) *, *(?P<self>[\\w]+) *[.!]?$";

/// `topy, get x!`
pub const UNARY_ORDER_NAME_FIRST: &'static str =
    "^(?P<self>[\\w]+) *, *(?P<cmd>[\\w]+) +(?P<_0>[\\w]+) *[.!]?$";

/// `get x, topy!`
pub const UNARY_ORDER_NAME_LAST: &'static str =
    "^(?P<cmd>[\\w]+) +(?P<_0>[\\w]+) *, *(?P<self>[\\w]+) *[.!]?$";

/// `topy(pet)`
pub const INVOKE_CALL: &'static str = "^(?P<self>[\\w]+) *\\((?P<cmd>[ \\w]+)\\)$";

/// `pets topy`
pub const INVOKE_VERB: &'static str = "^(?P<cmd>[ \\w]+)s +(?P<self>[\\w]+)$";

/// `topy->{pet}`
pub const INVOKE_BLOCK: &'static str = "^(?P<self>[\\w]+) *-> *\\{(?P<cmd>[ \\w]+)\\}$";

/// `topy.pet`, `topy.pet()`, and the same with `->`, `#` or `::`
pub const INVOKE_METHOD: &'static str =
    "^(?P<self>[\\w]+) *(?:->|\\.|#|::) *(?P<cmd>[\\w]+)(?:\\(\\))?$";

/// `topy.pet(x)`
pub const UNARY_INVOKE_BARE: &'static str =
    "^(?P<self>[\\w]+) *(?:->|\\.|#|::) *(?P<cmd>[\\w]+)(?:\\( *(?P<_0>[\\w-.]+) *\\))?$";

/// `topy.pet('the cat')`
pub const UNARY_INVOKE_QUOTED: &'static str =
    "^(?P<self>[\\w]+) *(?:->|\\.|#|::) *(?P<cmd>[\\w]+)(?:\\( *'(?P<_0>[^']+)' *\\))?$";

/// `topy.give(x, y)`
pub const BINARY_INVOKE_BARE: &'static str =
    "^(?P<self>[\\w]+) *(?:->|\\.|#|::) *(?P<cmd>[\\w]+)(?:\\( *(?P<_0>[\\w-.]+) *, *(?P<_1>[\\w-.]+) *\\))?$";

/// `topy.give('the cat', 'a toy')`
pub const BINARY_INVOKE_QUOTED: &'static str =
    "^(?P<self>[\\w]+) *(?:->|\\.|#|::) *(?P<cmd>[\\w]+)(?:\\( *'(?P<_0>[^']+)' *, *'(?P<_1>[^']+)' *\\))?$";

/// `please give topy a toy`, `give topy toy`: a first word is taken for a
/// filler before the verb wherever the rest can still be read
pub const DO_WITH: &'static str =
    "(?:^[\\w]+ +)?(?P<cmd>[\\w]+) +(?P<self>[\\w]+) +(?P<_0>[ \\w]+)[.!]?$";

/// What a text yielded when it matched a shape.
pub struct CommandMatch<'a> {
    /// The name by which the bot was addressed.
    pub referent: &'a str,
    /// The command label.
    pub command: &'a str,
    /// The arguments, in order.
    pub args: Vec<&'a str>,
}

/// The plain value of a `CommandMatch`.
pub struct MatchView {
    pub referent: Seq<char>,
    pub command: Seq<char>,
    pub args: Seq<Seq<char>>,
}

impl<'a> View for CommandMatch<'a> {
    type V = MatchView;

    open spec fn view(&self) -> MatchView {
        MatchView {
            referent: self.referent@,
            command: self.command@,
            args: slice_views(self.args@),
        }
    }
}

/// The plain value of an optional `CommandMatch`.
pub open spec fn match_view(found: Option<CommandMatch>) -> Option<MatchView> {
    match found {
        Some(m) => Some(m@),
        None => None,
    }
}

/// The text of the first group called `name`; `None` where there is no such
/// group or it took no part in the match.
pub open spec fn named_group(groups: Seq<Group>, name: Seq<char>) -> Option<Seq<char>>
    decreases groups.len(),
{
    if groups.len() == 0 {
        None
    } else if groups[0].0 == Some(name) {
        groups[0].1
    } else {
        named_group(groups.skip(1), name)
    }
}

/// The texts of the groups of the arguments `index`, `index + 1`, and so
/// on, up to the first that is missing.
pub open spec fn numbered_args(groups: Seq<Group>, index: nat) -> Seq<Seq<char>>
    decreases groups.len() - index,
{
    if index < groups.len() {
        match named_group(groups, argument_group(index)) {
            Some(arg) => seq![arg] + numbered_args(groups, index + 1),
            None => Seq::empty(),
        }
    } else {
        Seq::empty()
    }
}

/// What the groups of one pattern's match yield: a match where the `self`
/// group is the expected referent and the `cmd` group is one of the labels,
/// and nothing otherwise.
pub open spec fn pattern_match(
    groups: Seq<Group>,
    referent: Seq<char>,
    labels: Seq<Seq<char>>,
) -> Option<MatchView> {
    match (named_group(groups, GROUP_SELF@), named_group(groups, GROUP_COMMAND@)) {
        (Some(name), Some(command)) => if name == referent && labels.contains(command) {
            Some(MatchView { referent: name, command, args: numbered_args(groups, 0) })
        } else {
            None
        },
        _ => None,
    }
}

/// What one pattern yields for a text.
pub open spec fn pattern_yield(
    pattern: Seq<char>,
    referent: Seq<char>,
    labels: Seq<Seq<char>>,
    text: Seq<char>,
) -> Option<MatchView> {
    match captures_of(pattern, text) {
        Some(groups) => pattern_match(groups, referent, labels),
        None => None,
    }
}

/// What a list of patterns yields for a text: the yield of the first
/// pattern that yields anything.
pub open spec fn shape_match(
    patterns: Seq<Seq<char>>,
    referent: Seq<char>,
    labels: Seq<Seq<char>>,
    text: Seq<char>,
) -> Option<MatchView>
    decreases patterns.len(),
{
    if patterns.len() == 0 {
        None
    } else {
        match pattern_yield(patterns[0], referent, labels, text) {
            Some(found) => Some(found),
            None => shape_match(patterns.skip(1), referent, labels, text),
        }
    }
}

/// The text of the first group called `name`.
fn find_group<'t>(groups: &Vec<(Option<String>, Option<&'t str>)>, name: &str) -> (r: Option<
    &'t str,
>)
    ensures
        match r {
            Some(text) => named_group(groups_view(groups@), name@) == Some(text@),
            None => named_group(groups_view(groups@), name@) is None,
        },
{
    let mut i: usize = 0;
    assert(groups_view(groups@).skip(0) =~= groups_view(groups@));
    while i < groups.len()
        invariant
            i <= groups.len(),
            named_group(groups_view(groups@), name@) == named_group(
                groups_view(groups@).skip(i as int),
                name@,
            ),
        decreases groups.len() - i,
    {
        let group = &groups[i];
        proof {
            let rest = groups_view(groups@).skip(i as int);
            assert(rest[0] == group_view(*group));
            assert(rest.skip(1) =~= groups_view(groups@).skip(i + 1));
        }
        match &group.0 {
            Some(called) => {
                if str_eq(called.as_str(), name) {
                    return group.1;
                }
            },
            None => {},
        }
        i += 1;
    }
    None
}

/// Whether `label` is one of `labels`.
fn is_label(labels: &Vec<&str>, label: &str) -> (r: bool)
    ensures
        r == slice_views(labels@).contains(label@),
{
    let mut i: usize = 0;
    while i < labels.len()
        invariant
            i <= labels.len(),
            forall|k: int| 0 <= k < i ==> slice_views(labels@)[k] != label@,
        decreases labels.len() - i,
    {
        if str_eq(labels[i], label) {
            assert(slice_views(labels@)[i as int] == label@);
            return true;
        }
        i += 1;
    }
    false
}

/// The groups of the arguments from 0 up to the first that is missing.
fn collect_args<'t>(groups: &Vec<(Option<String>, Option<&'t str>)>) -> (args: Vec<&'t str>)
    ensures
        slice_views(args@) == numbered_args(groups_view(groups@), 0),
{
    let mut args: Vec<&'t str> = Vec::new();
    let mut index: usize = 0;
    let mut more = true;
    let ghost all = groups_view(groups@);
    assert(slice_views(args@) + numbered_args(all, 0) =~= numbered_args(all, 0));
    while more && index < groups.len()
        invariant
            index <= groups.len(),
            all == groups_view(groups@),
            numbered_args(all, 0) == slice_views(args@) + (if more {
                numbered_args(all, index as nat)
            } else {
                Seq::empty()
            }),
        decreases groups.len() - index + (if more { 1nat } else { 0nat }),
    {
        let mut name = String::from_str(GROUP_ARGUMENT);
        let number = decimal_string(index);
        name.append(number.as_str());
        match find_group(groups, name.as_str()) {
            Some(arg) => {
                proof {
                    lemma_slice_views_push(args@, arg);
                    assert(slice_views(args@) + (seq![arg@] + numbered_args(
                        all,
                        index as nat + 1,
                    )) =~= slice_views(args@).push(arg@) + numbered_args(all, index as nat + 1));
                }
                args.push(arg);
                index += 1;
            },
            None => {
                more = false;
            },
        }
    }
    assert(slice_views(args@) + Seq::<Seq<char>>::empty() =~= slice_views(args@));
    args
}

impl<'a> CommandMatch<'a> {
    /// What the capture groups of one pattern's match yield: a match where
    /// the `self` group is `expected_referent` and the `cmd` group is among
    /// `expected_labels`, with the numbered groups as its arguments.
    pub fn from_groups(
        groups: &Vec<(Option<String>, Option<&'a str>)>,
        expected_referent: &str,
        expected_labels: &Vec<&str>,
    ) -> (found: Option<CommandMatch<'a>>)
        ensures
            match_view(found) == pattern_match(
                groups_view(groups@),
                expected_referent@,
                slice_views(expected_labels@),
            ),
    {
        let referent = match find_group(groups, GROUP_SELF) {
            Some(referent) => referent,
            None => { return None; },
        };
        if !str_eq(referent, expected_referent) {
            return None;
        }
        let command = match find_group(groups, GROUP_COMMAND) {
            Some(command) => command,
            None => { return None; },
        };
        if !is_label(expected_labels, command) {
            return None;
        }
        let args = collect_args(groups);
        Some(CommandMatch { referent, command, args })
    }
}

/// An ordered list of patterns, the earlier taking priority.
pub struct Shape {
    patterns: Vec<String>,
}

impl View for Shape {
    type V = Seq<Seq<char>>;

    closed spec fn view(&self) -> Seq<Seq<char>> {
        views(self.patterns@)
    }
}

impl Shape {
    /// A shape of one pattern.
    fn of_one(first: &str) -> (shape: Shape)
        ensures
            shape@ == seq![first@],
    {
        let mut patterns: Vec<String> = Vec::new();
        patterns.push(String::from_str(first));
        assert(views(patterns@) =~= seq![first@]);
        Shape { patterns }
    }

    /// A shape of two patterns.
    fn of_two(first: &str, second: &str) -> (shape: Shape)
        ensures
            shape@ == seq![first@, second@],
    {
        let mut patterns: Vec<String> = Vec::new();
        patterns.push(String::from_str(first));
        patterns.push(String::from_str(second));
        assert(views(patterns@) =~= seq![first@, second@]);
        Shape { patterns }
    }

    /// Matches `val` against the patterns in order. The first pattern that
    /// matches the text, whose `self` group is `expected_referent` and
    /// whose `cmd` group is among `expected_labels`, gives the result. A
    /// pattern that fails either test is passed over, not the whole shape.
    pub fn try_match<'a>(
        &self,
        expected_referent: &str,
        expected_labels: &Vec<&str>,
        val: &'a str,
    ) -> (found: Option<CommandMatch<'a>>)
        ensures
            match_view(found) == shape_match(
                self@,
                expected_referent@,
                slice_views(expected_labels@),
                val@,
            ),
            found matches Some(m) ==> m@.referent == expected_referent@ && slice_views(
                expected_labels@,
            ).contains(m@.command),
    {
        proof {
            lemma_match_is_addressed(
                self@,
                expected_referent@,
                slice_views(expected_labels@),
                val@,
            );
        }
        let mut i: usize = 0;
        assert(self@.skip(0) =~= self@);
        while i < self.patterns.len()
            invariant
                i <= self.patterns.len(),
                shape_match(self@, expected_referent@, slice_views(expected_labels@), val@)
                    == shape_match(
                    self@.skip(i as int),
                    expected_referent@,
                    slice_views(expected_labels@),
                    val@,
                ),
            decreases self.patterns.len() - i,
        {
            proof {
                assert(self@.skip(i as int)[0] == self.patterns@[i as int]@);
                assert(self@.skip(i as int).skip(1) =~= self@.skip(i + 1));
            }
            match captures(self.patterns[i].as_str(), val) {
                Some(Some(groups)) => {
                    let found = CommandMatch::from_groups(
                        &groups,
                        expected_referent,
                        expected_labels,
                    );
                    if found.is_some() {
                        return found;
                    }
                },
                _ => {},
            }
            i += 1;
        }
        None
    }

    /// An order without arguments: `topy, sit!` or `sit, topy!`.
    pub fn order() -> (shape: Shape)
        ensures
            shape@ == seq![ORDER_NAME_FIRST@, ORDER_NAME_LAST@],
    {
        Shape::of_two(ORDER_NAME_FIRST, ORDER_NAME_LAST)
    }

    /// An order with one argument: `topy, get x!` or `get x, topy!`.
    pub fn unary_order() -> (shape: Shape)
        ensures
            shape@ == seq![UNARY_ORDER_NAME_FIRST@, UNARY_ORDER_NAME_LAST@],
    {
        Shape::of_two(UNARY_ORDER_NAME_FIRST, UNARY_ORDER_NAME_LAST)
    }

    /// A call without arguments: `topy(pet)`, `pets topy`, `topy->{pet}`,
    /// `topy.pet` or `topy.pet()`.
    pub fn invoke() -> (shape: Shape)
        ensures
            shape@ == seq![INVOKE_CALL@, INVOKE_VERB@, INVOKE_BLOCK@, INVOKE_METHOD@],
    {
        let mut patterns: Vec<String> = Vec::new();
        patterns.push(String::from_str(INVOKE_CALL));
        patterns.push(String::from_str(INVOKE_VERB));
        patterns.push(String::from_str(INVOKE_BLOCK));
        patterns.push(String::from_str(INVOKE_METHOD));
        assert(views(patterns@) =~= seq![
            INVOKE_CALL@,
            INVOKE_VERB@,
            INVOKE_BLOCK@,
            INVOKE_METHOD@,
        ]);
        Shape { patterns }
    }

    /// A call with one argument, bare or quoted: `topy.pet(x)` or
    /// `topy.pet('the cat')`.
    pub fn unary_invoke() -> (shape: Shape)
        ensures
            shape@ == seq![UNARY_INVOKE_BARE@, UNARY_INVOKE_QUOTED@],
    {
        Shape::of_two(UNARY_INVOKE_BARE, UNARY_INVOKE_QUOTED)
    }

    /// A call with two arguments, bare or quoted: `topy.give(x, y)` or
    /// `topy.give('the cat', 'a toy')`.
    pub fn binary_invoke() -> (shape: Shape)
        ensures
            shape@ == seq![BINARY_INVOKE_BARE@, BINARY_INVOKE_QUOTED@],
    {
        Shape::of_two(BINARY_INVOKE_BARE, BINARY_INVOKE_QUOTED)
    }

    /// An imperative with an object: `please give topy a toy` or
    /// `give topy toy`.
    pub fn do_with() -> (shape: Shape)
        ensures
            shape@ == seq![DO_WITH@],
    {
        Shape::of_one(DO_WITH)
    }
}

/// The text that a command is looked for in: the lines of a body joined
/// by newlines, without white space at either end.
pub open spec fn collapsed(body: Seq<Seq<char>>) -> Seq<char> {
    trimmed(join_with(body, '\n'))
}

/// What a command does when it fires.
pub trait Action<E> {
    /// Whether the action can be run on every state, notice and match.
    spec fn total(&self) -> bool;

    /// Whether running the action on `before`, for `notice` and `found`,
    /// may leave `after`.
    spec fn effect(&self, before: State<E>, notice: Notice, found: MatchView, after: State<E>) -> bool;

    /// Runs the action.
    fn act(&self, state: &mut State<E>, notice: &Notice, found: &CommandMatch)
        requires
            self.total(),
        ensures
            self.effect(*old(state), *notice, found@, *final(state)),
    ;
}

/// What a handler does with a notice, and whether it claims the notice.
pub trait Hook<E> {
    /// Whether the hook can be run on every state and notice.
    spec fn total(&self) -> bool;

    /// Whether running the hook on `before`, for `notice`, may leave
    /// `after` and report `fired`.
    spec fn outcome(&self, before: State<E>, notice: Notice, after: State<E>, fired: bool) -> bool;

    /// Runs the hook and says whether it claimed the notice.
    fn run(&self, state: &mut State<E>, notice: &Notice) -> (fired: bool)
        requires
            self.total(),
        ensures
            self.outcome(*old(state), *notice, *final(state), fired),
    ;
}

/// Whether the closure `f`, called on the state `before` and on `notice`,
/// may return `fired`.
pub open spec fn closure_reports<E, F: Fn(&mut State<E>, &Notice) -> bool>(
    f: F,
    before: State<E>,
    notice: Notice,
    fired: bool,
) -> bool {
    exists|given: &mut State<E>| *given == before && call_ensures(f, (given, &notice), fired)
}

/// Whether the closure `f`, called on the state `before`, on `notice` and
/// on a match that holds `found`, may return.
pub open spec fn closure_acts<E, F: Fn(&mut State<E>, &Notice, &CommandMatch)>(
    f: F,
    before: State<E>,
    notice: Notice,
    found: MatchView,
) -> bool {
    exists|given: &mut State<E>, handed: &CommandMatch|
        *given == before && handed@ == found && call_ensures(f, (given, &notice, handed), ())
}

/// A closure is a hook: running it is calling the closure. What it reports
/// is what the closure returns when called on the state as it is. What the
/// closure leaves of the state is known only where the closure's own type
/// is.
impl<E, F: Fn(&mut State<E>, &Notice) -> bool> Hook<E> for F {
    open spec fn total(&self) -> bool {
        forall|state: &mut State<E>, notice: &Notice| call_requires(*self, (state, notice))
    }

    open spec fn outcome(&self, before: State<E>, notice: Notice, after: State<E>, fired: bool) -> bool {
        closure_reports(*self, before, notice, fired)
    }

    /// Calls the closure on the state as it is and on the notice: what it
    /// reports is what the call returned, and the state is left as the call
    /// left it.
    fn run(&self, state: &mut State<E>, notice: &Notice) -> (fired: bool)
        ensures
            exists|given: &mut State<E>|
                {
                    &&& *given == *old(state)
                    &&& *final(given) == *final(state)
                    &&& call_ensures(*self, (given, notice), fired)
                },
    {
        self(state, notice)
    }
}

/// A closure is an action: running it is calling the closure on the state
/// as it is, on the notice and on the match. What the closure leaves of
/// the state is known only where the closure's own type is.
impl<E, F: Fn(&mut State<E>, &Notice, &CommandMatch)> Action<E> for F {
    open spec fn total(&self) -> bool {
        forall|state: &mut State<E>, notice: &Notice, found: &CommandMatch|
            call_requires(*self, (state, notice, found))
    }

    open spec fn effect(&self, before: State<E>, notice: Notice, found: MatchView, after: State<E>) -> bool {
        closure_acts(*self, before, notice, found)
    }

    /// Calls the closure on the state as it is, on the notice and on the
    /// match: the state is left as the call left it.
    fn act(&self, state: &mut State<E>, notice: &Notice, found: &CommandMatch)
        ensures
            exists|given: &mut State<E>|
                {
                    &&& *given == *old(state)
                    &&& *final(given) == *final(state)
                    &&& call_ensures(*self, (given, notice, found), ())
                },
    {
        self(state, notice, found)
    }
}

/// The labels as borrowed strings.
fn label_slices(labels: &Vec<String>) -> (slices: Vec<&str>)
    ensures
        slice_views(slices@) == views(labels@),
{
    let mut slices: Vec<&str> = Vec::new();
    let mut i: usize = 0;
    while i < labels.len()
        invariant
            i <= labels.len(),
            slice_views(slices@) == views(labels@).take(i as int),
        decreases labels.len() - i,
    {
        let label = labels[i].as_str();
        proof {
            lemma_slice_views_push(slices@, label);
            assert(views(labels@).take(i + 1) =~= views(labels@).take(i as int).push(label@));
        }
        slices.push(label);
        i += 1;
    }
    assert(views(labels@).take(labels.len() as int) =~= views(labels@));
    slices
}

/// The labels as strings of their own.
fn owned_labels(labels: &Vec<&str>) -> (owned: Vec<String>)
    ensures
        views(owned@) == slice_views(labels@),
{
    let mut owned: Vec<String> = Vec::new();
    let mut i: usize = 0;
    while i < labels.len()
        invariant
            i <= labels.len(),
            views(owned@) == slice_views(labels@).take(i as int),
        decreases labels.len() - i,
    {
        let label = String::from_str(labels[i]);
        proof {
            crate::text::lemma_views_push(owned@, label);
            assert(slice_views(labels@).take(i + 1) =~= slice_views(labels@).take(i as int).push(
                label@,
            ));
        }
        owned.push(label);
        i += 1;
    }
    assert(slice_views(labels@).take(labels.len() as int) =~= slice_views(labels@));
    owned
}

/// A shape, a scope, the labels it accepts and what to do when a notice
/// asks for one of them.
#[verifier::reject_recursive_types(E)]
pub struct Command<E> {
    shape: Shape,
    scope: Scope,
    labels: Vec<String>,
    action: Box<dyn Action<E>>,
}

impl<E> Command<E> {
    #[verifier::type_invariant]
    spec fn ready(self) -> bool {
        self.action.total()
    }

    /// The patterns of the command's shape.
    pub closed spec fn patterns(self) -> Seq<Seq<char>> {
        self.shape@
    }

    /// Where the command listens.
    pub closed spec fn scope(self) -> Scope {
        self.scope
    }

    /// The labels that the command accepts.
    pub closed spec fn labels(self) -> Seq<Seq<char>> {
        views(self.labels@)
    }

    /// Whether the command's action, run on `before` for `notice` and
    /// `found`, may leave `after`.
    pub closed spec fn effect(
        self,
        before: State<E>,
        notice: Notice,
        found: MatchView,
        after: State<E>,
    ) -> bool {
        self.action.effect(before, notice, found, after)
    }

    /// What the body of `notice` yields for this command when the bot is in
    /// `state`: the referent has to be the bot's name.
    pub open spec fn found(self, state: State<E>, notice: Notice) -> Option<MatchView> {
        shape_match(self.patterns(), state.name@, self.labels(), collapsed(notice@.body))
    }

    /// Whether `notice` is on a topic that the command listens on: a local
    /// command asks for the very class and instance that the bot is on.
    pub open spec fn in_scope(self, state: State<E>, notice: Notice) -> bool {
        self.scope() == Scope::Local ==> state.class@ == notice.class@ && state.instance@
            == notice.instance@
    }

    /// Whether the command fires for `notice` when the bot is in `state`.
    pub open spec fn fires(self, state: State<E>, notice: Notice) -> bool {
        self.found(state, notice) is Some && self.in_scope(state, notice)
    }

    /// Whether trying the command on `before`, for `notice`, may leave
    /// `after` and report `fired`: a command that fires runs its action on
    /// what the body yielded, and one that does not leaves the state alone.
    pub open spec fn outcome(self, before: State<E>, notice: Notice, after: State<E>, fired: bool) -> bool {
        &&& fired == self.fires(before, notice)
        &&& fired ==> self.effect(before, notice, self.found(before, notice)->0, after)
        &&& !fired ==> after == before
    }

    /// A command that runs the closure `action` when a notice asks, in
    /// `shape`, for one of `labels`. The closure has to accept every state,
    /// notice and match.
    pub fn new<F>(shape: Shape, scope: Scope, labels: Vec<&str>, action: F) -> (command: Command<
        E,
    >) where F: Fn(&mut State<E>, &Notice, &CommandMatch) -> () + 'static
        requires
            forall|state: &mut State<E>, notice: &Notice, found: &CommandMatch|
                call_requires(action, (state, notice, found)),
        ensures
            command.patterns() == shape@,
            command.scope() == scope,
            command.labels() == slice_views(labels@),
            forall|before: State<E>, notice: Notice, found: MatchView, after: State<E>|
                command.effect(before, notice, found, after) <==> Action::<E>::effect(
                    &action,
                    before,
                    notice,
                    found,
                    after,
                ),
            forall|before: State<E>, notice: Notice, found: MatchView, after: State<E>|
                command.effect(before, notice, found, after) <==> closure_acts(
                    action,
                    before,
                    notice,
                    found,
                ),
    {
        assert(Action::<E>::total(&action));
        Command::of(shape, scope, labels, action)
    }

    /// A command that runs `action` when a notice asks, in `shape`, for one
    /// of `labels`.
    pub fn of<A>(shape: Shape, scope: Scope, labels: Vec<&str>, action: A) -> (command: Command<
        E,
    >) where A: Action<E> + 'static
        requires
            action.total(),
        ensures
            command.patterns() == shape@,
            command.scope() == scope,
            command.labels() == slice_views(labels@),
            forall|before: State<E>, notice: Notice, found: MatchView, after: State<E>|
                command.effect(before, notice, found, after) <==> action.effect(
                    before,
                    notice,
                    found,
                    after,
                ),
    {
        Command { shape, scope, labels: owned_labels(&labels), action: Box::new(action) }
    }

    /// Tries the command on `notice`: where the body, joined and trimmed,
    /// matches the shape for the bot's name and the command's labels, and
    /// the notice is in scope, the action runs and the command has fired.
    pub fn try_exec(&self, state: &mut State<E>, notice: &Notice) -> (fired: bool)
        ensures
            self.outcome(*old(state), *notice, *final(state), fired),
    {
        proof {
            use_type_invariant(self);
        }
        let joined = join_lines(&notice.body);
        let text = trim(joined.as_str());
        let labels = label_slices(&self.labels);
        match self.shape.try_match(state.name.as_str(), &labels, text) {
            Some(found) => {
                let local = match self.scope {
                    Scope::Local => true,
                    _ => false,
                };
                if local && !(str_eq(state.class.as_str(), notice.class.as_str()) && str_eq(
                    state.instance.as_str(),
                    notice.instance.as_str(),
                )) {
                    return false;
                }
                self.action.act(state, notice, &found);
                true
            },
            None => false,
        }
    }
}

/// Something to run on every notice, whatever its body says.
#[verifier::reject_recursive_types(E)]
pub struct Handler<E> {
    action: Box<dyn Hook<E>>,
}

impl<E> Handler<E> {
    #[verifier::type_invariant]
    spec fn ready(self) -> bool {
        self.action.total()
    }

    /// Whether running the handler on `before`, for `notice`, may leave
    /// `after` and report `fired`.
    pub closed spec fn outcome(self, before: State<E>, notice: Notice, after: State<E>, fired: bool) -> bool {
        self.action.outcome(before, notice, after, fired)
    }

    /// A handler that runs the closure `action`, and reports what the
    /// closure returns. The closure has to accept every state and notice.
    pub fn new<F>(action: F) -> (handler: Handler<E>) where
        F: Fn(&mut State<E>, &Notice) -> bool + 'static,
        requires
            forall|state: &mut State<E>, notice: &Notice| call_requires(action, (state, notice)),
        ensures
            forall|before: State<E>, notice: Notice, after: State<E>, fired: bool|
                handler.outcome(before, notice, after, fired) <==> Hook::<E>::outcome(
                    &action,
                    before,
                    notice,
                    after,
                    fired,
                ),
            forall|before: State<E>, notice: Notice, after: State<E>, fired: bool|
                handler.outcome(before, notice, after, fired) <==> closure_reports(
                    action,
                    before,
                    notice,
                    fired,
                ),
    {
        assert(Hook::<E>::total(&action));
        Handler::of(action)
    }

    /// A handler that runs `action`.
    pub fn of<H>(action: H) -> (handler: Handler<E>) where H: Hook<E> + 'static
        requires
            action.total(),
        ensures
            forall|before: State<E>, notice: Notice, after: State<E>, fired: bool|
                handler.outcome(before, notice, after, fired) <==> action.outcome(
                    before,
                    notice,
                    after,
                    fired,
                ),
    {
        Handler { action: Box::new(action) }
    }

    /// Runs the handler on `notice` and says whether it claimed it.
    pub fn try_exec(&self, state: &mut State<E>, notice: &Notice) -> (fired: bool)
        ensures
            self.outcome(*old(state), *notice, *final(state), fired),
    {
        proof {
            use_type_invariant(self);
        }
        self.action.run(state, notice)
    }
}

/// A local command does not fire for a notice on another topic than the
/// bot's, whatever its body says.
pub proof fn lemma_local_command_needs_topic<E>(command: Command<E>, state: State<E>, notice: Notice)
    requires
        command.scope() == Scope::Local,
        state.class@ != notice.class@ || state.instance@ != notice.instance@,
    ensures
        !command.fires(state, notice),
        forall|after: State<E>, fired: bool|
            command.outcome(state, notice, after, fired) ==> !fired && after == state,
{
}

/// A command that is not local fires for every notice whose body yields a
/// match, on whatever topic the notice is.
pub proof fn lemma_wide_command_ignores_topic<E>(command: Command<E>, state: State<E>, notice: Notice)
    requires
        command.scope() != Scope::Local,
    ensures
        command.fires(state, notice) <==> command.found(state, notice) is Some,
{
}

/// A match is always for the bot that was asked for and for a label that
/// was accepted: whatever a shape yields names the expected referent and
/// one of the expected labels. So a text that addresses one bot yields
/// nothing for a bot of another name, and a label that is not accepted is
/// never matched.
pub proof fn lemma_match_is_addressed(
    patterns: Seq<Seq<char>>,
    referent: Seq<char>,
    labels: Seq<Seq<char>>,
    text: Seq<char>,
)
    ensures
        shape_match(patterns, referent, labels, text) matches Some(found) ==> found.referent
            == referent && labels.contains(found.command),
    decreases patterns.len(),
{
    if patterns.len() > 0 {
        lemma_match_is_addressed(patterns.skip(1), referent, labels, text);
    }
}

/// Earlier patterns take priority. Where pattern `i` is the first that
/// yields anything, the shape yields what that pattern yields; where none
/// yields anything, neither does the shape.
pub proof fn lemma_first_yield_wins(
    patterns: Seq<Seq<char>>,
    i: int,
    referent: Seq<char>,
    labels: Seq<Seq<char>>,
    text: Seq<char>,
)
    ensures
        0 <= i < patterns.len() && pattern_yield(patterns[i], referent, labels, text) is Some
            && (forall|j: int|
            0 <= j < i ==> pattern_yield(#[trigger] patterns[j], referent, labels, text) is None)
            ==> shape_match(patterns, referent, labels, text) == pattern_yield(
            patterns[i],
            referent,
            labels,
            text,
        ),
        (forall|j: int|
            0 <= j < patterns.len() ==> pattern_yield(#[trigger] patterns[j], referent, labels, text)
                is None) ==> shape_match(patterns, referent, labels, text) is None,
    decreases patterns.len(),
{
    if patterns.len() > 0 {
        let rest = patterns.skip(1);
        lemma_first_yield_wins(rest, i - 1, referent, labels, text);
        assert(patterns[0] == patterns[0]);
        if pattern_yield(patterns[0], referent, labels, text) is None {
            if 0 < i < patterns.len() && (forall|j: int|
                0 <= j < i ==> pattern_yield(#[trigger] patterns[j], referent, labels, text)
                    is None) {
                assert(rest[i - 1] == patterns[i]);
                assert forall|j: int| 0 <= j < i - 1 implies pattern_yield(
                    #[trigger] rest[j],
                    referent,
                    labels,
                    text,
                ) is None by {
                    assert(rest[j] == patterns[j + 1]);
                }
            }
            if forall|j: int|
                0 <= j < patterns.len() ==> pattern_yield(
                    #[trigger] patterns[j],
                    referent,
                    labels,
                    text,
                ) is None {
                assert forall|j: int| 0 <= j < rest.len() implies pattern_yield(
                    #[trigger] rest[j],
                    referent,
                    labels,
                    text,
                ) is None by {
                    assert(rest[j] == patterns[j + 1]);
                }
            }
        }
    }
}

/// The groups of one match yield something for at most one referent: where
/// they yield a match for `referent`, they yield nothing for any other.
pub proof fn lemma_groups_name_one_referent(
    groups: Seq<Group>,
    referent: Seq<char>,
    other: Seq<char>,
    labels: Seq<Seq<char>>,
)
    requires
        other != referent,
        pattern_match(groups, referent, labels) is Some,
    ensures
        pattern_match(groups, other, labels) is None,
{
}

/// With no label accepted, nothing matches.
pub proof fn lemma_no_label_no_match(patterns: Seq<Seq<char>>, referent: Seq<char>, text: Seq<char>)
    ensures
        shape_match(patterns, referent, Seq::<Seq<char>>::empty(), text) is None,
{
    lemma_match_is_addressed(patterns, referent, Seq::<Seq<char>>::empty(), text);
}

} // verus!
