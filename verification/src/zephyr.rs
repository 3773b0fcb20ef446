//! Notices and the triplets that address them.

use crate::text::{lemma_views_push, str_eq, views};
use crate::wrap::{wrap_lines, wrapped, DEFAULT_WIDTH};
use vstd::prelude::*;
use vstd::std_specs::cmp::PartialEqSpecImpl;
use vstd::string::*;

verus! {

/// Whether a notice was received or is to be sent.
#[derive(Clone, Copy, Debug, PartialEq, Eq, Structural)]
pub enum Direction {
    Incoming,
    Outgoing,
}

/// What only a received notice carries.
#[derive(Debug)]
pub struct IncomingData {
    /// Whether the sender was authenticated.
    pub is_auth: bool,
    /// When the notice was received, in milliseconds. A notice read from
    /// a block always has 0 here: the time and date of a block are not
    /// read.
    pub date: u64,
    /// The host the notice came from.
    pub host: String,
}

/// The plain value of an `IncomingData`.
pub struct IncomingView {
    pub is_auth: bool,
    pub date: u64,
    pub host: Seq<char>,
}

impl View for IncomingData {
    type V = IncomingView;

    open spec fn view(&self) -> IncomingView {
        IncomingView { is_auth: self.is_auth, date: self.date, host: self.host@ }
    }
}

/// One message, received or to be sent.
#[derive(Debug)]
pub struct Notice {
    pub opcode: String,
    pub direction: Direction,
    pub class: String,
    pub instance: String,
    pub sender: String,
    pub zsig: String,
    pub body: Vec<String>,
    pub incoming_data: Option<IncomingData>,
}

/// The plain value of a `Notice`.
pub struct NoticeView {
    pub opcode: Seq<char>,
    pub direction: Direction,
    pub class: Seq<char>,
    pub instance: Seq<char>,
    pub sender: Seq<char>,
    pub zsig: Seq<char>,
    pub body: Seq<Seq<char>>,
    pub incoming_data: Option<IncomingView>,
}

impl View for Notice {
    type V = NoticeView;

    open spec fn view(&self) -> NoticeView {
        NoticeView {
            opcode: self.opcode@,
            direction: self.direction,
            class: self.class@,
            instance: self.instance@,
            sender: self.sender@,
            zsig: self.zsig@,
            body: views(self.body@),
            incoming_data: match self.incoming_data {
                Some(data) => Some(data@),
                None => None,
            },
        }
    }
}

impl Clone for IncomingData {
    fn clone(&self) -> (copy: IncomingData)
        ensures
            copy@ == self@,
    {
        IncomingData { is_auth: self.is_auth, date: self.date, host: self.host.clone() }
    }
}

/// A copy of `lines`, line by line.
pub fn clone_lines(lines: &Vec<String>) -> (copy: Vec<String>)
    ensures
        views(copy@) == views(lines@),
{
    let mut copy: Vec<String> = Vec::new();
    let mut i: usize = 0;
    while i < lines.len()
        invariant
            i <= lines.len(),
            views(copy@) == views(lines@).take(i as int),
        decreases lines.len() - i,
    {
        let line = lines[i].clone();
        proof {
            lemma_views_push(copy@, line);
            assert(views(lines@).take(i + 1) =~= views(lines@).take(i as int).push(line@));
        }
        copy.push(line);
        i += 1;
    }
    assert(views(lines@).take(lines.len() as int) =~= views(lines@));
    copy
}

impl Clone for Notice {
    fn clone(&self) -> (copy: Notice)
        ensures
            copy@ == self@,
    {
        Notice {
            opcode: self.opcode.clone(),
            direction: self.direction,
            class: self.class.clone(),
            instance: self.instance.clone(),
            sender: self.sender.clone(),
            zsig: self.zsig.clone(),
            body: clone_lines(&self.body),
            incoming_data: match &self.incoming_data {
                Some(data) => Some(data.clone()),
                None => None,
            },
        }
    }
}

impl NoticeView {
    /// A notice carries incoming data exactly when it was received.
    pub open spec fn well_formed(self) -> bool {
        self.incoming_data is Some <==> self.direction == Direction::Incoming
    }
}

/// The opcode that marks a notice as sent by a program: replies carry it,
/// and a bot never reacts to it.
pub const AUTO: &'static str = "AUTO";

/// The instance of a reply to a triplet that names none.
pub const PERSONAL: &'static str = "personal";

/// The outgoing notice with the given fields and body lines.
pub open spec fn outgoing(
    opcode: Seq<char>,
    class: Seq<char>,
    instance: Seq<char>,
    sender: Seq<char>,
    zsig: Seq<char>,
    body: Seq<Seq<char>>,
) -> NoticeView {
    NoticeView {
        opcode,
        direction: Direction::Outgoing,
        class,
        instance,
        sender,
        zsig,
        body,
        incoming_data: None,
    }
}

/// A topic: a class, and an instance and a recipient where they are not
/// wildcards.
#[derive(Debug)]
pub struct Triplet {
    pub class: String,
    pub instance: Option<String>,
    pub recipient: Option<String>,
}

/// The plain value of a `Triplet`.
pub struct TripletView {
    pub class: Seq<char>,
    pub instance: Option<Seq<char>>,
    pub recipient: Option<Seq<char>>,
}

impl View for Triplet {
    type V = TripletView;

    open spec fn view(&self) -> TripletView {
        TripletView {
            class: self.class@,
            instance: match self.instance {
                Some(i) => Some(i@),
                None => None,
            },
            recipient: match self.recipient {
                Some(r) => Some(r@),
                None => None,
            },
        }
    }
}

impl Clone for Triplet {
    fn clone(&self) -> (copy: Triplet)
        ensures
            copy@ == self@,
    {
        Triplet {
            class: self.class.clone(),
            instance: match &self.instance {
                Some(i) => Some(i.clone()),
                None => None,
            },
            recipient: match &self.recipient {
                Some(r) => Some(r.clone()),
                None => None,
            },
        }
    }
}

impl PartialEq for Triplet {
    fn eq(&self, other: &Triplet) -> (equal: bool) {
        self.class == other.class && same_text(&self.instance, &other.instance) && same_text(
            &self.recipient,
            &other.recipient,
        )
    }
}

impl Eq for Triplet {

}

impl PartialEqSpecImpl for Triplet {
    open spec fn obeys_eq_spec() -> bool {
        true
    }

    open spec fn eq_spec(&self, other: &Triplet) -> bool {
        self@ == other@
    }
}

/// Whether two optional strings are both absent or hold the same text.
fn same_text(a: &Option<String>, b: &Option<String>) -> (equal: bool)
    ensures
        equal == (match (*a, *b) {
            (Some(x), Some(y)) => x@ == y@,
            (None, None) => true,
            _ => false,
        }),
{
    match (a, b) {
        (Some(x), Some(y)) => *x == *y,
        (None, None) => true,
        _ => false,
    }
}

impl TripletView {
    /// A triplet always names a class.
    pub open spec fn well_formed(self) -> bool {
        self.class.len() > 0
    }

    /// The instance that a reply to this triplet goes to.
    pub open spec fn reply_instance(self) -> Seq<char> {
        match self.instance {
            Some(i) => i,
            None => PERSONAL@,
        }
    }

    /// The reply that this triplet derives from a sender, a signature and
    /// text: an `AUTO` notice to the triplet's class and reply instance,
    /// with the text wrapped to the default width.
    pub open spec fn reply(self, sender: Seq<char>, zsig: Seq<char>, body: Seq<char>) -> NoticeView {
        outgoing(
            AUTO@,
            self.class,
            self.reply_instance(),
            sender,
            zsig,
            wrapped(DEFAULT_WIDTH as nat, body),
        )
    }

    /// Whether a notice to `class` and `instance` falls under this triplet:
    /// the classes agree, and the instance agrees unless it is a wildcard.
    pub open spec fn covers(self, class: Seq<char>, instance: Seq<char>) -> bool {
        self.class == class && (self.instance is None || self.instance == Some(instance))
    }
}

impl Notice {
    /// An outgoing notice whose body is `body` wrapped to the default width.
    pub fn new_outgoing(
        opcode: &str,
        class: &str,
        instance: &str,
        sender: &str,
        zsig: &str,
        body: &str,
    ) -> (notice: Notice)
        ensures
            notice@ == outgoing(
                opcode@,
                class@,
                instance@,
                sender@,
                zsig@,
                wrapped(DEFAULT_WIDTH as nat, body@),
            ),
            notice@.well_formed(),
    {
        Notice::new_outgoing_with_wrap(opcode, class, instance, sender, zsig, body, DEFAULT_WIDTH)
    }

    /// An outgoing notice whose body is `body` wrapped to `wrap` bytes.
    pub fn new_outgoing_with_wrap(
        opcode: &str,
        class: &str,
        instance: &str,
        sender: &str,
        zsig: &str,
        body: &str,
        wrap: usize,
    ) -> (notice: Notice)
        ensures
            notice@ == outgoing(
                opcode@,
                class@,
                instance@,
                sender@,
                zsig@,
                wrapped(wrap as nat, body@),
            ),
            notice@.well_formed(),
    {
        Notice {
            opcode: String::from_str(opcode),
            direction: Direction::Outgoing,
            class: String::from_str(class),
            instance: String::from_str(instance),
            sender: String::from_str(sender),
            zsig: String::from_str(zsig),
            body: wrap_lines(wrap, body),
            incoming_data: None,
        }
    }

    /// A reply to the topic this notice was sent to.
    pub fn make_reply(&self, sender: &str, zsig: &str, body: &str) -> (reply: Notice)
        ensures
            reply@ == self@.triplet().reply(sender@, zsig@, body@),
            reply@.class == self@.class,
            reply@.instance == self@.instance,
    {
        self.triplet().make_reply(sender, zsig, body)
    }

    /// The topic this notice was sent to: its class and instance, for any
    /// recipient.
    pub fn triplet(&self) -> (t: Triplet)
        ensures
            t@ == self@.triplet(),
    {
        Triplet::of_instance(self.class.as_str(), self.instance.as_str())
    }

    /// Whether this notice falls under `triplet`.
    pub fn was_sent_to(&self, triplet: &Triplet) -> (r: bool)
        ensures
            r == triplet@.covers(self@.class, self@.instance),
    {
        str_eq(triplet.class.as_str(), self.class.as_str()) && match &triplet.instance {
            None => true,
            Some(instance) => str_eq(instance.as_str(), self.instance.as_str()),
        }
    }

    /// Whether this notice was received from an authenticated sender.
    pub fn is_auth(&self) -> (r: bool)
        ensures
            r == self@.is_auth(),
    {
        match &self.incoming_data {
            Some(data) => data.is_auth,
            None => false,
        }
    }
}

impl NoticeView {
    /// The topic of the notice: its class and instance, for any recipient.
    pub open spec fn triplet(self) -> TripletView {
        TripletView { class: self.class, instance: Some(self.instance), recipient: None }
    }

    /// Whether the notice was received from an authenticated sender.
    pub open spec fn is_auth(self) -> bool {
        match self.incoming_data {
            Some(data) => data.is_auth,
            None => false,
        }
    }
}

impl Triplet {
    /// Every instance of `class`, for every recipient.
    pub fn of_class(class: &str) -> (t: Triplet)
        ensures
            t@ == (TripletView { class: class@, instance: None, recipient: None }),
            t@.well_formed() <==> class@.len() > 0,
    {
        Triplet { class: String::from_str(class), instance: None, recipient: None }
    }

    /// One instance of `class`, for every recipient.
    pub fn of_instance(class: &str, instance: &str) -> (t: Triplet)
        ensures
            t@ == (TripletView { class: class@, instance: Some(instance@), recipient: None }),
            t@.well_formed() <==> class@.len() > 0,
    {
        Triplet {
            class: String::from_str(class),
            instance: Some(String::from_str(instance)),
            recipient: None,
        }
    }

    /// One instance of `class`, for one recipient.
    pub fn new(class: &str, instance: &str, recipient: &str) -> (t: Triplet)
        ensures
            t@ == (TripletView {
                class: class@,
                instance: Some(instance@),
                recipient: Some(recipient@),
            }),
            t@.well_formed() <==> class@.len() > 0,
    {
        Triplet {
            class: String::from_str(class),
            instance: Some(String::from_str(instance)),
            recipient: Some(String::from_str(recipient)),
        }
    }

    /// A reply to this topic: an `AUTO` notice to its class and instance, or
    /// to the instance `personal` where the triplet names none.
    pub fn make_reply(&self, sender: &str, zsig: &str, body: &str) -> (reply: Notice)
        ensures
            reply@ == self@.reply(sender@, zsig@, body@),
            reply@.well_formed(),
            reply@.class == self@.class,
            reply@.instance == match self@.instance {
                Some(instance) => instance,
                None => PERSONAL@,
            },
    {
        match &self.instance {
            Some(instance) => Notice::new_outgoing(
                AUTO,
                self.class.as_str(),
                instance.as_str(),
                sender,
                zsig,
                body,
            ),
            None => Notice::new_outgoing(AUTO, self.class.as_str(), PERSONAL, sender, zsig, body),
        }
    }
}

/// A reply goes back to where the notice came from: it carries the class
/// and the instance of the notice it answers. A reply to a triplet carries
/// the triplet's class, and its instance, or `personal` where the triplet
/// names none. Every reply is an outgoing `AUTO` notice.
pub proof fn lemma_reply_goes_back(
    notice: NoticeView,
    triplet: TripletView,
    sender: Seq<char>,
    zsig: Seq<char>,
    body: Seq<char>,
)
    ensures
        notice.triplet().reply(sender, zsig, body).class == notice.class,
        notice.triplet().reply(sender, zsig, body).instance == notice.instance,
        triplet.reply(sender, zsig, body).class == triplet.class,
        triplet.instance is Some ==> triplet.reply(sender, zsig, body).instance
            == triplet.instance->0,
        triplet.instance is None ==> triplet.reply(sender, zsig, body).instance == PERSONAL@,
        triplet.reply(sender, zsig, body).opcode == AUTO@,
        triplet.reply(sender, zsig, body).direction == Direction::Outgoing,
        triplet.reply(sender, zsig, body).sender == sender,
        triplet.reply(sender, zsig, body).zsig == zsig,
        triplet.reply(sender, zsig, body).well_formed(),
{
}

} // verus!
