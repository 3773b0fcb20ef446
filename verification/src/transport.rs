//! What the transport is told to do: the two outside programs and their
//! arguments, the files that the receiver is started with, the bytes that
//! make up one block, and when the receiver is started and stopped.
//!
//! Nothing here touches a process or a file. Whoever runs the bot carries
//! out the steps that are planned here, says so where a step failed, and
//! hands back what was read.

use crate::codec::{
    decode_block, decoded_bytes, result_view, sender_arguments, sender_arguments_of, DecodeError,
};
use crate::text::views;
use crate::zephyr::{Notice, NoticeView, Triplet, TripletView};
use vstd::prelude::*;
use vstd::string::*;

verus! {

/// The program that receives notices.
pub const RECEIVER: &'static str = "zwgc";

/// The program that sends one notice.
pub const SENDER: &'static str = "zwrite";

/// The instance or recipient of a subscription to all of them.
pub const WILDCARD: &'static str = "*";

/// How many bytes are asked of the receiver at a time. A read that brings
/// fewer ends the block.
pub const CHUNK: usize = 512;

/// The rules by which the receiver prints each notice as a block of
/// `key: value` lines. Pings and mail are dropped there.
pub const FORMAT: &'static str = r#"
if (downcase($opcode) == "ping") then

	exit
endif

case downcase($class)
match "mail"
	exit

default
	fields signature body
	if (downcase($recipient) == downcase($user)) then
		print "personal\n"
	endif
	while ($opcode != "") do
		print "opcode:" lbreak($opcode, "\n")
		print "\n"
		set dummy = lany($opcode, "\n")
	endwhile
	while ($class != "") do
		print "class:" lbreak($class, "\n")
		print "\n"
		set dummy = lany($class, "\n")
	endwhile
	while ($instance != "") do
		print "instance:" lbreak($instance, "\n")
		print "\n"
		set dummy = lany($instance, "\n")
	endwhile
	while ($sender != "") do
		print "sender:" lbreak($sender, "\n")
		print "\n"
		set dummy = lany($sender, "\n")
	endwhile
	while ($auth != "") do
		print "auth:" lbreak($auth, "\n")
		print "\n"
		set dummy = lany($auth, "\n")
	endwhile
	while ($time != "") do
		print "time:" lbreak($time, "\n")
		print "\n"
		set dummy = lany($time, "\n")
	endwhile
	while ($date != "") do
		print "date:" lbreak($date, "\n")
		print "\n"
		set dummy = lany($date, "\n")
	endwhile
	while ($fromhost != "") do
		print "fromhost:" lbreak($fromhost, "\n")
		print "\n"
		set dummy = lany($fromhost, "\n")
	endwhile
	while ($signature != "") do
		print "signature:" lbreak($signature, "\n")
		print "\n"
		set dummy = lany($signature, "\n")
	endwhile
	while ($body != "") do
		print "body:" lbreak($body, "\n")
		print " \n"
		set dummy = lany($body, "\n")
	endwhile
	print "done\n"
	put "stdout"
	exit

endcase
"#;

/// The arguments that the receiver is started with: it stays in the
/// foreground and prints plain text, by the rules in `format_file`, for the
/// subscriptions in `sub_file`.
pub open spec fn receiver_arguments_of(format_file: Seq<char>, sub_file: Seq<char>) -> Seq<
    Seq<char>,
> {
    seq!["-nofork"@, "-ttymode"@, "-f"@, format_file, "-subfile"@, sub_file]
}

/// The arguments that the receiver is started with.
pub fn receiver_arguments(format_file: &str, sub_file: &str) -> (arguments: Vec<String>)
    ensures
        views(arguments@) == receiver_arguments_of(format_file@, sub_file@),
{
    let mut arguments: Vec<String> = Vec::new();
    arguments.push(String::from_str("-nofork"));
    arguments.push(String::from_str("-ttymode"));
    arguments.push(String::from_str("-f"));
    arguments.push(String::from_str(format_file));
    arguments.push(String::from_str("-subfile"));
    arguments.push(String::from_str(sub_file));
    assert(views(arguments@) =~= receiver_arguments_of(format_file@, sub_file@));
    arguments
}

/// The line of the subscription file for one triplet: class, instance and
/// recipient with commas between them, and `*` for a wildcard.
pub open spec fn subscription_of(triplet: TripletView) -> Seq<char> {
    triplet.class + ","@ + (match triplet.instance {
        Some(instance) => instance,
        None => WILDCARD@,
    }) + ","@ + (match triplet.recipient {
        Some(recipient) => recipient,
        None => WILDCARD@,
    })
}

/// The subscription file for a list of triplets: one line each, in order,
/// each ended by a newline.
pub open spec fn subscriptions_of(subs: Seq<Triplet>) -> Seq<char>
    decreases subs.len(),
{
    if subs.len() == 0 {
        Seq::empty()
    } else {
        (subscriptions_of(subs.drop_last()) + subscription_of(subs.last()@)).push('\n')
    }
}

impl Triplet {
    /// The triplet as a line of the subscription file.
    pub fn to_line(&self) -> (line: String)
        ensures
            line@ == subscription_of(self@),
    {
        let mut line = self.class.clone();
        line.append(",");
        match &self.instance {
            Some(instance) => line.append(instance.as_str()),
            None => line.append(WILDCARD),
        }
        line.append(",");
        match &self.recipient {
            Some(recipient) => line.append(recipient.as_str()),
            None => line.append(WILDCARD),
        }
        line
    }
}

/// The subscription file for `subs`.
pub fn subscription_file(subs: &Vec<Triplet>) -> (text: String)
    ensures
        text@ == subscriptions_of(subs@),
{
    let mut text = String::new();
    let mut i: usize = 0;
    assert(subs@.take(0) =~= Seq::<Triplet>::empty());
    while i < subs.len()
        invariant
            i <= subs.len(),
            text@ == subscriptions_of(subs@.take(i as int)),
        decreases subs.len() - i,
    {
        proof {
            reveal_strlit("\n");
            let upto = subs@.take(i + 1);
            assert(upto.drop_last() =~= subs@.take(i as int));
            assert(upto.last() == subs@[i as int]);
        }
        let ghost before = text@;
        let line = subs[i].to_line();
        text.append(line.as_str());
        text.append("\n");
        assert(text@ =~= (before + line@).push('\n'));
        i += 1;
    }
    assert(subs@.take(subs.len() as int) =~= subs@);
    text
}

/// Whether the receiver runs.
#[derive(Clone, Copy, Debug, PartialEq, Eq, Structural)]
pub enum Phase {
    Stopped,
    Running,
}

/// One thing to do to the receiver or to its files.
#[derive(Clone, Copy, Debug, PartialEq, Eq, Structural)]
pub enum Step {
    /// Write the rules and the subscriptions to two scratch files.
    WriteFiles,
    /// Start the receiver on the two files.
    Spawn,
    /// Read one block and throw it away.
    DiscardBlock,
    /// Stop the receiver.
    Kill,
    /// Remove the two scratch files.
    RemoveFiles,
}

/// What stopping the receiver takes in `phase`: nothing where it is
/// stopped already.
pub open spec fn kill_steps(phase: Phase) -> Seq<Step> {
    match phase {
        Phase::Running => seq![Step::Kill],
        Phase::Stopped => Seq::empty(),
    }
}

/// The plain value of what a read gives once a block is complete.
pub open spec fn read_view(r: Option<Result<Notice, DecodeError>>) -> Option<
    Result<NoticeView, DecodeError>,
> {
    match r {
        Some(r) => Some(result_view(r)),
        None => None,
    }
}

/// The transport as the bot sees it: what it is subscribed to, whether the
/// receiver runs, and the bytes of the block that is coming in.
pub struct Zephyr {
    subs: Vec<Triplet>,
    phase: Phase,
    pending: Vec<u8>,
}

impl Zephyr {
    /// The triplets that the receiver is subscribed to.
    pub closed spec fn subscriptions(self) -> Vec<Triplet> {
        self.subs
    }

    /// Whether the receiver runs.
    pub closed spec fn phase(self) -> Phase {
        self.phase
    }

    /// The bytes that have come in of a block that is not complete yet.
    pub closed spec fn pending(self) -> Seq<u8> {
        self.pending@
    }

    /// Sets the transport up for `subs`: the files are written, the
    /// receiver is started, and its first block, which only tells that it
    /// is connected, is thrown away.
    pub fn new(subs: Vec<Triplet>) -> (plan: (Zephyr, Vec<Step>))
        ensures
            plan.0.subscriptions() == subs,
            plan.0.phase() == Phase::Running,
            plan.0.pending() == Seq::<u8>::empty(),
            plan.1@ == seq![Step::WriteFiles, Step::Spawn, Step::DiscardBlock],
    {
        let mut steps: Vec<Step> = Vec::new();
        steps.push(Step::WriteFiles);
        steps.push(Step::Spawn);
        steps.push(Step::DiscardBlock);
        (Zephyr { subs, phase: Phase::Running, pending: Vec::new() }, steps)
    }

    /// The triplets that the receiver is subscribed to.
    pub fn subs(&self) -> (subs: &Vec<Triplet>)
        ensures
            *subs == self.subscriptions(),
    {
        &self.subs
    }

    /// Whether the receiver runs.
    pub fn is_running(&self) -> (running: bool)
        ensures
            running == (self.phase() == Phase::Running),
    {
        match self.phase {
            Phase::Running => true,
            Phase::Stopped => false,
        }
    }

    /// The contents of the file that tells the receiver what to subscribe
    /// to.
    pub fn sub_file(&self) -> (text: String)
        ensures
            text@ == subscriptions_of(self.subscriptions()@),
    {
        subscription_file(&self.subs)
    }

    /// Stops the receiver, which takes nothing where it is stopped. What
    /// had come in of a block is dropped.
    pub fn kill(&mut self) -> (steps: Vec<Step>)
        ensures
            steps@ == kill_steps(old(self).phase()),
            final(self).phase() == Phase::Stopped,
            final(self).pending() == Seq::<u8>::empty(),
            final(self).subscriptions() == old(self).subscriptions(),
    {
        let mut steps: Vec<Step> = Vec::new();
        match self.phase {
            Phase::Running => {
                steps.push(Step::Kill);
            },
            Phase::Stopped => {},
        }
        self.phase = Phase::Stopped;
        self.pending = Vec::new();
        steps
    }

    /// Starts the receiver afresh on the same files: a running one is
    /// stopped first.
    pub fn restart(&mut self) -> (steps: Vec<Step>)
        ensures
            steps@ == kill_steps(old(self).phase()).push(Step::Spawn),
            final(self).phase() == Phase::Running,
            final(self).pending() == Seq::<u8>::empty(),
            final(self).subscriptions() == old(self).subscriptions(),
    {
        let mut steps = self.kill();
        steps.push(Step::Spawn);
        self.phase = Phase::Running;
        steps
    }

    /// Takes note that the receiver could not be started: it does not run,
    /// whatever was planned.
    pub fn spawn_failed(&mut self)
        ensures
            final(self).phase() == Phase::Stopped,
            final(self).pending() == Seq::<u8>::empty(),
            final(self).subscriptions() == old(self).subscriptions(),
    {
        self.phase = Phase::Stopped;
        self.pending = Vec::new();
    }

    /// Takes note that the receiver could not be stopped: it still runs,
    /// whatever was planned.
    pub fn kill_failed(&mut self)
        ensures
            final(self).phase() == Phase::Running,
            final(self).pending() == old(self).pending(),
            final(self).subscriptions() == old(self).subscriptions(),
    {
        self.phase = Phase::Running;
    }

    /// Gives the transport up: the receiver is stopped and the files are
    /// removed.
    pub fn close(&mut self) -> (steps: Vec<Step>)
        ensures
            steps@ == kill_steps(old(self).phase()).push(Step::RemoveFiles),
            final(self).phase() == Phase::Stopped,
            final(self).pending() == Seq::<u8>::empty(),
            final(self).subscriptions() == old(self).subscriptions(),
    {
        let mut steps = self.kill();
        steps.push(Step::RemoveFiles);
        steps
    }

    /// Takes in what one read from the receiver brought. A read that
    /// brought fewer than `CHUNK` bytes completes the block, which is
    /// handed out; until then there is nothing to hand out.
    pub fn read_raw(&mut self, chunk: &[u8]) -> (block: Option<Vec<u8>>)
        requires
            old(self).phase() == Phase::Running,
        ensures
            final(self).phase() == Phase::Running,
            final(self).subscriptions() == old(self).subscriptions(),
            chunk@.len() < CHUNK ==> {
                &&& block is Some
                &&& block->0@ == old(self).pending() + chunk@
                &&& final(self).pending() == Seq::<u8>::empty()
            },
            chunk@.len() >= CHUNK ==> {
                &&& block is None
                &&& final(self).pending() == old(self).pending() + chunk@
            },
    {
        let mut i: usize = 0;
        assert(self.pending@ + chunk@.take(0) =~= self.pending@);
        while i < chunk.len()
            invariant
                i <= chunk.len(),
                self.phase == old(self).phase,
                self.subs == old(self).subs,
                self.pending@ == old(self).pending@ + chunk@.take(i as int),
            decreases chunk.len() - i,
        {
            assert(chunk@.take(i + 1) =~= chunk@.take(i as int).push(chunk@[i as int]));
            self.pending.push(chunk[i]);
            i += 1;
        }
        assert(chunk@.take(chunk.len() as int) =~= chunk@);
        if chunk.len() < CHUNK {
            let mut block: Vec<u8> = Vec::new();
            std::mem::swap(&mut block, &mut self.pending);
            Some(block)
        } else {
            None
        }
    }

    /// Takes in what one read from the receiver brought and, once the block
    /// is complete, reads it as a notice.
    pub fn read(&mut self, chunk: &[u8]) -> (r: Option<Result<Notice, DecodeError>>)
        requires
            old(self).phase() == Phase::Running,
        ensures
            final(self).phase() == Phase::Running,
            final(self).subscriptions() == old(self).subscriptions(),
            chunk@.len() < CHUNK ==> {
                &&& read_view(r) == Some(decoded_bytes(old(self).pending() + chunk@))
                &&& final(self).pending() == Seq::<u8>::empty()
            },
            chunk@.len() >= CHUNK ==> {
                &&& r is None
                &&& final(self).pending() == old(self).pending() + chunk@
            },
    {
        match self.read_raw(chunk) {
            Some(block) => Some(decode_block(block.as_slice())),
            None => None,
        }
    }

    /// The arguments that the sender is run with to send `notice`.
    pub fn zwrite(&self, notice: &Notice) -> (arguments: Vec<String>)
        ensures
            views(arguments@) == sender_arguments_of(notice@),
    {
        sender_arguments(notice)
    }
}

} // verus!
