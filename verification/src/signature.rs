//! Where the signature of a reply comes from.

use rand::Rng;
use vstd::prelude::*;
use vstd::string::*;

verus! {

/// Something that hands out a signature whenever a reply needs one.
trait Signer {
    /// Whether `sign` can be called at all.
    spec fn total(&self) -> bool;

    /// Whether `sign` may hand out `zsig`.
    spec fn signs(&self, zsig: Seq<char>) -> bool;

    /// A signature for one reply.
    fn sign(&self) -> (zsig: String)
        requires
            self.total(),
        ensures
            self.signs(zsig@),
    ;
}

impl<F: Fn() -> String> Signer for F {
    spec fn total(&self) -> bool {
        call_requires(*self, ())
    }

    spec fn signs(&self, zsig: Seq<char>) -> bool {
        exists|given: String| given@ == zsig && call_ensures(*self, (), given)
    }

    fn sign(&self) -> (zsig: String) {
        self()
    }
}

/// The ways in which a signature is found.
enum Source {
    Fixed(String),
    OneOf(Vec<String>),
    Computed(Box<dyn Signer>),
}

/// The source of the signatures that a bot puts on its replies.
pub struct Signature {
    source: Source,
}

/// `rand::Rng::choose` on the thread's generator `rand::thread_rng`: one
/// element of `values`, picked at random.
///
/// Trusted: nothing is returned for an empty list, and otherwise the result
/// is one of the list's elements, whichever the generator picks. The
/// generator needs the system's source of entropy.
#[verifier::external_body]
fn pick_one<'a>(values: &'a Vec<String>) -> (picked: Option<&'a String>)
    ensures
        values.len() == 0 ==> picked is None,
        values.len() > 0 ==> picked is Some && values@.contains(*picked->0),
{
    rand::thread_rng().choose(values.as_slice())
}

impl Signature {
    #[verifier::type_invariant]
    spec fn ready(self) -> bool {
        match self.source {
            Source::Fixed(_) => true,
            Source::OneOf(zsigs) => zsigs.len() > 0,
            Source::Computed(signer) => signer.total(),
        }
    }

    /// Whether `sign` may hand out `zsig`.
    pub closed spec fn signs(self, zsig: Seq<char>) -> bool {
        match self.source {
            Source::Fixed(fixed) => zsig == fixed@,
            Source::OneOf(zsigs) => exists|i: int| 0 <= i < zsigs.len() && zsigs[i]@ == zsig,
            Source::Computed(signer) => signer.signs(zsig),
        }
    }

    /// Always the same signature.
    pub fn fixed(zsig: &str) -> (signature: Signature)
        ensures
            forall|given: Seq<char>| signature.signs(given) <==> given == zsig@,
    {
        Signature { source: Source::Fixed(String::from_str(zsig)) }
    }

    /// One of `zsigs` each time, picked at random.
    pub fn one_of(zsigs: Vec<String>) -> (signature: Signature)
        requires
            zsigs.len() > 0,
        ensures
            forall|given: Seq<char>|
                signature.signs(given) <==> exists|i: int|
                    0 <= i < zsigs.len() && zsigs[i]@ == given,
    {
        Signature { source: Source::OneOf(zsigs) }
    }

    /// Whatever the closure `signer` hands out each time it is asked.
    pub fn computed<F>(signer: F) -> (signature: Signature) where F: Fn() -> String + 'static
        requires
            call_requires(signer, ()),
        ensures
            forall|given: Seq<char>|
                signature.signs(given) <==> exists|zsig: String|
                    zsig@ == given && call_ensures(signer, (), zsig),
    {
        assert(Signer::total(&signer));
        assert forall|given: Seq<char>| Signer::signs(&signer, given) <==> exists|zsig: String|
            zsig@ == given && call_ensures(signer, (), zsig) by {}
        Signature { source: Source::Computed(Box::new(signer)) }
    }

    /// A signature for one reply.
    pub fn sign(&self) -> (zsig: String)
        ensures
            self.signs(zsig@),
    {
        proof {
            use_type_invariant(self);
        }
        match &self.source {
            Source::Fixed(fixed) => fixed.clone(),
            Source::OneOf(zsigs) => match pick_one(zsigs) {
                Some(picked) => picked.clone(),
                None => String::new(),
            },
            Source::Computed(signer) => signer.sign(),
        }
    }
}

} // verus!
