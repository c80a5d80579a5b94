//! The key exchange: requests for audio keys, tagged with sequence numbers,
//! and the responses that are routed back to whoever asked.
//!
//! Who asked waits on the receiving half of a one-shot channel; the engine
//! keeps the sending half under the tag of the request until the response
//! comes.

use crate::file_id::{first_differing_byte, FileId};
use crate::sequence::{lemma_numbers_distinct, nth_following, SeqGenerator, SeqNumber};
use crate::spotify_id::SpotifyId;
use crate::wire::{
    is_resolution, key_request, key_request_payload, read_response_tag, response_fits,
    response_tag, Packet, Resolution, KEY_REQUEST,
};
use futures::sync::oneshot::{channel, Canceled, Receiver, Sender};
use std::collections::HashMap;
use vstd::prelude::*;

verus! {

broadcast use vstd::std_specs::hash::group_hash_axioms;

/// A 128-bit key that decrypts a piece of content: 16 opaque bytes, equal
/// when all their bytes are.
#[derive(Debug, Hash, Eq, Copy, Clone)]
pub struct AudioKey(pub [u8; 16]);

impl PartialEq for AudioKey {
    fn eq(&self, other: &AudioKey) -> (r: bool) {
        first_differing_byte(self.0.as_slice(), other.0.as_slice()).is_none()
    }
}

impl vstd::std_specs::cmp::PartialEqSpecImpl for AudioKey {
    open spec fn obeys_eq_spec() -> bool {
        true
    }

    open spec fn eq_spec(&self, other: &AudioKey) -> bool {
        self.0@ == other.0@
    }
}

/// The one failure of a key request. It tells no reasons apart: the server
/// refused, or the request was dropped without an answer.
#[derive(Debug, Hash, PartialEq, Eq, Copy, Clone, Structural)]
pub struct AudioKeyError;

/// The engine as its callers see it: the tag that the next request gets, and
/// the tags of the requests that still wait for their response.
pub struct Exchange {
    pub next_tag: u32,
    pub pending: Set<u32>,
}

impl Exchange {
    /// The engine before its first request.
    pub open spec fn fresh() -> Exchange {
        Exchange { next_tag: 0, pending: Set::empty() }
    }

    /// The engine after one more request: the request waits under the next
    /// tag, and the tag after that one is next.
    pub open spec fn request(self) -> Exchange {
        Exchange {
            next_tag: self.next_tag.following(),
            pending: self.pending.insert(self.next_tag),
        }
    }

    /// The engine after a response for `tag`: no request waits under it.
    pub open spec fn dispatch(self, tag: u32) -> Exchange {
        Exchange { next_tag: self.next_tag, pending: self.pending.remove(tag) }
    }

    /// The engine after `k` more requests.
    pub open spec fn requests(self, k: nat) -> Exchange
        decreases k,
    {
        if k == 0 {
            self
        } else {
            self.requests((k - 1) as nat).request()
        }
    }

    /// The engine after `events`, in their order.
    pub open spec fn after(self, events: Seq<Event>) -> Exchange
        decreases events.len(),
    {
        if events.len() == 0 {
            self
        } else {
            let before = self.after(events.drop_last());
            match events.last() {
                Event::Request => before.request(),
                Event::Response(tag) => before.dispatch(tag),
            }
        }
    }

    /// A response for a tag under which nothing waits changes nothing.
    pub proof fn lemma_unknown_tag_ignored(self, tag: u32)
        requires
            !self.pending.contains(tag),
        ensures
            self.dispatch(tag) == self,
    {
        assert(self.pending.remove(tag) =~= self.pending);
    }

    /// A request is answered at most once: after a response for a tag, a
    /// second response for the same tag finds nothing and changes nothing.
    pub proof fn lemma_second_response_ignored(self, tag: u32)
        ensures
            !self.dispatch(tag).pending.contains(tag),
            self.dispatch(tag).dispatch(tag) == self.dispatch(tag),
    {
        self.dispatch(tag).lemma_unknown_tag_ignored(tag);
    }

    /// After `k` requests the next tag is `k` steps further on, and what
    /// waits is what waited before and the `k` requests.
    proof fn lemma_requests(self, k: nat, t: u32)
        ensures
            self.requests(k).next_tag == nth_following(self.next_tag, k),
            self.requests(k).pending.contains(t) <==> self.pending.contains(t) || exists|i: nat|
                i < k && #[trigger] self.requests(i).next_tag == t,
            self.pending.finite() ==> self.requests(k).pending.finite(),
        decreases k,
    {
        if k > 0 {
            let j = (k - 1) as nat;
            self.lemma_requests(j, t);
        }
    }

    /// As many requests in a row as there are tags, or fewer, get tags of
    /// which no two are the same, and after them one request waits under
    /// each of these tags. Where nothing waited before, the table then
    /// holds exactly these requests.
    pub proof fn lemma_requests_get_distinct_tags(self, k: nat)
        requires
            k <= 0x1_0000_0000,
        ensures
            forall|i: nat, j: nat|
                i < j < k ==> #[trigger] self.requests(i).next_tag != #[trigger] self.requests(
                    j,
                ).next_tag,
            forall|i: nat|
                i < k ==> self.requests(k).pending.contains(#[trigger] self.requests(i).next_tag),
            self.pending == Set::<u32>::empty() ==> self.requests(k).pending.len() == k,
        decreases k,
    {
        assert forall|i: nat, j: nat| i < j < k implies #[trigger] self.requests(i).next_tag
            != #[trigger] self.requests(j).next_tag by {
            self.lemma_requests(i, 0);
            self.lemma_requests(j, 0);
            lemma_numbers_distinct(self.next_tag, i, j);
        }
        assert forall|i: nat| i < k implies self.requests(k).pending.contains(
            #[trigger] self.requests(i).next_tag,
        ) by {
            self.lemma_requests(k, self.requests(i).next_tag);
        }
        if k > 0 && self.pending == Set::<u32>::empty() {
            let j = (k - 1) as nat;
            let before = self.requests(j);
            self.lemma_requests_get_distinct_tags(j);
            self.lemma_requests(j, before.next_tag);
        }
    }

    /// A request waits until a response for its tag comes: whatever else is
    /// requested or answered in between, and however much of it, the request
    /// stays in the table.
    pub proof fn lemma_unanswered_request_waits(self, tag: u32, events: Seq<Event>)
        requires
            self.pending.contains(tag),
            forall|i: int| 0 <= i < events.len() ==> events[i] != Event::Response(tag),
        ensures
            self.after(events).pending.contains(tag),
        decreases events.len(),
    {
        if events.len() > 0 {
            self.lemma_unanswered_request_waits(tag, events.drop_last());
        }
    }
}

/// What happens to the engine: a request is made, or the response for a tag
/// arrives.
pub enum Event {
    Request,
    Response(u32),
}

/// The waiting side of a key request: it resolves once, to the key or to a
/// failure, and is spent from then on.
#[verifier::reject_recursive_types(T)]
pub struct AudioKeyFuture<T> {
    receiver: Receiver<Result<T, AudioKeyError>>,
    spent: bool,
}

impl<T> AudioKeyFuture<T> {
    /// The receiving half of the channel on which the answer comes.
    pub closed spec fn receiver(self) -> Receiver<Result<T, AudioKeyError>> {
        self.receiver
    }

    /// The future has resolved: a call of `poll` has handed out the value or
    /// the failure.
    pub closed spec fn is_spent(self) -> bool {
        self.spent
    }

    /// What the requester sees for what its channel reports: the value that
    /// arrived, the failure that arrived, that nothing has arrived yet, or,
    /// where the sending half is gone without an answer, a failure like any
    /// other.
    pub open spec fn seen(received: Result<Option<Result<T, AudioKeyError>>, Canceled>) -> Result<
        Option<T>,
        AudioKeyError,
    > {
        match received {
            Ok(Some(Ok(value))) => Ok(Some(value)),
            Ok(Some(Err(e))) => Err(e),
            Ok(None) => Ok(None),
            Err(_) => Err(AudioKeyError),
        }
    }

    /// Turns what the channel reports into what the requester sees.
    pub fn outcome(received: Result<Option<Result<T, AudioKeyError>>, Canceled>) -> (res: Result<
        Option<T>,
        AudioKeyError,
    >)
        ensures
            res == Self::seen(received),
    {
        match received {
            Ok(Some(Ok(value))) => Ok(Some(value)),
            Ok(Some(Err(e))) => Err(e),
            Ok(None) => Ok(None),
            Err(_) => Err(AudioKeyError),
        }
    }

    /// Looks whether the request has been answered: `Ok(Some(..))` with the
    /// value once it is there, `Ok(None)` before, and `Err` where the request
    /// failed or was given up.
    ///
    /// The call does not wait and leaves no task to be woken, so it can be
    /// made from anywhere. The future resolves at most once: the first call
    /// that returns anything but `Ok(None)` spends it, and every call on a
    /// spent future fails without a look at the channel.
    pub fn poll(&mut self) -> (res: Result<Option<T>, AudioKeyError>)
        ensures
            old(self).is_spent() ==> res == Err::<Option<T>, AudioKeyError>(AudioKeyError)
                && final(self).is_spent(),
            !old(self).is_spent() ==> (final(self).is_spent() <==> !(res matches Ok(None))),
    {
        if self.spent {
            return Err(AudioKeyError);
        }
        let res = Self::outcome(self.receiver.try_recv());
        match &res {
            Ok(None) => {},
            _ => {
                self.spent = true;
            },
        }
        res
    }

    /// Gives up the wrapper and hands out the channel's receiving half, for a
    /// caller that waits for it as a future.
    pub fn into_receiver(self) -> (receiver: Receiver<Result<T, AudioKeyError>>)
        ensures
            receiver == self.receiver(),
    {
        self.receiver
    }
}

/// The sending sides of the requests that wait, by tag.
pub type Handles = Map<u32, Sender<Result<AudioKey, AudioKeyError>>>;

/// The key exchange engine: it tags each request with the next sequence
/// number, remembers under that tag who waits, and routes each response to
/// the one who waits under its tag.
///
/// The engine is not synchronised. Where several threads share it, its owner
/// serialises the calls.
pub struct AudioKeyManager {
    sequence: SeqGenerator<u32>,
    pending: HashMap<u32, Sender<Result<AudioKey, AudioKeyError>>>,
}

impl View for AudioKeyManager {
    type V = Exchange;

    open spec fn view(&self) -> Exchange {
        Exchange { next_tag: self.next_tag(), pending: self.handles().dom() }
    }
}

impl AudioKeyManager {
    /// The tag that the next request gets.
    pub closed spec fn next_tag(&self) -> u32 {
        self.sequence@
    }

    /// The sending sides of the requests that wait, by tag.
    pub closed spec fn handles(&self) -> Handles {
        self.pending@
    }

    /// An engine with no request waiting, whose first tag is zero.
    pub fn new() -> (manager: AudioKeyManager)
        ensures
            manager@ == Exchange::fresh(),
    {
        AudioKeyManager { sequence: SeqGenerator::new(0), pending: HashMap::new() }
    }

    /// Whether a request waits under `tag`.
    pub fn is_pending(&self, tag: u32) -> (waits: bool)
        ensures
            waits == self@.pending.contains(tag),
    {
        self.pending.contains_key(&tag)
    }

    /// Registers a request: takes the next tag, makes the channel on which
    /// the answer will come, and remembers its sending side under the tag.
    /// Whatever waited under the same tag before is given up.
    pub fn register(&mut self) -> (res: (u32, AudioKeyFuture<AudioKey>))
        ensures
            res.0 == old(self)@.next_tag,
            !res.1.is_spent(),
            final(self)@ == old(self)@.request(),
            final(self).handles().remove(res.0) == old(self).handles().remove(res.0),
    {
        let (tx, rx) = channel();
        let seq = self.sequence.get();
        self.pending.insert(seq, tx);
        (seq, AudioKeyFuture { receiver: rx, spent: false })
    }

    /// Issues a request for the key of `file` in `track`: registers it under
    /// the next tag and builds the frame to send. The frame is to be sent
    /// after this call, so that no response can come before the request is
    /// in the table.
    pub fn request(&mut self, track: SpotifyId, file: FileId) -> (res: (
        AudioKeyFuture<AudioKey>,
        Packet,
    ))
        ensures
            final(self)@ == old(self)@.request(),
            final(self).handles().remove(old(self)@.next_tag) == old(self).handles().remove(
                old(self)@.next_tag,
            ),
            !res.0.is_spent(),
            res.1.cmd == KEY_REQUEST,
            res.1.data@ == key_request_payload(file.0@, track@, old(self)@.next_tag),
    {
        let (seq, future) = self.register();
        (future, key_request(seq, track, file))
    }

    /// Routes a response to the request that it answers.
    ///
    /// The request that waits under the tag of the response leaves the table
    /// and is told what the response means: the key under opcode `0x0d`, a
    /// failure under `0x0e`, and nothing under any other opcode, which gives
    /// the request up. The result is what the response meant. Where no
    /// request waits under the tag, the response is ignored and the result
    /// is `None`.
    pub fn dispatch(&mut self, cmd: u8, data: Vec<u8>) -> (res: Option<Resolution>)
        requires
            data@.len() >= 4,
            old(self)@.pending.contains(response_tag(data@)) ==> response_fits(cmd, data@),
        ensures
            final(self)@ == old(self)@.dispatch(response_tag(data@)),
            final(self).handles() == old(self).handles().remove(response_tag(data@)),
            !old(self)@.pending.contains(response_tag(data@)) ==> final(self).handles() == old(
                self,
            ).handles() && final(self)@ == old(self)@,
            match res {
                Some(resolution) => old(self)@.pending.contains(response_tag(data@))
                    && is_resolution(cmd, data@, resolution),
                None => !old(self)@.pending.contains(response_tag(data@)),
            },
    {
        let seq = read_response_tag(data.as_slice());
        match self.claim(seq) {
            Some(sender) => {
                let resolution = Resolution::of_response(cmd, data.as_slice());
                let _ = resolve(sender, resolution);
                Some(resolution)
            },
            None => {
                proof {
                    old(self)@.lemma_unknown_tag_ignored(seq);
                }
                None
            },
        }
    }

    /// Takes out the sending side that waits under `tag`, if one does.
    pub fn claim(&mut self, tag: u32) -> (handle: Option<Sender<Result<AudioKey, AudioKeyError>>>)
        ensures
            final(self)@ == old(self)@.dispatch(tag),
            final(self).handles() == old(self).handles().remove(tag),
            match handle {
                Some(sender) => old(self).handles().contains_key(tag) && sender == old(
                    self,
                ).handles()[tag],
                None => !old(self)@.pending.contains(tag),
            },
    {
        self.pending.remove(&tag)
    }
}

/// What is left of an answer once the channel has said whether it took it:
/// nothing where it went through, and the answer itself where nobody waits
/// for it any more.
pub open spec fn left_of(sent: Result<(), Result<AudioKey, AudioKeyError>>) -> Option<
    Result<AudioKey, AudioKeyError>,
> {
    match sent {
        Ok(_) => None,
        Err(back) => Some(back),
    }
}

/// Reads from what the channel said of an answer what is left of it.
pub fn undelivered(sent: Result<(), Result<AudioKey, AudioKeyError>>) -> (left: Option<
    Result<AudioKey, AudioKeyError>,
>)
    ensures
        left == left_of(sent),
{
    match sent {
        Ok(_) => None,
        Err(back) => Some(back),
    }
}

/// Tells the requester behind `sender` what became of its request: the key,
/// the failure, or, by dropping the sender, nothing.
///
/// Where the requester has stopped waiting, the answer cannot be handed over
/// and comes back as the result. Otherwise the result is `None`.
pub fn resolve(sender: Sender<Result<AudioKey, AudioKeyError>>, resolution: Resolution) -> (left: Option<
    Result<AudioKey, AudioKeyError>,
>)
    ensures
        left matches Some(answer) ==> resolution.answer() == Some(answer),
{
    match resolution.to_answer() {
        Some(answer) => undelivered(sender.send(answer)),
        None => None,
    }
}

} // verus!
