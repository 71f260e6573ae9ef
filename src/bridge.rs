use vstd::prelude::*;
use serde_json::Value;
use tokio::sync::mpsc::UnboundedSender;
use tokio::sync::oneshot::Sender;

use crate::registry::{id_view, route, PendingRegistry};
use crate::wire::{
    fresh_request_id, frame_request_id, is_json_text, parse_inbound, request_frame, value_text,
};

verus! {

#[verifier::external_type_specification]
#[verifier::external_body]
#[verifier::reject_recursive_types(T)]
pub struct ExUnboundedSender<T>(tokio::sync::mpsc::UnboundedSender<T>);

#[verifier::external_type_specification]
#[verifier::external_body]
#[verifier::reject_recursive_types(T)]
pub struct ExOneshotSender<T>(tokio::sync::oneshot::Sender<T>);

/// The single-use slot through which a reply reaches its caller.
pub type ReplySlot = Sender<Value>;

/// How long a caller waits for its reply, in seconds.
pub const REPLY_TIMEOUT_SECS: u64 = 30;

/// Failures that a request can end in.
#[derive(Debug, PartialEq, Eq, Structural)]
pub enum BridgeError {
    /// No connection is installed.
    NotConnected,
    /// The frame could not be queued, or the reply slot was dropped.
    ChannelClosed,
    /// No reply came within the bound.
    Timeout,
}

/// How a caller's wait for its reply ended.
pub enum WaitOutcome {
    /// The reply arrived: the whole inbound message.
    Replied(Value),
    /// The slot was dropped without a reply.
    SlotClosed,
    /// The bound passed first.
    Elapsed,
}

/// Relies on tokio's `UnboundedSender::send`: queues the frame, or fails once
/// the receiving side is gone.
#[verifier::external_body]
fn enqueue(tx: &UnboundedSender<String>, frame: String) -> (r: bool) {
    tx.send(frame).is_ok()
}

/// Relies on tokio's `oneshot::Sender::send`: hands the message to the waiting
/// receiver, if it is still there.
#[verifier::external_body]
fn deliver(slot: ReplySlot, message: Value) {
    let _ = slot.send(message);
}

/// Shared state of the bridge: the outbound queue of the installed
/// connection, whether one is installed, and the live requests.
pub struct ExtensionBridge {
    sender: Option<UnboundedSender<String>>,
    pending: PendingRegistry<ReplySlot>,
    connected: bool,
}

impl ExtensionBridge {
    /// The outbound queue of the installed connection.
    pub closed spec fn outbound(&self) -> Option<UnboundedSender<String>> {
        self.sender
    }

    /// Whether a connection is installed.
    pub closed spec fn live(&self) -> bool {
        self.connected
    }

    /// The live requests and their slots.
    pub closed spec fn requests(&self) -> Map<Seq<char>, ReplySlot> {
        self.pending@
    }

    /// The connected flag follows the installed queue, and the registry is
    /// well formed.
    pub closed spec fn wf(&self) -> bool {
        &&& self.pending.wf()
        &&& self.connected == self.sender.is_some()
    }

    /// A bridge with no connection and no live request.
    pub fn new() -> (r: Self)
        ensures
            r.wf(),
            !r.live(),
            r.outbound() is None,
            r.requests() == Map::<Seq<char>, ReplySlot>::empty(),
    {
        ExtensionBridge { sender: None, pending: PendingRegistry::new(), connected: false }
    }

    /// Whether a connection is installed.
    pub fn is_connected(&self) -> (r: bool)
        ensures
            r == self.live(),
            self.wf() ==> r == (self.outbound() is Some),
    {
        self.connected
    }

    /// The number of live requests.
    pub fn pending_count(&self) -> (r: usize)
        requires
            self.wf(),
        ensures
            r == self.requests().len(),
    {
        self.pending.len()
    }

    /// Whether `request_id` is live.
    pub fn is_pending(&self, request_id: &String) -> (r: bool)
        requires
            self.wf(),
        ensures
            r == self.requests().contains_key(request_id@),
    {
        self.pending.contains(request_id)
    }

    /// Installs the outbound queue of a newly accepted connection. Whatever
    /// queue was installed before is replaced: the last accepted wins. Live
    /// requests are untouched.
    pub fn install_connection(&mut self, tx: UnboundedSender<String>)
        requires
            old(self).wf(),
        ensures
            final(self).wf(),
            final(self).live(),
            final(self).outbound() == Some(tx),
            final(self).requests() == old(self).requests(),
    {
        self.sender = Some(tx);
        self.connected = true;
    }

    /// Clears the installed connection when it ends. Live requests are not
    /// failed: each still waits for its own bound.
    pub fn clear_connection(&mut self)
        requires
            old(self).wf(),
        ensures
            final(self).wf(),
            !final(self).live(),
            final(self).outbound() is None,
            final(self).requests() == old(self).requests(),
    {
        self.sender = None;
        self.connected = false;
    }

    /// Starts a request under the given identifier: registers `slot` and
    /// queues the request frame on the installed connection. With no
    /// connection it fails with `NotConnected` and changes nothing; when the
    /// frame cannot be queued it fails with `ChannelClosed` and the
    /// identifier is no longer live.
    pub fn open_request_with_id(
        &mut self,
        request_id: String,
        msg_type: &str,
        payload: &Value,
        slot: ReplySlot,
    ) -> (r: Result<(), BridgeError>)
        requires
            old(self).wf(),
            old(self).requests().len() < usize::MAX,
        ensures
            final(self).wf(),
            final(self).outbound() == old(self).outbound(),
            final(self).live() == old(self).live(),
            (r == Err::<(), BridgeError>(BridgeError::NotConnected)) <==> old(self).outbound() is None,
            r == Err::<(), BridgeError>(BridgeError::NotConnected) ==> final(self).requests() == old(
                self,
            ).requests(),
            r is Ok ==> final(self).requests() == old(self).requests().insert(request_id@, slot),
            r == Err::<(), BridgeError>(BridgeError::ChannelClosed) ==> final(self).requests()
                == old(self).requests().remove(request_id@),
            r != Err::<(), BridgeError>(BridgeError::Timeout),
    {
        match &self.sender {
            None => Err(BridgeError::NotConnected),
            Some(tx) => {
                let text = value_text(payload);
                let frame = request_frame(msg_type, request_id.as_str(), text.as_str());
                let key = request_id.clone();
                self.pending.insert(request_id, slot);
                if enqueue(tx, frame) {
                    Ok(())
                } else {
                    self.pending.remove(&key);
                    assert(self.pending@ =~= old(self).requests().remove(key@));
                    Err(BridgeError::ChannelClosed)
                }
            },
        }
    }

    /// Starts a request under a fresh identifier, which it returns; the
    /// identifier was not live before. It is a random one, extended by `-`
    /// characters in the unlikely case that it is already live. With no
    /// connection it fails with `NotConnected`; it fails with `ChannelClosed`
    /// when the frame cannot be queued or the registry is full. Every failure
    /// leaves the registry as it was.
    pub fn open_request(&mut self, msg_type: &str, payload: &Value, slot: ReplySlot) -> (r: Result<
        String,
        BridgeError,
    >)
        requires
            old(self).wf(),
        ensures
            final(self).wf(),
            final(self).outbound() == old(self).outbound(),
            final(self).live() == old(self).live(),
            (r == Err::<String, BridgeError>(BridgeError::NotConnected)) <==> old(self).outbound() is None,
            r is Err ==> final(self).requests() == old(self).requests(),
            forall|id: String|
                r == Ok::<String, BridgeError>(id) ==> id@.len() >= 36 && !old(
                    self,
                ).requests().contains_key(id@) && final(self).requests() == old(
                    self,
                ).requests().insert(id@, slot),
            r != Err::<String, BridgeError>(BridgeError::Timeout),
    {
        if self.sender.is_none() {
            return Err(BridgeError::NotConnected);
        }
        if self.pending.len() == usize::MAX {
            return Err(BridgeError::ChannelClosed);
        }
        let mut request_id = fresh_request_id();
        let ghost mut tried: Set<Seq<char>> = Set::empty();
        let mut extra: usize = 0;
        proof {
            self.pending.lemma_finite();
            reveal_strlit("-");
        }
        while self.pending.contains(&request_id)
            invariant
                self.wf(),
                self.sender is Some,
                self.pending@ == old(self).requests(),
                self.sender == old(self).outbound(),
                self.connected == old(self).live(),
                self.pending@.dom().finite(),
                self.pending@.dom().len() == self.pending@.len(),
                self.pending@.len() < usize::MAX,
                request_id@.len() == 36 + extra,
                tried.finite(),
                tried.len() == extra,
                tried.subset_of(self.pending@.dom()),
                forall|t: Seq<char>| #[trigger] tried.contains(t) ==> t.len() < 36 + extra,
                extra <= self.pending@.len(),
            decreases self.pending@.len() - extra,
        {
            proof {
                reveal_strlit("-");
                assert(!tried.contains(request_id@));
                tried = tried.insert(request_id@);
                vstd::set_lib::lemma_len_subset(tried, self.pending@.dom());
            }
            request_id.append("-");
            extra = extra + 1;
        }
        let key = request_id.clone();
        match self.open_request_with_id(request_id, msg_type, payload, slot) {
            Ok(()) => Ok(key),
            Err(e) => {
                assert(old(self).requests().remove(key@) =~= old(self).requests());
                Err(e)
            },
        }
    }

    /// Ends a request once its wait is over: the identifier is no longer live
    /// (an absent one is no error), and the outcome becomes the result.
    pub fn finish_request(&mut self, request_id: &String, outcome: WaitOutcome) -> (r: Result<
        Value,
        BridgeError,
    >)
        requires
            old(self).wf(),
        ensures
            final(self).wf(),
            final(self).outbound() == old(self).outbound(),
            final(self).live() == old(self).live(),
            final(self).requests() == old(self).requests().remove(request_id@),
            r == match outcome {
                WaitOutcome::Replied(v) => Ok(v),
                WaitOutcome::SlotClosed => Err(BridgeError::ChannelClosed),
                WaitOutcome::Elapsed => Err(BridgeError::Timeout),
            },
    {
        self.pending.remove(request_id);
        match outcome {
            WaitOutcome::Replied(v) => Ok(v),
            WaitOutcome::SlotClosed => Err(BridgeError::ChannelClosed),
            WaitOutcome::Elapsed => Err(BridgeError::Timeout),
        }
    }

    /// Routes a reply by its identifier: a live one is removed and its slot
    /// handed back; an absent or unknown one changes nothing.
    pub fn route_reply(&mut self, request_id: &Option<String>) -> (r: Option<ReplySlot>)
        requires
            old(self).wf(),
        ensures
            final(self).wf(),
            final(self).outbound() == old(self).outbound(),
            final(self).live() == old(self).live(),
            (final(self).requests(), r) == route(old(self).requests(), id_view(*request_id)),
    {
        match request_id {
            Some(id) => self.pending.take(id),
            None => {
                None
            },
        }
    }

    /// Routes one inbound text frame: text that is not JSON changes nothing;
    /// otherwise the frame is routed by its `requestId`, and when that is
    /// live its entry is removed and its slot handed back with the whole
    /// parsed message.
    pub fn route_frame(&mut self, text: &str) -> (r: Option<(ReplySlot, Value)>)
        requires
            old(self).wf(),
        ensures
            final(self).wf(),
            final(self).outbound() == old(self).outbound(),
            final(self).live() == old(self).live(),
            !is_json_text(text@) ==> final(self).requests() == old(self).requests() && r is None,
            is_json_text(text@) ==> final(self).requests() == route(
                old(self).requests(),
                frame_request_id(text@),
            ).0,
            is_json_text(text@) ==> (match r {
                Some((slot, _)) => Some(slot),
                None => None,
            }) == route(old(self).requests(), frame_request_id(text@)).1,
    {
        match parse_inbound(text, "requestId") {
            None => None,
            Some((message, request_id)) => {
                match self.route_reply(&request_id) {
                    Some(slot) => Some((slot, message)),
                    None => None,
                }
            },
        }
    }

    /// Handles one inbound text frame: text that is not JSON is dropped and
    /// changes nothing; otherwise the message is routed by its `requestId`
    /// and, when that is live, delivered whole to the waiting caller.
    pub fn dispatch_frame(&mut self, text: &str)
        requires
            old(self).wf(),
        ensures
            final(self).wf(),
            final(self).outbound() == old(self).outbound(),
            final(self).live() == old(self).live(),
            !is_json_text(text@) ==> final(self).requests() == old(self).requests(),
            is_json_text(text@) ==> final(self).requests() == route(
                old(self).requests(),
                frame_request_id(text@),
            ).0,
    {
        match self.route_frame(text) {
            Some((slot, message)) => deliver(slot, message),
            None => {},
        }
    }
}

} // verus!
