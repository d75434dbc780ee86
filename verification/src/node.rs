use vstd::prelude::*;

use crate::store::CasError;
use crate::store::CasOutcome;
use crate::store::KvStore;
use crate::store::cas_outcome;
use crate::store::cas_result;
use crate::store::read_result;
use crate::value::Value;
use crate::value::ValueModel;

verus! {

/// A node address on the message bus.
pub type Id = String;

/// A message identifier.
pub type MsgId = u64;

/// The wire error code for a compare-and-swap on an absent key.
pub const KEY_MISSING_CODE: u64 = 20;

/// The wire error code for a compare-and-swap whose expected value does not
/// match the stored one.
pub const VALUE_MISMATCH_CODE: u64 = 22;

/// A workload request, as decoded from the bus: the caller-assigned request
/// identifier and the operation's operands.
pub enum Request {
    Read { msg_id: MsgId, key: Value },
    Write { msg_id: MsgId, key: Value, value: Value },
    Cas { msg_id: MsgId, key: Value, from: Value, to: Value },
}

/// A reply body: a success reply carrying its correlation identifier (and,
/// for read and compare-and-swap, a freshly assigned message identifier and
/// payload), or an error reply carrying a numeric code and text.
pub enum Reply {
    ReadOk { in_reply_to: MsgId, msg_id: MsgId, value: Value },
    WriteOk { in_reply_to: MsgId },
    CasOk { in_reply_to: MsgId, msg_id: MsgId },
    Error { in_reply_to: MsgId, code: u64, text: String },
}

/// An outbound message envelope: reply body plus source and destination
/// addressing.
pub struct OutboundMsg {
    pub src: Id,
    pub dest: Id,
    pub reply: Reply,
}

/// What the bus yields to the node loop: a decoded request with its sender,
/// the terminal closure signal, or a message of an unrecognized kind.
pub enum Event {
    Request { src: Id, request: Request },
    Closed,
    Unknown,
}

/// What one step of the node decides: send a reply, halt cleanly (the bus
/// closed), or abort on a protocol violation.
pub enum Step {
    Reply(OutboundMsg),
    Halt,
    Abort,
}

/// Model of a request.
pub enum RequestModel {
    Read { msg_id: MsgId, key: ValueModel },
    Write { msg_id: MsgId, key: ValueModel, value: ValueModel },
    Cas { msg_id: MsgId, key: ValueModel, from: ValueModel, to: ValueModel },
}

/// Model of a reply body.
pub enum ReplyModel {
    ReadOk { in_reply_to: MsgId, msg_id: MsgId, value: ValueModel },
    WriteOk { in_reply_to: MsgId },
    CasOk { in_reply_to: MsgId, msg_id: MsgId },
    Error { in_reply_to: MsgId, code: u64, text: Seq<char> },
}

/// Model of an outbound envelope.
pub struct MsgModel {
    pub src: Seq<char>,
    pub dest: Seq<char>,
    pub reply: ReplyModel,
}

/// Model of an inbound event.
pub enum EventModel {
    Request { src: Seq<char>, request: RequestModel },
    Closed,
    Unknown,
}

/// Model of a step's decision.
pub enum StepModel {
    Send(MsgModel),
    Halt,
    Abort,
}

/// Model of the node: its address, the next message identifier it will
/// assign, and the store contents.
pub struct NodeModel {
    pub id: Seq<char>,
    pub next_msg_id: MsgId,
    pub store: Map<ValueModel, ValueModel>,
}

impl View for Request {
    type V = RequestModel;

    open spec fn view(&self) -> RequestModel {
        match self {
            Request::Read { msg_id, key } => RequestModel::Read { msg_id: *msg_id, key: key@ },
            Request::Write { msg_id, key, value } => RequestModel::Write {
                msg_id: *msg_id,
                key: key@,
                value: value@,
            },
            Request::Cas { msg_id, key, from, to } => RequestModel::Cas {
                msg_id: *msg_id,
                key: key@,
                from: from@,
                to: to@,
            },
        }
    }
}

impl View for Reply {
    type V = ReplyModel;

    open spec fn view(&self) -> ReplyModel {
        match self {
            Reply::ReadOk { in_reply_to, msg_id, value } => ReplyModel::ReadOk {
                in_reply_to: *in_reply_to,
                msg_id: *msg_id,
                value: value@,
            },
            Reply::WriteOk { in_reply_to } => ReplyModel::WriteOk { in_reply_to: *in_reply_to },
            Reply::CasOk { in_reply_to, msg_id } => ReplyModel::CasOk {
                in_reply_to: *in_reply_to,
                msg_id: *msg_id,
            },
            Reply::Error { in_reply_to, code, text } => ReplyModel::Error {
                in_reply_to: *in_reply_to,
                code: *code,
                text: text@,
            },
        }
    }
}

impl View for OutboundMsg {
    type V = MsgModel;

    open spec fn view(&self) -> MsgModel {
        MsgModel { src: self.src@, dest: self.dest@, reply: self.reply@ }
    }
}

impl View for Event {
    type V = EventModel;

    open spec fn view(&self) -> EventModel {
        match self {
            Event::Request { src, request } => EventModel::Request {
                src: src@,
                request: request@,
            },
            Event::Closed => EventModel::Closed,
            Event::Unknown => EventModel::Unknown,
        }
    }
}

impl View for Step {
    type V = StepModel;

    open spec fn view(&self) -> StepModel {
        match self {
            Step::Reply(m) => StepModel::Send(m@),
            Step::Halt => StepModel::Halt,
            Step::Abort => StepModel::Abort,
        }
    }
}

/// The caller-assigned identifier a request carries.
pub open spec fn request_msg_id(r: RequestModel) -> MsgId {
    match r {
        RequestModel::Read { msg_id, .. } => msg_id,
        RequestModel::Write { msg_id, .. } => msg_id,
        RequestModel::Cas { msg_id, .. } => msg_id,
    }
}

/// The correlation identifier a reply carries.
pub open spec fn reply_in_reply_to(r: ReplyModel) -> MsgId {
    match r {
        ReplyModel::ReadOk { in_reply_to, .. } => in_reply_to,
        ReplyModel::WriteOk { in_reply_to } => in_reply_to,
        ReplyModel::CasOk { in_reply_to, .. } => in_reply_to,
        ReplyModel::Error { in_reply_to, .. } => in_reply_to,
    }
}

/// The freshly assigned message identifier a reply carries, if it carries
/// one: reads and applied compare-and-swaps do, acknowledged writes and
/// error replies do not.
pub open spec fn reply_fresh_id(r: ReplyModel) -> Option<MsgId> {
    match r {
        ReplyModel::ReadOk { msg_id, .. } => Some(msg_id),
        ReplyModel::CasOk { msg_id, .. } => Some(msg_id),
        ReplyModel::WriteOk { .. } => None,
        ReplyModel::Error { .. } => None,
    }
}

/// The node's transition function: what one inbound event does to the node
/// and what the node sends back. Closure halts the node cleanly; an
/// unrecognized message aborts it; each request yields exactly one reply,
/// correlated through its `in_reply_to` field. A read resolves absent keys
/// to the null sentinel; a write stores unconditionally; a compare-and-swap
/// applies exactly when the key holds the expected value and otherwise
/// reports which precondition failed.
pub open spec fn node_step(n: NodeModel, e: EventModel) -> (NodeModel, StepModel) {
    match e {
        EventModel::Closed => (n, StepModel::Halt),
        EventModel::Unknown => (n, StepModel::Abort),
        EventModel::Request { src, request } => match request {
            RequestModel::Read { msg_id, key } => (
                NodeModel { next_msg_id: (n.next_msg_id + 1) as u64, ..n },
                StepModel::Send(
                    MsgModel {
                        src: n.id,
                        dest: src,
                        reply: ReplyModel::ReadOk {
                            in_reply_to: msg_id,
                            msg_id: n.next_msg_id,
                            value: read_result(n.store, key),
                        },
                    },
                ),
            ),
            RequestModel::Write { msg_id, key, value } => (
                NodeModel { store: n.store.insert(key, value), ..n },
                StepModel::Send(
                    MsgModel {
                        src: n.id,
                        dest: src,
                        reply: ReplyModel::WriteOk { in_reply_to: msg_id },
                    },
                ),
            ),
            RequestModel::Cas { msg_id, key, from, to } => (
                NodeModel {
                    store: cas_result(n.store, key, from, to),
                    next_msg_id: if cas_outcome(n.store, key, from) is Applied {
                        (n.next_msg_id + 1) as u64
                    } else {
                        n.next_msg_id
                    },
                    ..n
                },
                StepModel::Send(
                    MsgModel {
                        src: n.id,
                        dest: src,
                        reply: match cas_outcome(n.store, key, from) {
                            CasOutcome::Applied => ReplyModel::CasOk {
                                in_reply_to: msg_id,
                                msg_id: n.next_msg_id,
                            },
                            CasOutcome::KeyMissing => ReplyModel::Error {
                                in_reply_to: msg_id,
                                code: KEY_MISSING_CODE,
                                text: "Key does not exist"@,
                            },
                            CasOutcome::ValueMismatch => ReplyModel::Error {
                                in_reply_to: msg_id,
                                code: VALUE_MISMATCH_CODE,
                                text: "Value does not match"@,
                            },
                        },
                    },
                ),
            ),
        },
    }
}

/// The single node: its bus address, the next message identifier it will
/// assign, and the key-value store it exclusively owns. The surrounding
/// runtime hands the arguments, addresses and starting identifier over once,
/// then drives the node one inbound event at a time through `step`.
pub struct SimpleKVServer {
    args: Vec<String>,
    id: Id,
    ids: Vec<Id>,
    msg_id: u64,
    store: KvStore,
}

impl View for SimpleKVServer {
    type V = NodeModel;

    closed spec fn view(&self) -> NodeModel {
        NodeModel { id: self.id@, next_msg_id: self.msg_id, store: self.store@ }
    }
}

impl SimpleKVServer {
    /// Internal well-formedness of the node's store.
    pub closed spec fn wf(self) -> bool {
        self.store.wf()
    }

    /// A fresh node with an empty store, no address and identifier zero.
    pub fn new() -> (s: SimpleKVServer)
        ensures
            s.wf(),
            s@.store == Map::<ValueModel, ValueModel>::empty(),
            s@.next_msg_id == 0,
            s@.id == Seq::<char>::empty(),
    {
        SimpleKVServer {
            args: Vec::new(),
            id: String::new(),
            ids: Vec::new(),
            msg_id: 0,
            store: KvStore::new(),
        }
    }

    /// Take over the identity the runtime assigns at startup: the process
    /// arguments, this node's address, the peer addresses, and the starting
    /// message identifier. The store is untouched.
    pub fn init(&mut self, args: Vec<String>, id: Id, ids: Vec<Id>, start_msg_id: MsgId)
        requires
            old(self).wf(),
        ensures
            final(self).wf(),
            final(self)@.id == id@,
            final(self)@.next_msg_id == start_msg_id,
            final(self)@.store == old(self)@.store,
    {
        self.args = args;
        self.id = id;
        self.ids = ids;
        self.msg_id = start_msg_id;
    }

    /// Assign the next outbound message identifier: returns the current one
    /// and advances the counter, so every later identifier is strictly
    /// greater.
    fn next_msg_id(&mut self) -> (id: MsgId)
        requires
            old(self)@.next_msg_id < u64::MAX,
        ensures
            id == old(self)@.next_msg_id,
            final(self)@ == (NodeModel { next_msg_id: (old(self)@.next_msg_id + 1) as u64, ..old(self)@ }),
            final(self).wf() == old(self).wf(),
    {
        let id = self.msg_id;
        self.msg_id = self.msg_id + 1;
        id
    }

    /// The identifier the node will assign to its next read or
    /// compare-and-swap acknowledgement.
    pub fn current_msg_id(&self) -> (id: MsgId)
        ensures
            id == self@.next_msg_id,
    {
        self.msg_id
    }

    /// Wrap a reply body in an outbound envelope: from this node, to `dest`.
    pub fn reply(&self, dest: Id, body: Reply) -> (m: OutboundMsg)
        ensures
            m@ == (MsgModel { src: self@.id, dest: dest@, reply: body@ }),
    {
        OutboundMsg { src: self.id.clone(), dest, reply: body }
    }

    /// Wrap an error reply in an outbound envelope: from this node, to
    /// `dest`, correlated to `in_reply_to`.
    pub fn reply_error(&self, dest: Id, in_reply_to: MsgId, code: u64, text: String) -> (m:
        OutboundMsg)
        ensures
            m@ == (MsgModel {
                src: self@.id,
                dest: dest@,
                reply: ReplyModel::Error { in_reply_to, code, text: text@ },
            }),
    {
        self.reply(dest, Reply::Error { in_reply_to, code, text })
    }

    /// Serve a read: resolve the key against the store (the null sentinel
    /// when absent), assign a message identifier, and address the reply to
    /// the requester. The store is not changed.
    pub fn handle_read(&mut self, msg_id: MsgId, key: Value, src: Id) -> (m: OutboundMsg)
        requires
            old(self).wf(),
            old(self)@.next_msg_id < u64::MAX,
        ensures
            final(self).wf(),
            final(self)@ == (NodeModel {
                next_msg_id: (old(self)@.next_msg_id + 1) as u64,
                ..old(self)@
            }),
            m@ == (MsgModel {
                src: old(self)@.id,
                dest: src@,
                reply: ReplyModel::ReadOk {
                    in_reply_to: msg_id,
                    msg_id: old(self)@.next_msg_id,
                    value: read_result(old(self)@.store, key@),
                },
            }),
    {
        let value: Value = match self.store.get(&key) {
            Some(v) => v.duplicate(),
            None => Value::Null,
        };
        let fresh = self.next_msg_id();
        self.reply(src, Reply::ReadOk { in_reply_to: msg_id, msg_id: fresh, value })
    }

    /// Serve a write: store the value unconditionally, overwriting any
    /// existing entry, and acknowledge. The acknowledgement carries no fresh
    /// message identifier, so the counter is untouched.
    pub fn handle_write(&mut self, msg_id: MsgId, key: Value, value: Value, src: Id) -> (m:
        OutboundMsg)
        requires
            old(self).wf(),
        ensures
            final(self).wf(),
            final(self)@ == (NodeModel {
                store: old(self)@.store.insert(key@, value@),
                ..old(self)@
            }),
            m@ == (MsgModel {
                src: old(self)@.id,
                dest: src@,
                reply: ReplyModel::WriteOk { in_reply_to: msg_id },
            }),
    {
        self.store.insert(key, value);
        self.reply(src, Reply::WriteOk { in_reply_to: msg_id })
    }

    /// Serve a compare-and-swap: apply it exactly when the key currently
    /// holds `from`, acknowledging with a fresh message identifier; on an
    /// absent key answer the key-missing error code, on a mismatched value
    /// the value-mismatch error code, leaving the store unchanged either
    /// way.
    pub fn handle_cas(&mut self, msg_id: MsgId, key: Value, from: Value, to: Value, src: Id) -> (m:
        OutboundMsg)
        requires
            old(self).wf(),
            old(self)@.next_msg_id < u64::MAX,
        ensures
            final(self).wf(),
            final(self)@ == (NodeModel {
                store: cas_result(old(self)@.store, key@, from@, to@),
                next_msg_id: if cas_outcome(old(self)@.store, key@, from@) is Applied {
                    (old(self)@.next_msg_id + 1) as u64
                } else {
                    old(self)@.next_msg_id
                },
                ..old(self)@
            }),
            m@ == (MsgModel {
                src: old(self)@.id,
                dest: src@,
                reply: match cas_outcome(old(self)@.store, key@, from@) {
                    CasOutcome::Applied => ReplyModel::CasOk {
                        in_reply_to: msg_id,
                        msg_id: old(self)@.next_msg_id,
                    },
                    CasOutcome::KeyMissing => ReplyModel::Error {
                        in_reply_to: msg_id,
                        code: KEY_MISSING_CODE,
                        text: "Key does not exist"@,
                    },
                    CasOutcome::ValueMismatch => ReplyModel::Error {
                        in_reply_to: msg_id,
                        code: VALUE_MISMATCH_CODE,
                        text: "Value does not match"@,
                    },
                },
            }),
    {
        match self.store.compare_and_swap(&key, &from, to) {
            Ok(()) => {
                let fresh = self.next_msg_id();
                self.reply(src, Reply::CasOk { in_reply_to: msg_id, msg_id: fresh })
            },
            Err(CasError::KeyNotFound) => self.reply_error(
                src,
                msg_id,
                KEY_MISSING_CODE,
                "Key does not exist".to_owned(),
            ),
            Err(CasError::PreconditionFailed) => self.reply_error(
                src,
                msg_id,
                VALUE_MISMATCH_CODE,
                "Value does not match".to_owned(),
            ),
        }
    }

    /// Run one step of the node loop: dispatch a request to its handler,
    /// halt cleanly on bus closure, abort on an unrecognized message. The
    /// node and the decision are exactly what `node_step` says of the models.
    pub fn step(&mut self, event: Event) -> (s: Step)
        requires
            old(self).wf(),
            old(self)@.next_msg_id < u64::MAX,
        ensures
            final(self).wf(),
            final(self)@ == node_step(old(self)@, event@).0,
            s@ == node_step(old(self)@, event@).1,
    {
        match event {
            Event::Request { src, request } => match request {
                Request::Read { msg_id, key } => Step::Reply(self.handle_read(msg_id, key, src)),
                Request::Write { msg_id, key, value } => Step::Reply(
                    self.handle_write(msg_id, key, value, src),
                ),
                Request::Cas { msg_id, key, from, to } => Step::Reply(
                    self.handle_cas(msg_id, key, from, to, src),
                ),
            },
            Event::Closed => Step::Halt,
            Event::Unknown => Step::Abort,
        }
    }
}

} // verus!
