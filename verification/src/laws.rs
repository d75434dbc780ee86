use vstd::prelude::*;

use crate::node::EventModel;
use crate::node::KEY_MISSING_CODE;
use crate::node::MsgId;
use crate::node::MsgModel;
use crate::node::NodeModel;
use crate::node::ReplyModel;
use crate::node::RequestModel;
use crate::node::StepModel;
use crate::node::VALUE_MISMATCH_CODE;
use crate::node::node_step;
use crate::node::reply_fresh_id;
use crate::node::reply_in_reply_to;
use crate::node::request_msg_id;
use crate::value::ValueModel;

verus! {

/// A read of a key never written is answered successfully with the null
/// sentinel, not with an error, and changes neither the store nor any other
/// key.
pub proof fn lemma_read_absent_is_null(
    n: NodeModel,
    src: Seq<char>,
    msg_id: MsgId,
    key: ValueModel,
)
    requires
        !n.store.contains_key(key),
    ensures
        ({
            let (n2, out) = node_step(
                n,
                EventModel::Request { src, request: RequestModel::Read { msg_id, key } },
            );
            &&& n2.store == n.store
            &&& out == StepModel::Send(
                MsgModel {
                    src: n.id,
                    dest: src,
                    reply: ReplyModel::ReadOk {
                        in_reply_to: msg_id,
                        msg_id: n.next_msg_id,
                        value: ValueModel::Null,
                    },
                },
            )
        }),
{
}

/// Writing a value and then reading the same key back yields exactly that
/// value.
pub proof fn lemma_write_then_read(
    n: NodeModel,
    src1: Seq<char>,
    src2: Seq<char>,
    id1: MsgId,
    id2: MsgId,
    key: ValueModel,
    value: ValueModel,
)
    ensures
        ({
            let (n1, out1) = node_step(
                n,
                EventModel::Request { src: src1, request: RequestModel::Write { msg_id: id1, key, value } },
            );
            let (n2, out2) = node_step(
                n1,
                EventModel::Request { src: src2, request: RequestModel::Read { msg_id: id2, key } },
            );
            &&& out1 == StepModel::Send(
                MsgModel {
                    src: n.id,
                    dest: src1,
                    reply: ReplyModel::WriteOk { in_reply_to: id1 },
                },
            )
            &&& out2 == StepModel::Send(
                MsgModel {
                    src: n.id,
                    dest: src2,
                    reply: ReplyModel::ReadOk {
                        in_reply_to: id2,
                        msg_id: n1.next_msg_id,
                        value,
                    },
                },
            )
        }),
{
}

/// A compare-and-swap on an absent key is answered with the key-missing
/// error code, whatever the supplied expected and new values, and the node
/// is left exactly as it was.
pub proof fn lemma_cas_absent_is_key_missing(
    n: NodeModel,
    src: Seq<char>,
    msg_id: MsgId,
    key: ValueModel,
    from: ValueModel,
    to: ValueModel,
)
    requires
        !n.store.contains_key(key),
    ensures
        ({
            let (n2, out) = node_step(
                n,
                EventModel::Request { src, request: RequestModel::Cas { msg_id, key, from, to } },
            );
            &&& n2 == n
            &&& out == StepModel::Send(
                MsgModel {
                    src: n.id,
                    dest: src,
                    reply: ReplyModel::Error {
                        in_reply_to: msg_id,
                        code: KEY_MISSING_CODE,
                        text: "Key does not exist"@,
                    },
                },
            )
        }),
{
}

/// A compare-and-swap on a present key whose expected value does not match
/// the stored one is answered with the value-mismatch error code, and the
/// node — the stored value included — is left exactly as it was.
pub proof fn lemma_cas_mismatch_changes_nothing(
    n: NodeModel,
    src: Seq<char>,
    msg_id: MsgId,
    key: ValueModel,
    from: ValueModel,
    to: ValueModel,
)
    requires
        n.store.contains_key(key),
        n.store[key] != from,
    ensures
        ({
            let (n2, out) = node_step(
                n,
                EventModel::Request { src, request: RequestModel::Cas { msg_id, key, from, to } },
            );
            &&& n2 == n
            &&& n2.store[key] == n.store[key]
            &&& out == StepModel::Send(
                MsgModel {
                    src: n.id,
                    dest: src,
                    reply: ReplyModel::Error {
                        in_reply_to: msg_id,
                        code: VALUE_MISMATCH_CODE,
                        text: "Value does not match"@,
                    },
                },
            )
        }),
{
}

/// Serialized compare-and-swaps racing on the same expected value apply at
/// most once: the first one succeeds and installs its new value, and every
/// later one still expecting the old value is answered with the
/// value-mismatch code and changes nothing. (If the new value equals the
/// expected one the store is unchanged by the swap, and a later identical
/// swap succeeds again; the law therefore asks that they differ.)
pub proof fn lemma_cas_applies_at_most_once(
    n: NodeModel,
    src1: Seq<char>,
    src2: Seq<char>,
    id1: MsgId,
    id2: MsgId,
    key: ValueModel,
    expected: ValueModel,
    new1: ValueModel,
    new2: ValueModel,
)
    requires
        n.store.contains_key(key),
        n.store[key] == expected,
        new1 != expected,
    ensures
        ({
            let (n1, out1) = node_step(
                n,
                EventModel::Request {
                    src: src1,
                    request: RequestModel::Cas { msg_id: id1, key, from: expected, to: new1 },
                },
            );
            let (n2, out2) = node_step(
                n1,
                EventModel::Request {
                    src: src2,
                    request: RequestModel::Cas { msg_id: id2, key, from: expected, to: new2 },
                },
            );
            &&& out1 == StepModel::Send(
                MsgModel {
                    src: n.id,
                    dest: src1,
                    reply: ReplyModel::CasOk { in_reply_to: id1, msg_id: n.next_msg_id },
                },
            )
            &&& n1.store == n.store.insert(key, new1)
            &&& out2 == StepModel::Send(
                MsgModel {
                    src: n.id,
                    dest: src2,
                    reply: ReplyModel::Error {
                        in_reply_to: id2,
                        code: VALUE_MISMATCH_CODE,
                        text: "Value does not match"@,
                    },
                },
            )
            &&& n2.store == n1.store
        }),
{
}

/// Every request is answered by exactly one reply, correlated to the
/// request through `in_reply_to`, addressed from the node to the requester.
pub proof fn lemma_reply_correlated(n: NodeModel, src: Seq<char>, request: RequestModel)
    ensures
        match node_step(n, EventModel::Request { src, request }).1 {
            StepModel::Send(m) => m.src == n.id && m.dest == src && reply_in_reply_to(m.reply)
                == request_msg_id(request),
            StepModel::Halt => false,
            StepModel::Abort => false,
        },
{
}

/// On bus closure the node halts cleanly: it is left exactly as it was and
/// issues no reply.
pub proof fn lemma_closed_halts_cleanly(n: NodeModel)
    ensures
        node_step(n, EventModel::Closed).0 == n,
        node_step(n, EventModel::Closed).1 == StepModel::Halt,
{
}

/// On an unrecognized message the node aborts with a protocol violation: it
/// issues no reply for that message.
pub proof fn lemma_unknown_aborts(n: NodeModel)
    ensures
        node_step(n, EventModel::Unknown).0 == n,
        node_step(n, EventModel::Unknown).1 == StepModel::Abort,
{
}

/// The message identifiers a run of the node assigns, in order: one inbound
/// event after another, collecting the fresh identifier of each reply that
/// carries one.
pub open spec fn run_assigned_ids(n: NodeModel, events: Seq<EventModel>) -> Seq<MsgId>
    decreases events.len(),
{
    if events.len() == 0 {
        Seq::empty()
    } else {
        let (n2, out) = node_step(n, events[0]);
        let rest = run_assigned_ids(n2, events.drop_first());
        match out {
            StepModel::Send(m) => match reply_fresh_id(m.reply) {
                Some(id) => seq![id] + rest,
                None => rest,
            },
            StepModel::Halt => rest,
            StepModel::Abort => rest,
        }
    }
}

/// One step advances the identifier counter by at most one, never backwards,
/// and a reply carrying a fresh identifier carries exactly the old counter,
/// which the step then strictly passes.
proof fn lemma_step_counter(n: NodeModel, e: EventModel)
    requires
        n.next_msg_id < u64::MAX,
    ensures
        ({
            let (n2, out) = node_step(n, e);
            &&& n.next_msg_id <= n2.next_msg_id <= n.next_msg_id + 1
            &&& match out {
                StepModel::Send(m) => match reply_fresh_id(m.reply) {
                    Some(id) => id == n.next_msg_id && n2.next_msg_id == n.next_msg_id + 1,
                    None => true,
                },
                StepModel::Halt => true,
                StepModel::Abort => true,
            }
        }),
{
}

/// Every identifier a run assigns is at least the counter the run starts
/// with.
proof fn lemma_assigned_ids_bounded(n: NodeModel, events: Seq<EventModel>)
    requires
        n.next_msg_id + events.len() <= u64::MAX,
    ensures
        forall|i: int|
            0 <= i < run_assigned_ids(n, events).len() ==> run_assigned_ids(n, events)[i]
                >= n.next_msg_id,
    decreases events.len(),
{
    if events.len() > 0 {
        let (n2, out) = node_step(n, events[0]);
        lemma_step_counter(n, events[0]);
        lemma_assigned_ids_bounded(n2, events.drop_first());
        let ids = run_assigned_ids(n, events);
        let rest = run_assigned_ids(n2, events.drop_first());
        match out {
            StepModel::Send(m) => match reply_fresh_id(m.reply) {
                Some(id) => {
                    assert(ids == seq![id] + rest);
                    assert forall|i: int| 0 <= i < ids.len() implies ids[i] >= n.next_msg_id by {
                        if i > 0 {
                            assert(ids[i] == rest[i - 1]);
                        }
                    }
                },
                None => {
                    assert(forall|i: int| 0 <= i < ids.len() ==> ids[i] == rest[i]);
                },
            },
            StepModel::Halt => {
                assert(forall|i: int| 0 <= i < ids.len() ==> ids[i] == rest[i]);
            },
            StepModel::Abort => {
                assert(forall|i: int| 0 <= i < ids.len() ==> ids[i] == rest[i]);
            },
        }
    }
}

/// Outbound message identifiers are strictly increasing over any run of the
/// node: every reply that carries a fresh identifier carries one strictly
/// greater than each identifier assigned before it. (The counter is a
/// machine word; the run must be short enough for it not to overflow.)
pub proof fn lemma_assigned_ids_strictly_increase(n: NodeModel, events: Seq<EventModel>)
    requires
        n.next_msg_id + events.len() <= u64::MAX,
    ensures
        ({
            let ids = run_assigned_ids(n, events);
            forall|i: int, j: int| 0 <= i < j < ids.len() ==> ids[i] < ids[j]
        }),
    decreases events.len(),
{
    if events.len() > 0 {
        let (n2, out) = node_step(n, events[0]);
        lemma_step_counter(n, events[0]);
        lemma_assigned_ids_bounded(n2, events.drop_first());
        lemma_assigned_ids_strictly_increase(n2, events.drop_first());
        let ids = run_assigned_ids(n, events);
        let rest = run_assigned_ids(n2, events.drop_first());
        match out {
            StepModel::Send(m) => match reply_fresh_id(m.reply) {
                Some(id) => {
                    assert(ids == seq![id] + rest);
                    assert forall|i: int, j: int| 0 <= i < j < ids.len() implies ids[i] < ids[j] by {
                        if i == 0 {
                            assert(ids[j] == rest[j - 1]);
                            assert(rest[j - 1] >= n2.next_msg_id);
                        } else {
                            assert(ids[i] == rest[i - 1] && ids[j] == rest[j - 1]);
                        }
                    }
                },
                None => {},
            },
            StepModel::Halt => {},
            StepModel::Abort => {},
        }
    }
}

} // verus!
