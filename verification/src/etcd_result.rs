//! The decoded envelope of a response, and its decoding from JSON.

use vstd::prelude::*;
use crate::etcd_error::EtcdError;
use crate::etcd_node::{decode_node, decoding, string_member, EtcdNode, NodeView};
use crate::json::{lookup, JsonModel, JsonObject};

verus! {

/// The mathematical model of a result.
pub struct ResultView {
    pub action: Seq<char>,
    pub node: Option<NodeView>,
    pub previous_node: Option<NodeView>,
    pub x_etcd_index: i64,
    pub x_raft_index: i64,
    pub x_raft_term: i64,
}

/// What the store answered to one operation.
#[derive(Debug, PartialEq, Eq)]
pub struct EtcdResult {
    /// The action that the store performed, such as "get", "set" or
    /// "delete".
    pub action: String,
    /// The node after the operation.
    pub node: Option<EtcdNode>,
    /// The node as it was before the operation, where the operation replaced
    /// or removed something.
    pub previous_node: Option<EtcdNode>,
    /// The store's change counter, from the header `X-Etcd-Index`.
    pub x_etcd_index: i64,
    /// The index of the underlying replication log, from `X-Raft-Index`.
    pub x_raft_index: i64,
    /// The election term, from `X-Raft-Term`.
    pub x_raft_term: i64,
}

/// The model of a node that may be absent.
pub open spec fn optional_node_view(node: Option<EtcdNode>) -> Option<NodeView> {
    match node {
        Some(n) => Some(n@),
        None => None,
    }
}

impl View for EtcdResult {
    type V = ResultView;

    open spec fn view(&self) -> ResultView {
        ResultView {
            action: self.action@,
            node: optional_node_view(self.node),
            previous_node: optional_node_view(self.previous_node),
            x_etcd_index: self.x_etcd_index,
            x_raft_index: self.x_raft_index,
            x_raft_term: self.x_raft_term,
        }
    }
}

/// The member `key` does not stand in the way of decoding: it is absent, or
/// not an object, or an object that decodes to a node.
pub open spec fn node_member_ok(obj: Seq<(Seq<char>, JsonModel)>, key: Seq<char>) -> bool {
    lookup(obj, key) matches Some(JsonModel::Object(members)) ==> decode_node(members) is Some
}

/// The node that the member `key` holds. A member that is absent or not an
/// object holds none.
pub open spec fn node_member(obj: Seq<(Seq<char>, JsonModel)>, key: Seq<char>) -> Option<NodeView> {
    match lookup(obj, key) {
        Some(JsonModel::Object(members)) => decode_node(members),
        _ => None,
    }
}

/// The result that the members of a JSON object decode to, or `None` where
/// they are malformed: where `action` is missing or not a string, or `node`
/// or `prevNode` is an object that does not decode. The three indices come
/// from the response headers and are zero here.
pub open spec fn decode_result(obj: Seq<(Seq<char>, JsonModel)>) -> Option<ResultView> {
    if string_member(obj, "action"@) is Some && node_member_ok(obj, "node"@) && node_member_ok(
        obj,
        "prevNode"@,
    ) {
        Some(
            ResultView {
                action: string_member(obj, "action"@)->Some_0,
                node: node_member(obj, "node"@),
                previous_node: node_member(obj, "prevNode"@),
                x_etcd_index: 0,
                x_raft_index: 0,
                x_raft_term: 0,
            },
        )
    } else {
        None
    }
}

impl EtcdResult {
    /// Decodes the result that a JSON object describes.
    ///
    /// `node` and `prevNode` are looked up independently, and neither needs
    /// to be present. Fails with `MalformedResponse` where `action` is
    /// missing or not a string, and where `node` or `prevNode` is an object
    /// that does not decode. The three indices are left at zero: the caller
    /// fills them from the response headers.
    pub fn from_json(obj: &JsonObject) -> (r: Result<EtcdResult, EtcdError>)
        ensures
            decoding(r, decode_result(obj@)),
    {
        let node = match EtcdResult::node_from_json("node", obj) {
            Ok(node) => node,
            Err(e) => {
                return Err(e);
            },
        };
        let previous_node = match EtcdResult::node_from_json("prevNode", obj) {
            Ok(node) => node,
            Err(e) => {
                return Err(e);
            },
        };
        let action = match obj.get("action") {
            Some(j) => match j.as_string() {
                Some(s) => s.clone(),
                None => {
                    return Err(EtcdError::MalformedResponse);
                },
            },
            None => {
                return Err(EtcdError::MalformedResponse);
            },
        };
        Ok(EtcdResult { action, node, previous_node, x_etcd_index: 0, x_raft_index: 0, x_raft_term: 0 })
    }

    /// Decodes the node that the member `key` of a result object holds.
    ///
    /// A member that is absent or not an object gives `Ok(None)`; an object
    /// that does not decode gives `MalformedResponse`.
    pub fn node_from_json(key: &str, result_obj: &JsonObject) -> (r: Result<
        Option<EtcdNode>,
        EtcdError,
    >)
        ensures
            match r {
                Ok(node) => node_member_ok(result_obj@, key@) && optional_node_view(node)
                    == node_member(result_obj@, key@),
                Err(e) => !node_member_ok(result_obj@, key@) && e == EtcdError::MalformedResponse,
            },
    {
        let node_obj = match result_obj.get(key) {
            Some(o) => o,
            None => {
                return Ok(None);
            },
        };
        match node_obj.as_object() {
            Some(o) => match EtcdNode::from_json(o) {
                Ok(node) => Ok(Some(node)),
                Err(e) => Err(e),
            },
            None => Ok(None),
        }
    }
}

/// A result does not decode where its `node` or `prevNode` is an object
/// that does not decode, such as one that lacks a required member.
pub proof fn lemma_result_with_malformed_node(
    obj: Seq<(Seq<char>, JsonModel)>,
    key: Seq<char>,
    members: Seq<(Seq<char>, JsonModel)>,
)
    requires
        key == "node"@ || key == "prevNode"@,
        lookup(obj, key) == Some(JsonModel::Object(members)),
        decode_node(members) is None,
    ensures
        decode_result(obj) is None,
{
}

/// The node and the previous node of a decoded result are what the members
/// `node` and `prevNode` decode to.
pub proof fn lemma_result_nodes_are_as_sent(
    obj: Seq<(Seq<char>, JsonModel)>,
    key: Seq<char>,
    members: Seq<(Seq<char>, JsonModel)>,
)
    requires
        decode_result(obj) is Some,
        key == "node"@ || key == "prevNode"@,
        lookup(obj, key) == Some(JsonModel::Object(members)),
    ensures
        decode_node(members) is Some,
        key == "node"@ ==> decode_result(obj)->Some_0.node == decode_node(members),
        key == "prevNode"@ ==> decode_result(obj)->Some_0.previous_node == decode_node(members),
{
}

} // verus!
