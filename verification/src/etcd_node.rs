//! One key or directory of the store, and its decoding from JSON.

use vstd::prelude::*;
use crate::etcd_error::EtcdError;
use crate::json::{json_models, lemma_lookup_decreases, lookup, JsonModel, JsonObject, JsonValue};

verus! {

/// The mathematical model of a node.
pub struct NodeView {
    pub key: Seq<char>,
    pub created_index: i64,
    pub modified_index: i64,
    pub value: Option<Seq<char>>,
    pub expiration: Option<Seq<char>>,
    pub ttl: Option<i64>,
    pub dir: bool,
    pub nodes: Option<Seq<NodeView>>,
}

impl NodeView {
    /// The invariant of a node as the store holds it: the key is an
    /// absolute path, the node was not changed before it was created, a
    /// directory holds no value, only a directory has children, and the
    /// children are well formed in turn.
    pub open spec fn well_formed(self) -> bool
        decreases self,
    {
        &&& self.key.len() > 0
        &&& self.key[0] == '/'
        &&& self.modified_index >= self.created_index
        &&& (self.dir ==> self.value is None)
        &&& (!self.dir ==> self.nodes is None)
        &&& (self.nodes matches Some(children) ==> forall|i: int|
            0 <= i < children.len() ==> (#[trigger] children[i]).well_formed())
    }
}

/// One key or directory of the store at a point in time.
///
/// Decoding takes a node as the store sent it: it does not reject a node
/// that breaks the invariant of [`NodeView::well_formed`], which
/// [`EtcdNode::is_well_formed`] tests.
#[derive(Debug, PartialEq, Eq)]
pub struct EtcdNode {
    /// The absolute, slash-delimited path of the node.
    pub key: String,
    /// The store index at which the key was created.
    pub created_index: i64,
    /// The store index at which the key was last changed.
    pub modified_index: i64,
    /// The value, for a key that holds one.
    pub value: Option<String>,
    /// The time at which the key expires, for a key with a time to live.
    pub expiration: Option<String>,
    /// The remaining time to live in seconds.
    pub ttl: Option<i64>,
    /// Whether the node is a directory.
    pub dir: bool,
    /// The children of a directory, in the order in which the store sent
    /// them.
    pub nodes: Option<Vec<EtcdNode>>,
}

impl EtcdNode {
    /// The node as a mathematical value.
    pub open spec fn model(&self) -> NodeView
        decreases self,
    {
        NodeView {
            key: self.key@,
            created_index: self.created_index,
            modified_index: self.modified_index,
            value: match self.value {
                Some(s) => Some(s@),
                None => None,
            },
            expiration: match self.expiration {
                Some(s) => Some(s@),
                None => None,
            },
            ttl: self.ttl,
            dir: self.dir,
            nodes: match self.nodes {
                Some(children) => Some(
                    Seq::new(
                        children.len() as nat,
                        |i: int|
                            if 0 <= i < children.len() {
                                children[i].model()
                            } else {
                                arbitrary()
                            },
                    ),
                ),
                None => None,
            },
        }
    }
}

impl View for EtcdNode {
    type V = NodeView;

    open spec fn view(&self) -> NodeView {
        self.model()
    }
}

/// The models of a list of nodes, in order.
pub open spec fn node_views(nodes: Seq<EtcdNode>) -> Seq<NodeView> {
    Seq::new(nodes.len(), |i: int| nodes[i]@)
}

/// The text of the member `key`, where it is present and a string.
pub open spec fn string_member(obj: Seq<(Seq<char>, JsonModel)>, key: Seq<char>) -> Option<
    Seq<char>,
> {
    match lookup(obj, key) {
        Some(j) => j.as_string(),
        None => None,
    }
}

/// The value of the member `key`, where it is present and an integer that
/// `as_i64` accepts.
pub open spec fn integer_member(obj: Seq<(Seq<char>, JsonModel)>, key: Seq<char>) -> Option<i64> {
    match lookup(obj, key) {
        Some(j) => j.as_i64(),
        None => None,
    }
}

/// The value of the member `key`, where it is present and a boolean.
pub open spec fn boolean_member(obj: Seq<(Seq<char>, JsonModel)>, key: Seq<char>) -> Option<bool> {
    match lookup(obj, key) {
        Some(j) => j.as_boolean(),
        None => None,
    }
}

/// The node that an item of a `nodes` array decodes to: the item has to be
/// an object that decodes.
pub open spec fn decode_child(item: JsonModel) -> Option<NodeView>
    decreases item, 0nat,
{
    match item {
        JsonModel::Object(members) => decode_node(members),
        _ => None,
    }
}

/// The nodes that the items of a `nodes` array decode to, in order: every
/// item has to decode.
pub open spec fn decode_children(items: Seq<JsonModel>) -> Option<Seq<NodeView>>
    decreases items, 1nat,
{
    if forall|i: int| 0 <= i < items.len() ==> decode_child(#[trigger] items[i]) is Some {
        Some(
            Seq::new(
                items.len(),
                |i: int|
                    if 0 <= i < items.len() {
                        decode_child(items[i])->Some_0
                    } else {
                        arbitrary()
                    },
            ),
        )
    } else {
        None
    }
}

/// The members other than `nodes` are well typed: `key` is a string,
/// `createdIndex` and `modifiedIndex` are integers, `value` and `expiration`
/// are absent or strings, and `dir` is absent or a boolean.
pub open spec fn scalar_members_ok(obj: Seq<(Seq<char>, JsonModel)>) -> bool {
    &&& string_member(obj, "key"@) is Some
    &&& integer_member(obj, "createdIndex"@) is Some
    &&& integer_member(obj, "modifiedIndex"@) is Some
    &&& (lookup(obj, "value"@) matches Some(j) ==> j is String)
    &&& (lookup(obj, "expiration"@) matches Some(j) ==> j is String)
    &&& (lookup(obj, "dir"@) matches Some(j) ==> j is Boolean)
}

/// The node made of the members of `obj` other than `nodes`, with `nodes`
/// as its children. An absent `dir` stands for `false`, and a `ttl` that is
/// not an integer counts as absent.
pub open spec fn node_with(obj: Seq<(Seq<char>, JsonModel)>, nodes: Option<Seq<NodeView>>) -> Option<
    NodeView,
> {
    if scalar_members_ok(obj) {
        Some(
            NodeView {
                key: string_member(obj, "key"@)->Some_0,
                created_index: integer_member(obj, "createdIndex"@)->Some_0,
                modified_index: integer_member(obj, "modifiedIndex"@)->Some_0,
                value: string_member(obj, "value"@),
                expiration: string_member(obj, "expiration"@),
                ttl: integer_member(obj, "ttl"@),
                dir: boolean_member(obj, "dir"@) == Some(true),
                nodes,
            },
        )
    } else {
        None
    }
}

/// The node that the members of a JSON object decode to, or `None` where
/// they are malformed: where a member other than `nodes` is ill typed, or
/// `nodes` is present and not an array of objects that all decode in turn.
pub open spec fn decode_node(obj: Seq<(Seq<char>, JsonModel)>) -> Option<NodeView>
    decreases obj, 2nat,
{
    match lookup(obj, "nodes"@) {
        None => node_with(obj, None),
        Some(JsonModel::Array(items)) => {
            proof {
                lemma_lookup_decreases(obj, "nodes"@);
            }
            match decode_children(items) {
                Some(children) => node_with(obj, Some(children)),
                None => None,
            }
        },
        Some(_) => None,
    }
}

/// What a decoder returns for `decoded`: the node, or `MalformedResponse`.
pub open spec fn decoding<T: View>(r: Result<T, EtcdError>, decoded: Option<T::V>) -> bool {
    match decoded {
        Some(model) => r matches Ok(value) && value@ == model,
        None => r matches Err(e) && e == EtcdError::MalformedResponse,
    }
}

fn string_of(obj: &JsonObject, key: &str) -> (r: Option<String>)
    ensures
        match r {
            Some(s) => string_member(obj@, key@) == Some(s@),
            None => string_member(obj@, key@) is None,
        },
{
    match obj.get(key) {
        Some(j) => match j.as_string() {
            Some(s) => Some(s.clone()),
            None => None,
        },
        None => None,
    }
}

fn integer_of(obj: &JsonObject, key: &str) -> (r: Option<i64>)
    ensures
        r == integer_member(obj@, key@),
{
    match obj.get(key) {
        Some(j) => j.as_i64(),
        None => None,
    }
}

fn boolean_of(obj: &JsonObject, key: &str) -> (r: Option<bool>)
    ensures
        r == boolean_member(obj@, key@),
{
    match obj.get(key) {
        Some(j) => j.as_boolean(),
        None => None,
    }
}

fn present(obj: &JsonObject, key: &str) -> (r: bool)
    ensures
        r == lookup(obj@, key@).is_some(),
{
    obj.get(key).is_some()
}

impl EtcdNode {
    /// Decodes the node that a JSON object describes.
    ///
    /// Fails with `MalformedResponse` where `key`, `createdIndex` or
    /// `modifiedIndex` is missing or of the wrong type, where `value`,
    /// `expiration` or `dir` is present with the wrong type, and where
    /// `nodes` is present and not an array of objects that decode in turn.
    pub fn from_json(obj: &JsonObject) -> (r: Result<EtcdNode, EtcdError>)
        ensures
            decoding(r, decode_node(obj@)),
        decreases obj@,
    {
        let nodes = match obj.get("nodes") {
            None => None,
            Some(j) => match j.as_array() {
                None => {
                    return Err(EtcdError::MalformedResponse);
                },
                Some(items) => {
                    proof {
                        lemma_lookup_decreases(obj@, "nodes"@);
                    }
                    match EtcdNode::list_from_json(items) {
                        Ok(list) => Some(list),
                        Err(e) => {
                            return Err(e);
                        },
                    }
                },
            },
        };
        let key = string_of(obj, "key");
        let created_index = integer_of(obj, "createdIndex");
        let modified_index = integer_of(obj, "modifiedIndex");
        let value = string_of(obj, "value");
        let expiration = string_of(obj, "expiration");
        let dir = boolean_of(obj, "dir");
        if key.is_none() || created_index.is_none() || modified_index.is_none() || (value.is_none()
            && present(obj, "value")) || (expiration.is_none() && present(obj, "expiration")) || (
        dir.is_none() && present(obj, "dir")) {
            return Err(EtcdError::MalformedResponse);
        }
        let node = EtcdNode {
            key: key.unwrap(),
            created_index: created_index.unwrap(),
            modified_index: modified_index.unwrap(),
            value,
            expiration,
            ttl: integer_of(obj, "ttl"),
            dir: match dir {
                Some(b) => b,
                None => false,
            },
            nodes,
        };
        proof {
            if node.nodes is Some {
                assert(node@.nodes->Some_0 =~= node_views(node.nodes->Some_0@));
            }
        }
        Ok(node)
    }

    /// Decodes the items of a `nodes` array, in order.
    fn list_from_json(items: &Vec<JsonValue>) -> (r: Result<Vec<EtcdNode>, EtcdError>)
        ensures
            match decode_children(json_models(items@)) {
                Some(children) => r matches Ok(list) && node_views(list@) == children,
                None => r matches Err(e) && e == EtcdError::MalformedResponse,
            },
        decreases json_models(items@),
    {
        let ghost models = json_models(items@);
        let mut list: Vec<EtcdNode> = Vec::with_capacity(items.len());
        let mut i: usize = 0;
        while i < items.len()
            invariant
                i <= items.len(),
                models == json_models(items@),
                list.len() == i,
                forall|k: int| 0 <= k < i ==> decode_child(#[trigger] models[k]) == Some(list[k]@),
            decreases items.len() - i,
        {
            let decoded = match items[i].as_object() {
                Some(child) => EtcdNode::from_json(child),
                None => Err(EtcdError::MalformedResponse),
            };
            match decoded {
                Ok(node) => {
                    list.push(node);
                },
                Err(e) => {
                    assert(decode_child(models[i as int]) is None);
                    return Err(e);
                },
            }
            i += 1;
        }
        assert(node_views(list@) =~= decode_children(models)->Some_0);
        Ok(list)
    }
}

impl EtcdNode {
    /// Tells whether the node keeps the invariant of a node of the store.
    pub fn is_well_formed(&self) -> (r: bool)
        ensures
            r == self@.well_formed(),
        decreases self,
    {
        let key = self.key.as_str();
        if key.unicode_len() == 0 || key.get_char(0) != '/' {
            return false;
        }
        if self.modified_index < self.created_index {
            return false;
        }
        if self.dir && self.value.is_some() {
            return false;
        }
        match &self.nodes {
            Some(children) => {
                if !self.dir {
                    return false;
                }
                let all = EtcdNode::all_well_formed(children);
                proof {
                    let views = self@.nodes->Some_0;
                    assert(views.len() == children.len());
                    assert forall|i: int| 0 <= i < views.len() implies #[trigger] views[i]
                        == children[i]@ by {}
                    if !all {
                        let k = choose|k: int|
                            0 <= k < children.len() && !(#[trigger] children[k])@.well_formed();
                        assert(!views[k].well_formed());
                    }
                }
                all
            },
            None => true,
        }
    }

    fn all_well_formed(nodes: &Vec<EtcdNode>) -> (r: bool)
        ensures
            r == forall|i: int| 0 <= i < nodes.len() ==> (#[trigger] nodes[i])@.well_formed(),
        decreases nodes,
    {
        let mut i: usize = 0;
        while i < nodes.len()
            invariant
                i <= nodes.len(),
                forall|k: int| 0 <= k < i ==> (#[trigger] nodes[k])@.well_formed(),
            decreases nodes.len() - i,
        {
            if !nodes[i].is_well_formed() {
                return false;
            }
            i += 1;
        }
        true
    }
}

/// A node that lacks `key`, `createdIndex` or `modifiedIndex` does not
/// decode.
pub proof fn lemma_node_without_required_member(obj: Seq<(Seq<char>, JsonModel)>)
    requires
        lookup(obj, "key"@) is None || lookup(obj, "createdIndex"@) is None || lookup(
            obj,
            "modifiedIndex"@,
        ) is None,
    ensures
        decode_node(obj) is None,
{
}

/// A node does not decode where one of the items of its `nodes` does not:
/// one that is no object, or an object that does not decode, such as one
/// that lacks a required member.
pub proof fn lemma_node_with_malformed_child(
    obj: Seq<(Seq<char>, JsonModel)>,
    items: Seq<JsonModel>,
    i: int,
)
    requires
        lookup(obj, "nodes"@) == Some(JsonModel::Array(items)),
        0 <= i < items.len(),
        decode_child(items[i]) is None,
    ensures
        decode_node(obj) is None,
{
}

/// The value that an item of a `nodes` array carries, where the item is an
/// object with a string as its `value`.
pub open spec fn sent_value(item: JsonModel) -> Option<Seq<char>> {
    match item {
        JsonModel::Object(members) => string_member(members, "value"@),
        _ => None,
    }
}

/// The `createdIndex` that an item of a `nodes` array carries.
pub open spec fn sent_created_index(item: JsonModel) -> Option<i64> {
    match item {
        JsonModel::Object(members) => integer_member(members, "createdIndex"@),
        _ => None,
    }
}

/// A decoded node holds what its members carry: key, indices, value and
/// `dir` are those that were sent.
pub proof fn lemma_node_is_as_sent(obj: Seq<(Seq<char>, JsonModel)>)
    requires
        decode_node(obj) is Some,
    ensures
        Some(decode_node(obj)->Some_0.key) == string_member(obj, "key"@),
        Some(decode_node(obj)->Some_0.created_index) == integer_member(obj, "createdIndex"@),
        Some(decode_node(obj)->Some_0.modified_index) == integer_member(obj, "modifiedIndex"@),
        decode_node(obj)->Some_0.value == string_member(obj, "value"@),
        decode_node(obj)->Some_0.dir == (lookup(obj, "dir"@) == Some(JsonModel::Boolean(true))),
{
}

/// The children of a decoded directory are the items of its `nodes` as
/// they were sent: as many, in the same order, each with the value and the
/// `createdIndex` that its item carries.
pub proof fn lemma_children_are_as_sent(obj: Seq<(Seq<char>, JsonModel)>, items: Seq<JsonModel>)
    requires
        decode_node(obj) is Some,
        lookup(obj, "nodes"@) == Some(JsonModel::Array(items)),
    ensures
        decode_node(obj)->Some_0.nodes matches Some(children) && children.len() == items.len()
            && forall|i: int|
            0 <= i < items.len() ==> {
                &&& decode_child(#[trigger] items[i]) == Some(children[i])
                &&& children[i].value == sent_value(items[i])
                &&& Some(children[i].created_index) == sent_created_index(items[i])
            },
{
    let children = decode_children(items)->Some_0;
    assert forall|i: int| 0 <= i < items.len() implies {
        &&& decode_child(#[trigger] items[i]) == Some(children[i])
        &&& children[i].value == sent_value(items[i])
        &&& Some(children[i].created_index) == sent_created_index(items[i])
    } by {
        assert(decode_child(items[i]) is Some);
        lemma_node_is_as_sent(items[i]->Object_0);
    }
}

/// Where the items of `nodes` were sent with strictly increasing
/// `createdIndex`, the children of the decoded directory have strictly
/// increasing `created_index`.
pub proof fn lemma_children_keep_increasing_indices(
    obj: Seq<(Seq<char>, JsonModel)>,
    items: Seq<JsonModel>,
)
    requires
        decode_node(obj) is Some,
        lookup(obj, "nodes"@) == Some(JsonModel::Array(items)),
        forall|i: int, j: int|
            0 <= i < j < items.len() ==> sent_created_index(#[trigger] items[i])->Some_0
                < sent_created_index(#[trigger] items[j])->Some_0,
    ensures
        decode_node(obj)->Some_0.nodes matches Some(children) && forall|i: int, j: int|
            0 <= i < j < children.len() ==> (#[trigger] children[i]).created_index
                < (#[trigger] children[j]).created_index,
{
    lemma_children_are_as_sent(obj, items);
    let children = decode_node(obj)->Some_0.nodes->Some_0;
    assert forall|i: int, j: int| 0 <= i < j < children.len() implies (#[trigger] children[i]).created_index
        < (#[trigger] children[j]).created_index by {
        assert(Some(children[i].created_index) == sent_created_index(items[i]));
        assert(Some(children[j].created_index) == sent_created_index(items[j]));
    }
}

} // verus!
