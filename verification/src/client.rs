//! The client: from an operation to the request to send, and from the
//! response to what the operation returns.

use vstd::prelude::*;
use crate::etcd_error::EtcdError;
use crate::etcd_node::{
    decode_node, lemma_children_are_as_sent, lemma_children_keep_increasing_indices,
    lemma_node_is_as_sent, sent_created_index, sent_value, string_member, EtcdNode, NodeView,
};
use crate::etcd_result::{
    decode_result, lemma_result_nodes_are_as_sent, optional_node_view, EtcdResult, ResultView,
};
use crate::header::{header_index, index_from_headers, Header, X_Etcd_Index, X_Raft_Index, X_Raft_Term};
use crate::json::{document_of_bytes, lookup, JsonModel, JsonValue};
use crate::operation::Operation;
use crate::request::{
    accept_json,
    check_url_input,
    content_type_form,
    form_component,
    form_encode,
    form_plain,
    form_urlencoded,
    lemma_form_component_plain,
    parse_url_with_query,
    request_headers,
    url_input_fits,
    url_with_query,
    AtomicOp,
    EtcdObject,
    Method,
    Param,
    Request,
    RequestView,
    VERSION,
};
use crate::text::{decimal_string, decimal_text, pairs_view};

verus! {

/// The address of a store.
#[derive(Debug, Clone, PartialEq, Eq)]
pub struct EtcdClient {
    pub etcd_host: String,
    pub etcd_port: u16,
}

/// The mathematical model of a response.
pub struct ResponseView {
    pub status: u16,
    pub headers: Seq<(Seq<char>, Seq<char>)>,
    pub body: Seq<u8>,
}

/// One HTTP response, as the transport received it.
#[derive(Debug, Clone, PartialEq, Eq)]
pub struct Response {
    /// The status code.
    pub status: u16,
    /// The header fields, each a name and a value.
    pub headers: Vec<(String, String)>,
    /// The bytes of the body.
    pub body: Vec<u8>,
}

impl View for Response {
    type V = ResponseView;

    open spec fn view(&self) -> ResponseView {
        ResponseView { status: self.status, headers: pairs_view(self.headers@), body: self.body@ }
    }
}

/// The text that is parsed as the URL of `path` under `object`:
/// `http://{host}:{port}/v2/{object}/{path}`.
pub open spec fn url_text(host: Seq<char>, port: u16, object: EtcdObject, path: Seq<char>) -> Seq<
    char,
> {
    "http://"@ + host + ":"@ + decimal_text(port as nat) + "/"@ + VERSION@ + "/"@ + object.name()
        + "/"@ + path
}

/// A status code of the 2xx range.
pub open spec fn is_success(status: u16) -> bool {
    200 <= status <= 299
}

/// The result that a JSON document and the response headers give: the
/// document has to be an object that decodes, and the three indices come
/// from the headers.
pub open spec fn document_result(document: JsonModel, headers: Seq<(Seq<char>, Seq<char>)>) -> Result<
    ResultView,
    EtcdError,
> {
    match document {
        JsonModel::Object(members) => match decode_result(members) {
            Some(result) => Ok(
                ResultView {
                    x_etcd_index: header_index(headers, X_Etcd_Index::name()),
                    x_raft_index: header_index(headers, X_Raft_Index::name()),
                    x_raft_term: header_index(headers, X_Raft_Term::name()),
                    ..result
                },
            ),
            None => Err(EtcdError::MalformedResponse),
        },
        _ => Err(EtcdError::MalformedResponse),
    }
}

/// The result that a response gives. A status outside the 2xx range is
/// `Unsuccessful`, and the body is not looked at. A body is `DecodeFailure`
/// where it is not the UTF-8 encoding of a JSON text, and also where it is
/// JSON beyond the limits of the parser (see `within_parser_limits`).
pub open spec fn response_result(response: ResponseView) -> Result<ResultView, EtcdError> {
    if !is_success(response.status) {
        Err(EtcdError::Unsuccessful(response.status))
    } else {
        match document_of_bytes(response.body) {
            Some(document) => document_result(document, response.headers),
            None => Err(EtcdError::DecodeFailure),
        }
    }
}

/// The node of a result that an operation returns: the previous node for an
/// operation that replaces or removes, the node for any other.
pub open spec fn answer(op: Operation, result: ResultView) -> Option<NodeView> {
    if op.returns_previous() {
        result.previous_node
    } else {
        result.node
    }
}

/// What an operation returns for a response.
pub open spec fn response_answer(op: Operation, response: ResponseView) -> Result<
    Option<NodeView>,
    EtcdError,
> {
    match response_result(response) {
        Ok(result) => Ok(answer(op, result)),
        Err(e) => Err(e),
    }
}

/// `r` is the value or the error that `expected` tells.
pub open spec fn yields<T: View>(r: Result<T, EtcdError>, expected: Result<T::V, EtcdError>) -> bool {
    match expected {
        Ok(model) => r matches Ok(value) && value@ == model,
        Err(error) => r matches Err(e) && e == error,
    }
}

fn no_params() -> (r: Vec<(String, String)>)
    ensures
        pairs_view(r@) == Seq::<(Seq<char>, Seq<char>)>::empty(),
{
    let params = Vec::new();
    assert(pairs_view(params@) =~= Seq::<(Seq<char>, Seq<char>)>::empty());
    params
}

/// The `Accept` header of every request.
pub fn accept_json_header() -> (r: (String, String))
    ensures
        (r.0@, r.1@) == accept_json(),
{
    (String::from_str("Accept"), String::from_str("application/json"))
}

/// The `Content-Type` header of a request with a body.
pub fn content_type_form_header() -> (r: (String, String))
    ensures
        (r.0@, r.1@) == content_type_form(),
{
    (String::from_str("Content-Type"), String::from_str("application/x-www-form-urlencoded"))
}

impl EtcdClient {
    /// The URL of `path` under `object` with `params` as its query, where
    /// the URL parser accepts it.
    pub open spec fn url_for(
        &self,
        object: EtcdObject,
        path: Seq<char>,
        params: Seq<(Seq<char>, Seq<char>)>,
    ) -> Option<Seq<char>> {
        url_with_query(url_text(self.etcd_host@, self.etcd_port, object, path), params)
    }

    /// Host, port and `path` form a URL: the text is small enough for the
    /// URL parser, and the parser accepts it.
    pub open spec fn can_build_url(
        &self,
        object: EtcdObject,
        path: Seq<char>,
        params: Seq<(Seq<char>, Seq<char>)>,
    ) -> bool {
        &&& url_input_fits(url_text(self.etcd_host@, self.etcd_port, object, path), params)
        &&& self.url_for(object, path, params) is Some
    }

    /// The request of `op` can be built.
    pub open spec fn can_request(&self, op: Operation) -> bool {
        self.can_build_url(EtcdObject::Keys, op.path(), op.query())
    }

    /// The request of `op`: its method, the URL of its key with its query
    /// parameters, the headers, and its form parameters as the body.
    pub open spec fn request_for(&self, op: Operation) -> RequestView {
        RequestView {
            method: op.method(),
            url: self.url_for(EtcdObject::Keys, op.path(), op.query())->Some_0,
            headers: request_headers(op.form() is Some),
            body: match op.form() {
                Some(pairs) => Some(form_urlencoded(pairs)),
                None => None,
            },
        }
    }

    /// A client for the store at `host` and `port`.
    pub fn new(host: String, port: u16) -> (r: EtcdClient)
        ensures
            r.etcd_host == host,
            r.etcd_port == port,
    {
        EtcdClient { etcd_host: host, etcd_port: port }
    }

    fn format_url_text(&self, object: EtcdObject, path: &str) -> (r: String)
        ensures
            r@ == url_text(self.etcd_host@, self.etcd_port, object, path@),
    {
        let mut text = String::from_str("http://");
        text.append(self.etcd_host.as_str());
        text.append(":");
        text.append(decimal_string(self.etcd_port as u64).as_str());
        text.append("/");
        text.append(VERSION);
        text.append("/");
        text.append(object.as_str());
        text.append("/");
        text.append(path);
        text
    }

    /// Builds the URL of `path` under `object`, with `params` as its query
    /// in the order given. The text `http://{host}:{port}/v2/{object}/{path}`
    /// is parsed as a URL, and the query of that URL is set from the
    /// parameters alone.
    pub fn build_url(&self, object: EtcdObject, path: &str, params: &Vec<(String, String)>) -> (r:
        String)
        requires
            self.can_build_url(object, path@, pairs_view(params@)),
        ensures
            Some(r@) == self.url_for(object, path@, pairs_view(params@)),
    {
        let text = self.format_url_text(object, path);
        parse_url_with_query(text.as_str(), params).unwrap()
    }

    /// Builds the URL of `path` under `object`, with `params` as its query
    /// in the order given; `None` where host, port and `path` do not form a
    /// URL.
    pub fn try_build_url(&self, object: EtcdObject, path: &str, params: &Vec<(String, String)>) -> (r:
        Option<String>)
        ensures
            match r {
                Some(url) => self.can_build_url(object, path@, pairs_view(params@)) && Some(url@)
                    == self.url_for(object, path@, pairs_view(params@)),
                None => !self.can_build_url(object, path@, pairs_view(params@)),
            },
    {
        let text = self.format_url_text(object, path);
        if !check_url_input(text.as_str(), params) {
            return None;
        }
        if parse_url_with_query(text.as_str(), params).is_none() {
            return None;
        }
        Some(self.build_url(object, path, params))
    }

    /// The request that appends `value` under the directory `key`; the store
    /// picks the next key in order.
    pub fn index_append(&self, key: &str, value: &str) -> (r: Request)
        requires
            self.can_request(Operation::IndexAppend { key, value }),
        ensures
            r@ == self.request_for(Operation::IndexAppend { key, value }),
    {
        let url = self.build_url(EtcdObject::Keys, key, &no_params());
        let form = vec![Param::Value(value).into()];
        assert(pairs_view(form@) =~= seq![Param::Value(value).pair()]);
        let body = form_encode(&form);
        let headers = vec![accept_json_header(), content_type_form_header()];
        assert(pairs_view(headers@) =~= request_headers(true));
        Request { method: Method::Post, url, headers, body: Some(body) }
    }

    /// The request that lists what was added under the directory `key`, in
    /// the order of the keys.
    pub fn index_list(&self, key: &str) -> (r: Request)
        requires
            self.can_request(Operation::IndexList { key }),
        ensures
            r@ == self.request_for(Operation::IndexList { key }),
    {
        let params = vec![Param::Recursive(true).into(), Param::Sorted(true).into()];
        assert(pairs_view(params@) =~= (Operation::IndexList { key }).query());
        let url = self.build_url(EtcdObject::Keys, key, &params);
        let headers = vec![accept_json_header()];
        assert(pairs_view(headers@) =~= request_headers(false));
        Request { method: Method::Get, url, headers, body: None }
    }

    /// The request that creates the empty directory `name`.
    pub fn make_dir(&self, name: &str) -> (r: Request)
        requires
            self.can_request(Operation::MakeDir { name }),
        ensures
            r@ == self.request_for(Operation::MakeDir { name }),
    {
        let url = self.build_url(EtcdObject::Keys, name, &no_params());
        let form = vec![Param::Dir(true).into()];
        assert(pairs_view(form@) =~= seq![Param::Dir(true).pair()]);
        let body = form_encode(&form);
        let headers = vec![accept_json_header(), content_type_form_header()];
        assert(pairs_view(headers@) =~= request_headers(true));
        Request { method: Method::Put, url, headers, body: Some(body) }
    }

    /// The request that removes `key`.
    pub fn remove(&self, key: &str) -> (r: Request)
        requires
            self.can_request(Operation::Remove { key }),
        ensures
            r@ == self.request_for(Operation::Remove { key }),
    {
        let url = self.build_url(EtcdObject::Keys, key, &no_params());
        let headers = vec![accept_json_header()];
        assert(pairs_view(headers@) =~= request_headers(false));
        Request { method: Method::Delete, url, headers, body: None }
    }

    /// The request that removes `key` where `condition` holds of it.
    pub fn compare_and_delete(&self, key: &str, condition: AtomicOp) -> (r: Request)
        requires
            self.can_request(Operation::CompareAndDelete { key, condition }),
        ensures
            r@ == self.request_for(Operation::CompareAndDelete { key, condition }),
    {
        let params = vec![condition.into()];
        assert(pairs_view(params@) =~= seq![condition.pair()]);
        let url = self.build_url(EtcdObject::Keys, key, &params);
        let headers = vec![accept_json_header()];
        assert(pairs_view(headers@) =~= request_headers(false));
        Request { method: Method::Delete, url, headers, body: None }
    }

    /// The request that removes the directory `dir`: an empty one, or with
    /// `recursive` set one with all that it holds.
    pub fn remove_dir(&self, dir: &str, recursive: bool) -> (r: Request)
        requires
            self.can_request(Operation::RemoveDir { dir, recursive }),
        ensures
            r@ == self.request_for(Operation::RemoveDir { dir, recursive }),
    {
        let params = vec![Param::Dir(true).into(), Param::Recursive(recursive).into()];
        assert(pairs_view(params@) =~= (Operation::RemoveDir { dir, recursive }).query());
        let url = self.build_url(EtcdObject::Keys, dir, &params);
        let headers = vec![accept_json_header()];
        assert(pairs_view(headers@) =~= request_headers(false));
        Request { method: Method::Delete, url, headers, body: None }
    }

    /// The request that reads `key`, a key or a directory.
    pub fn get(&self, key: &str) -> (r: Request)
        requires
            self.can_request(Operation::Get { key }),
        ensures
            r@ == self.request_for(Operation::Get { key }),
    {
        let url = self.build_url(EtcdObject::Keys, key, &no_params());
        let headers = vec![accept_json_header()];
        assert(pairs_view(headers@) =~= request_headers(false));
        Request { method: Method::Get, url, headers, body: None }
    }

    /// The request that reads the directory `dir`: that of `get`.
    pub fn list(&self, dir: &str) -> (r: Request)
        requires
            self.can_request(Operation::List { dir }),
        ensures
            r@ == self.request_for(Operation::List { dir }),
            r@ == self.request_for(Operation::Get { key: dir }),
    {
        self.get(dir)
    }

    /// The request that sets `key` to `value`, whatever it held.
    pub fn set(&self, key: &str, value: &str) -> (r: Request)
        requires
            self.can_request(Operation::SetValue { key, value }),
        ensures
            r@ == self.request_for(Operation::SetValue { key, value }),
    {
        let url = self.build_url(EtcdObject::Keys, key, &no_params());
        let form = vec![Param::Value(value).into()];
        assert(pairs_view(form@) =~= seq![Param::Value(value).pair()]);
        let body = form_encode(&form);
        let headers = vec![accept_json_header(), content_type_form_header()];
        assert(pairs_view(headers@) =~= request_headers(true));
        Request { method: Method::Put, url, headers, body: Some(body) }
    }

    /// The request that sets `key` to `value` where `condition` holds of
    /// the key.
    pub fn compare_and_swap(&self, key: &str, value: &str, condition: AtomicOp) -> (r: Request)
        requires
            self.can_request(Operation::CompareAndSwap { key, value, condition }),
        ensures
            r@ == self.request_for(Operation::CompareAndSwap { key, value, condition }),
    {
        let params = vec![condition.into()];
        assert(pairs_view(params@) =~= seq![condition.pair()]);
        let url = self.build_url(EtcdObject::Keys, key, &params);
        let form = vec![Param::Value(value).into()];
        assert(pairs_view(form@) =~= seq![Param::Value(value).pair()]);
        let body = form_encode(&form);
        let headers = vec![accept_json_header(), content_type_form_header()];
        assert(pairs_view(headers@) =~= request_headers(true));
        Request { method: Method::Put, url, headers, body: Some(body) }
    }

    /// The request that waits for the next change at or under `key`. The
    /// store answers only once there is a change.
    pub fn watch(&self, key: &str) -> (r: Request)
        requires
            self.can_request(Operation::Watch { key, wait_index: None }),
        ensures
            r@ == self.request_for(Operation::Watch { key, wait_index: None }),
    {
        let params = vec![Param::Wait(true).into()];
        assert(pairs_view(params@) =~= seq![Param::Wait(true).pair()]);
        let url = self.build_url(EtcdObject::Keys, key, &params);
        let headers = vec![accept_json_header()];
        assert(pairs_view(headers@) =~= request_headers(false));
        Request { method: Method::Get, url, headers, body: None }
    }

    /// The request that waits for the first change at or under `key` from
    /// the index `wait_index` on.
    pub fn watch_from(&self, key: &str, wait_index: u64) -> (r: Request)
        requires
            self.can_request(Operation::Watch { key, wait_index: Some(wait_index) }),
        ensures
            r@ == self.request_for(Operation::Watch { key, wait_index: Some(wait_index) }),
    {
        let params = vec![Param::Wait(true).into(), Param::WaitIndex(wait_index).into()];
        assert(pairs_view(params@) =~= (Operation::Watch {
            key,
            wait_index: Some(wait_index),
        }).query());
        let url = self.build_url(EtcdObject::Keys, key, &params);
        let headers = vec![accept_json_header()];
        assert(pairs_view(headers@) =~= request_headers(false));
        Request { method: Method::Get, url, headers, body: None }
    }

    /// The request of `op`, or `None` where host, port and the key of `op`
    /// do not form a URL.
    pub fn request(&self, op: &Operation) -> (r: Option<Request>)
        ensures
            match r {
                Some(request) => self.can_request(*op) && request@ == self.request_for(*op),
                None => !self.can_request(*op),
            },
    {
        let params = op.query_params();
        if self.try_build_url(EtcdObject::Keys, op.key(), &params).is_none() {
            return None;
        }
        Some(
            match *op {
                Operation::Get { key } => self.get(key),
                Operation::List { dir } => self.list(dir),
                Operation::SetValue { key, value } => self.set(key, value),
                Operation::CompareAndSwap { key, value, condition } => self.compare_and_swap(
                    key,
                    value,
                    condition,
                ),
                Operation::MakeDir { name } => self.make_dir(name),
                Operation::Remove { key } => self.remove(key),
                Operation::CompareAndDelete { key, condition } => self.compare_and_delete(
                    key,
                    condition,
                ),
                Operation::RemoveDir { dir, recursive } => self.remove_dir(dir, recursive),
                Operation::IndexAppend { key, value } => self.index_append(key, value),
                Operation::IndexList { key } => self.index_list(key),
                Operation::Watch { key, wait_index: None } => self.watch(key),
                Operation::Watch { key, wait_index: Some(index) } => self.watch_from(key, index),
            },
        )
    }

    /// Decodes the result that a parsed body holds, and fills the three
    /// indices from the response headers; a header that is missing or does
    /// not parse gives zero.
    pub fn result_from_document(document: &JsonValue, headers: &Vec<(String, String)>) -> (r:
        Result<EtcdResult, EtcdError>)
        ensures
            yields(r, document_result(document@, pairs_view(headers@))),
    {
        let obj = match document.as_object() {
            Some(obj) => obj,
            None => {
                return Err(EtcdError::MalformedResponse);
            },
        };
        match EtcdResult::from_json(obj) {
            Ok(result) => Ok(
                EtcdResult {
                    action: result.action,
                    node: result.node,
                    previous_node: result.previous_node,
                    x_etcd_index: index_from_headers::<X_Etcd_Index>(headers),
                    x_raft_index: index_from_headers::<X_Raft_Index>(headers),
                    x_raft_term: index_from_headers::<X_Raft_Term>(headers),
                },
            ),
            Err(e) => Err(e),
        }
    }

    /// Turns a response into a result.
    ///
    /// A status outside the 2xx range gives `Unsuccessful` with the status,
    /// and the body is not looked at. A body that is not valid UTF-8 or not
    /// valid JSON gives `DecodeFailure`, and so does valid JSON beyond the
    /// limits of the parser: nested too deep, with member names too long,
    /// or with an exponent of too many digits. A body that is JSON but not
    /// an object that decodes gives `MalformedResponse`.
    pub fn to_etcd_result(response: &Response) -> (r: Result<EtcdResult, EtcdError>)
        ensures
            yields(r, response_result(response@)),
    {
        if response.status < 200 || response.status > 299 {
            return Err(EtcdError::Unsuccessful(response.status));
        }
        match JsonValue::from_bytes(response.body.as_slice()) {
            Ok(document) => EtcdClient::result_from_document(&document, &response.headers),
            Err(e) => Err(e),
        }
    }

    /// Turns the response to `op` into what `op` returns: the previous node
    /// for an operation that replaces or removes, the node for any other.
    pub fn complete(op: &Operation, response: &Response) -> (r: Result<Option<EtcdNode>, EtcdError>)
        ensures
            match response_answer(*op, response@) {
                Ok(node) => r matches Ok(n) && optional_node_view(n) == node,
                Err(error) => r matches Err(e) && e == error,
            },
    {
        match EtcdClient::to_etcd_result(response) {
            Ok(result) => if op.answers_with_previous() {
                Ok(result.previous_node)
            } else {
                Ok(result.node)
            },
            Err(e) => Err(e),
        }
    }
}

/// A response with a status outside the 2xx range gives `Unsuccessful`
/// with that status, for every operation and whatever the body and the
/// headers hold: never a decode error.
pub proof fn lemma_failure_status_is_unsuccessful(op: Operation, response: ResponseView)
    requires
        !is_success(response.status),
    ensures
        response_result(response) == Err::<ResultView, EtcdError>(
            EtcdError::Unsuccessful(response.status),
        ),
        response_answer(op, response) == Err::<Option<NodeView>, EtcdError>(
            EtcdError::Unsuccessful(response.status),
        ),
{
}

/// `Unsuccessful` comes from the status alone: a response gives it
/// exactly where its status is outside the 2xx range.
pub proof fn lemma_unsuccessful_only_by_status(response: ResponseView, status: u16)
    ensures
        response_result(response) == Err::<ResultView, EtcdError>(EtcdError::Unsuccessful(status))
            <==> !is_success(response.status) && status == response.status,
{
}

/// The store answered with success and the result object `obj`: the status
/// is of the 2xx range, and the body is a JSON object that decodes.
pub open spec fn answered_with(response: ResponseView, obj: Seq<(Seq<char>, JsonModel)>) -> bool {
    &&& is_success(response.status)
    &&& document_of_bytes(response.body) == Some(JsonModel::Object(obj))
    &&& decode_result(obj) is Some
}

/// Where the store answers a `set` with success and sends the node that the
/// key held before as `prevNode`, with the value `v1`, the operation
/// returns that previous node, whose value is `v1` and not the value that
/// was set.
pub proof fn lemma_set_returns_the_previous_value(
    key: &str,
    value: &str,
    response: ResponseView,
    obj: Seq<(Seq<char>, JsonModel)>,
    previous: Seq<(Seq<char>, JsonModel)>,
    v1: Seq<char>,
)
    requires
        answered_with(response, obj),
        lookup(obj, "prevNode"@) == Some(JsonModel::Object(previous)),
        string_member(previous, "value"@) == Some(v1),
    ensures
        response_answer(Operation::SetValue { key, value }, response) matches Ok(Some(p))
            && Some(p) == decode_node(previous) && p.value == Some(v1),
{
    lemma_result_nodes_are_as_sent(obj, "prevNode"@, previous);
    lemma_node_is_as_sent(previous);
}

/// Where the store answers a `remove_dir` with success and sends the
/// directory that it removed as `prevNode`, the operation returns that
/// previous node, which is a directory. Where the store refuses, as it does
/// for a directory that is not empty unless `recursive` is set, the status
/// is outside the 2xx range and the operation gives `Unsuccessful`, as
/// `lemma_failure_status_is_unsuccessful` states.
pub proof fn lemma_remove_dir_returns_the_removed_directory(
    dir: &str,
    recursive: bool,
    response: ResponseView,
    obj: Seq<(Seq<char>, JsonModel)>,
    previous: Seq<(Seq<char>, JsonModel)>,
)
    requires
        answered_with(response, obj),
        lookup(obj, "prevNode"@) == Some(JsonModel::Object(previous)),
        lookup(previous, "dir"@) == Some(JsonModel::Boolean(true)),
    ensures
        response_answer(Operation::RemoveDir { dir, recursive }, response) matches Ok(Some(p))
            && Some(p) == decode_node(previous) && p.dir,
{
    lemma_result_nodes_are_as_sent(obj, "prevNode"@, previous);
    lemma_node_is_as_sent(previous);
}

/// Where the store answers an `index_list` with success and sends the
/// directory with the items `items` as its `nodes`, the operation returns
/// the directory with as many children in the same order, each with the
/// value and the `createdIndex` of its item.
pub proof fn lemma_index_list_returns_the_children_in_order(
    key: &str,
    response: ResponseView,
    obj: Seq<(Seq<char>, JsonModel)>,
    node: Seq<(Seq<char>, JsonModel)>,
    items: Seq<JsonModel>,
)
    requires
        answered_with(response, obj),
        lookup(obj, "node"@) == Some(JsonModel::Object(node)),
        lookup(node, "nodes"@) == Some(JsonModel::Array(items)),
    ensures
        response_answer(Operation::IndexList { key }, response) matches Ok(Some(n)) && n.nodes
            matches Some(children) && children.len() == items.len() && forall|i: int|
            0 <= i < items.len() ==> {
                &&& children[i].value == sent_value(#[trigger] items[i])
                &&& Some(children[i].created_index) == sent_created_index(items[i])
            },
{
    lemma_result_nodes_are_as_sent(obj, "node"@, node);
    lemma_children_are_as_sent(node, items);
}

/// Where the store answers an `index_list` with success and sends the items
/// with strictly increasing `createdIndex`, as it does for what
/// `index_append` added, the children that the operation returns have
/// strictly increasing `created_index`.
pub proof fn lemma_index_list_keeps_increasing_indices(
    key: &str,
    response: ResponseView,
    obj: Seq<(Seq<char>, JsonModel)>,
    node: Seq<(Seq<char>, JsonModel)>,
    items: Seq<JsonModel>,
)
    requires
        answered_with(response, obj),
        lookup(obj, "node"@) == Some(JsonModel::Object(node)),
        lookup(node, "nodes"@) == Some(JsonModel::Array(items)),
        forall|i: int, j: int|
            0 <= i < j < items.len() ==> sent_created_index(#[trigger] items[i])->Some_0
                < sent_created_index(#[trigger] items[j])->Some_0,
    ensures
        response_answer(Operation::IndexList { key }, response) matches Ok(Some(n)) && n.nodes
            matches Some(children) && forall|i: int, j: int|
            0 <= i < j < children.len() ==> (#[trigger] children[i]).created_index
                < (#[trigger] children[j]).created_index,
{
    lemma_result_nodes_are_as_sent(obj, "node"@, node);
    lemma_children_keep_increasing_indices(node, items);
}

/// The body of `make_dir` is the text `dir=true`.
pub proof fn lemma_make_dir_sends_dir_true(client: EtcdClient, name: &str)
    ensures
        client.request_for(Operation::MakeDir { name }).body == Some("dir=true"@),
{
    reveal_strlit("dir");
    reveal_strlit("true");
    reveal_strlit("dir=true");
    lemma_form_component_plain("dir"@);
    lemma_form_component_plain("true"@);
    assert(form_urlencoded(seq![Param::Dir(true).pair()]) =~= "dir=true"@);
}

/// The body of a write that carries a value is `value=` and the form
/// encoding of the value; where every character of the value is one that
/// the encoding keeps, that is the value itself.
pub proof fn lemma_write_sends_the_value(client: EtcdClient, key: &str, value: &str)
    ensures
        client.request_for(Operation::SetValue { key, value }).body == Some(
            "value="@ + form_component(value@),
        ),
        client.request_for(Operation::IndexAppend { key, value }).body == Some(
            "value="@ + form_component(value@),
        ),
        form_plain(value@) ==> client.request_for(Operation::SetValue { key, value }).body
            == Some("value="@ + value@),
{
    reveal_strlit("value");
    reveal_strlit("value=");
    lemma_form_component_plain("value"@);
    assert(form_urlencoded(seq![Param::Value(value).pair()]) =~= "value="@ + form_component(
        value@,
    ));
    if form_plain(value@) {
        lemma_form_component_plain(value@);
    }
}

} // verus!
