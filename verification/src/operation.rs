//! The operations on the store, and what each one sends and returns.

use vstd::prelude::*;
use crate::request::{AtomicOp, Method, Param};
use crate::text::pairs_view;

verus! {

/// One operation on the store.
#[derive(Debug, Clone, Copy, PartialEq, Eq)]
pub enum Operation<'a> {
    /// Reads a key or a directory.
    Get { key: &'a str },
    /// Reads a directory; the same request as `Get`.
    List { dir: &'a str },
    /// Sets the value of a key, whatever it held.
    SetValue { key: &'a str, value: &'a str },
    /// Sets the value of a key where `condition` holds of it.
    CompareAndSwap { key: &'a str, value: &'a str, condition: AtomicOp<'a> },
    /// Creates an empty directory.
    MakeDir { name: &'a str },
    /// Removes a key.
    Remove { key: &'a str },
    /// Removes a key where `condition` holds of it.
    CompareAndDelete { key: &'a str, condition: AtomicOp<'a> },
    /// Removes a directory, with what it holds where `recursive` is set.
    RemoveDir { dir: &'a str, recursive: bool },
    /// Adds a value under a directory; the store picks the next key in
    /// order.
    IndexAppend { key: &'a str, value: &'a str },
    /// Lists what was added under a directory, in the order of the keys.
    IndexList { key: &'a str },
    /// Waits for a change at or under a key: for the next one, or for the
    /// first one from `wait_index` on.
    Watch { key: &'a str, wait_index: Option<u64> },
}

impl<'a> Operation<'a> {
    /// The key or directory that the operation is about.
    pub open spec fn path(self) -> Seq<char> {
        match self {
            Operation::Get { key } => key@,
            Operation::List { dir } => dir@,
            Operation::SetValue { key, .. } => key@,
            Operation::CompareAndSwap { key, .. } => key@,
            Operation::MakeDir { name } => name@,
            Operation::Remove { key } => key@,
            Operation::CompareAndDelete { key, .. } => key@,
            Operation::RemoveDir { dir, .. } => dir@,
            Operation::IndexAppend { key, .. } => key@,
            Operation::IndexList { key } => key@,
            Operation::Watch { key, .. } => key@,
        }
    }

    /// The HTTP method of the operation.
    pub open spec fn method(self) -> Method {
        match self {
            Operation::Get { .. } => Method::Get,
            Operation::List { .. } => Method::Get,
            Operation::SetValue { .. } => Method::Put,
            Operation::CompareAndSwap { .. } => Method::Put,
            Operation::MakeDir { .. } => Method::Put,
            Operation::Remove { .. } => Method::Delete,
            Operation::CompareAndDelete { .. } => Method::Delete,
            Operation::RemoveDir { .. } => Method::Delete,
            Operation::IndexAppend { .. } => Method::Post,
            Operation::IndexList { .. } => Method::Get,
            Operation::Watch { .. } => Method::Get,
        }
    }

    /// The parameters that go into the query of the URL, in order.
    pub open spec fn query(self) -> Seq<(Seq<char>, Seq<char>)> {
        match self {
            Operation::CompareAndSwap { condition, .. } => seq![condition.pair()],
            Operation::CompareAndDelete { condition, .. } => seq![condition.pair()],
            Operation::RemoveDir { recursive, .. } => seq![
                Param::Dir(true).pair(),
                Param::Recursive(recursive).pair(),
            ],
            Operation::IndexList { .. } => seq![
                Param::Recursive(true).pair(),
                Param::Sorted(true).pair(),
            ],
            Operation::Watch { wait_index: None, .. } => seq![Param::Wait(true).pair()],
            Operation::Watch { wait_index: Some(index), .. } => seq![
                Param::Wait(true).pair(),
                Param::WaitIndex(index).pair(),
            ],
            _ => seq![],
        }
    }

    /// The parameters that go into the form-encoded body, for an operation
    /// that has one.
    pub open spec fn form(self) -> Option<Seq<(Seq<char>, Seq<char>)>> {
        match self {
            Operation::SetValue { value, .. } => Some(seq![Param::Value(value).pair()]),
            Operation::CompareAndSwap { value, .. } => Some(seq![Param::Value(value).pair()]),
            Operation::MakeDir { .. } => Some(seq![Param::Dir(true).pair()]),
            Operation::IndexAppend { value, .. } => Some(seq![Param::Value(value).pair()]),
            _ => None,
        }
    }

    /// Whether the operation returns the node as it was before, rather than
    /// the node as it is after.
    pub open spec fn returns_previous(self) -> bool {
        match self {
            Operation::SetValue { .. } => true,
            Operation::CompareAndSwap { .. } => true,
            Operation::Remove { .. } => true,
            Operation::CompareAndDelete { .. } => true,
            Operation::RemoveDir { .. } => true,
            _ => false,
        }
    }

    /// The key or directory that the operation is about.
    pub fn key(&self) -> (r: &'a str)
        ensures
            r@ == self.path(),
    {
        match *self {
            Operation::Get { key } => key,
            Operation::List { dir } => dir,
            Operation::SetValue { key, .. } => key,
            Operation::CompareAndSwap { key, .. } => key,
            Operation::MakeDir { name } => name,
            Operation::Remove { key } => key,
            Operation::CompareAndDelete { key, .. } => key,
            Operation::RemoveDir { dir, .. } => dir,
            Operation::IndexAppend { key, .. } => key,
            Operation::IndexList { key } => key,
            Operation::Watch { key, .. } => key,
        }
    }

    /// The parameters that go into the query of the URL, in order.
    pub fn query_params(&self) -> (r: Vec<(String, String)>)
        ensures
            pairs_view(r@) == self.query(),
    {
        let params = match *self {
            Operation::CompareAndSwap { condition, .. } => vec![condition.into()],
            Operation::CompareAndDelete { condition, .. } => vec![condition.into()],
            Operation::RemoveDir { recursive, .. } => vec![
                Param::Dir(true).into(),
                Param::Recursive(recursive).into(),
            ],
            Operation::IndexList { .. } => vec![
                Param::Recursive(true).into(),
                Param::Sorted(true).into(),
            ],
            Operation::Watch { wait_index: None, .. } => vec![Param::Wait(true).into()],
            Operation::Watch { wait_index: Some(index), .. } => vec![
                Param::Wait(true).into(),
                Param::WaitIndex(index).into(),
            ],
            _ => Vec::new(),
        };
        assert(pairs_view(params@) =~= self.query());
        params
    }

    /// Whether the operation returns the node as it was before, rather than
    /// the node as it is after.
    pub fn answers_with_previous(&self) -> (r: bool)
        ensures
            r == self.returns_previous(),
    {
        match self {
            Operation::SetValue { .. } => true,
            Operation::CompareAndSwap { .. } => true,
            Operation::Remove { .. } => true,
            Operation::CompareAndDelete { .. } => true,
            Operation::RemoveDir { .. } => true,
            _ => false,
        }
    }
}

} // verus!
