//! Operations: the atomic, immutable change records of the log.

use crate::json::clone_value;
use crate::sync::timestamp::NTP64;
use serde_json::Value;
use uuid::Uuid;
use vstd::prelude::*;

verus! {

/// What an operation does to its record.
#[derive(Debug, PartialEq, Eq)]
pub enum CRDTOperationData {
    /// Creates the record with the given fields.
    Create(Vec<(String, Value)>),
    /// Sets one field of the record.
    Update { field: String, value: Value },
    /// Deletes the record.
    Delete,
}

/// The mathematical value of a payload.
pub enum DataView {
    Create(Seq<(Seq<char>, Value)>),
    Update { field: Seq<char>, value: Value },
    Delete,
}

/// The fields of a record as a sequence of (name, value) pairs.
pub open spec fn fields_view(fields: Seq<(String, Value)>) -> Seq<(Seq<char>, Value)> {
    Seq::new(fields.len(), |i: int| (fields[i].0@, fields[i].1))
}

impl View for CRDTOperationData {
    type V = DataView;

    open spec fn view(&self) -> DataView {
        match self {
            CRDTOperationData::Create(fields) => DataView::Create(fields_view(fields@)),
            CRDTOperationData::Update { field, value } => DataView::Update {
                field: field@,
                value: *value,
            },
            CRDTOperationData::Delete => DataView::Delete,
        }
    }
}

/// A copy of a record's fields.
pub fn clone_fields(fields: &Vec<(String, Value)>) -> (copy: Vec<(String, Value)>)
    ensures
        fields_view(copy@) == fields_view(fields@),
{
    let mut copy: Vec<(String, Value)> = Vec::new();
    let mut i: usize = 0;
    while i < fields.len()
        invariant
            0 <= i <= fields.len(),
            copy.len() == i,
            forall|j: int| 0 <= j < i ==> copy[j].0@ == fields[j].0@ && copy[j].1 == fields[j].1,
        decreases fields.len() - i,
    {
        let name = fields[i].0.clone();
        let value = clone_value(&fields[i].1);
        copy.push((name, value));
        i = i + 1;
    }
    proof {
        assert(fields_view(copy@) =~= fields_view(fields@));
    }
    copy
}

impl Clone for CRDTOperationData {
    fn clone(&self) -> (copy: Self)
        ensures
            copy@ == self@,
    {
        match self {
            CRDTOperationData::Create(fields) => CRDTOperationData::Create(clone_fields(fields)),
            CRDTOperationData::Update { field, value } => CRDTOperationData::Update {
                field: field.clone(),
                value: clone_value(value),
            },
            CRDTOperationData::Delete => CRDTOperationData::Delete,
        }
    }
}

/// One change to one record, made by one instance.
#[derive(Debug, PartialEq, Eq)]
pub struct CRDTOperation {
    /// The instance that made the change.
    pub instance: Uuid,
    /// The logical time at which that instance made it.
    pub timestamp: NTP64,
    /// The operation's own identifier.
    pub id: Uuid,
    /// The collection that the record belongs to.
    pub model: String,
    /// The record's identifier.
    pub record_id: Value,
    /// The change.
    pub data: CRDTOperationData,
}

/// The mathematical value of an operation.
pub struct OperationView {
    pub instance: Uuid,
    pub timestamp: u64,
    pub id: Uuid,
    pub model: Seq<char>,
    pub record_id: Value,
    pub data: DataView,
}

impl View for CRDTOperation {
    type V = OperationView;

    open spec fn view(&self) -> OperationView {
        OperationView {
            instance: self.instance,
            timestamp: self.timestamp@,
            id: self.id,
            model: self.model@,
            record_id: self.record_id,
            data: self.data@,
        }
    }
}

impl Clone for CRDTOperation {
    fn clone(&self) -> (copy: Self)
        ensures
            copy@ == self@,
    {
        CRDTOperation {
            instance: self.instance,
            timestamp: self.timestamp,
            id: self.id,
            model: self.model.clone(),
            record_id: clone_value(&self.record_id),
            data: self.data.clone(),
        }
    }
}

/// The values of a sequence of operations, in order.
pub open spec fn ops_view(ops: Seq<CRDTOperation>) -> Seq<OperationView> {
    Seq::new(ops.len(), |i: int| ops[i]@)
}

} // verus!
