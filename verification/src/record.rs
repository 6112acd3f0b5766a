//! The in-memory model of one event-log record: a flattened document of
//! (field path, value) pairs plus the originating file path and the record's
//! precomputed text form.

use vstd::prelude::*;
use crate::strutil::str_eq;

verus! {

/// The structured document of one record: its fields, flattened to dotted
/// paths with text values, and its timestamp in seconds.
pub struct RecordData {
    pub fields: Vec<(String, String)>,
    pub timestamp: u64,
}

/// Holds the information of one record of an event file.
pub struct EvtxRecordInfo {
    /// Path of the event file the record came from; used in output.
    pub evtx_filepath: String,
    /// The record's structured document.
    pub record: RecordData,
    /// The record rendered as one flat string, for auxiliary matchers.
    pub data_string: String,
}

impl EvtxRecordInfo {
    pub fn new(evtx_filepath: String, record: RecordData, data_string: String) -> (r:
        EvtxRecordInfo)
        ensures
            r.evtx_filepath == evtx_filepath,
            r.record == record,
            r.data_string == data_string,
    {
        EvtxRecordInfo { evtx_filepath, record, data_string }
    }
}

/// The value of the first field named `name`, if any.
pub open spec fn field_value(fields: Seq<(String, String)>, name: Seq<char>) -> Option<Seq<char>>
    decreases fields.len(),
{
    if fields.len() == 0 {
        None
    } else if fields[0].0@ == name {
        Some(fields[0].1@)
    } else {
        field_value(fields.drop_first(), name)
    }
}

/// Looking a name up skips any prefix in which the name does not occur.
proof fn lemma_field_value_skip(fields: Seq<(String, String)>, name: Seq<char>, i: int)
    requires
        0 <= i <= fields.len(),
        forall|j: int| 0 <= j < i ==> fields[j].0@ != name,
    ensures
        field_value(fields, name) == field_value(fields.skip(i), name),
    decreases i,
{
    if i > 0 {
        lemma_field_value_skip(fields.drop_first(), name, i - 1);
        assert(fields.drop_first().skip(i - 1) =~= fields.skip(i));
    } else {
        assert(fields.skip(0) =~= fields);
    }
}

/// Look the first field named `name` up in a record's field list.
pub fn get_field_value(fields: &Vec<(String, String)>, name: &str) -> (r: Option<String>)
    ensures
        match r {
            Some(v) => field_value(fields@, name@) == Some(v@),
            None => field_value(fields@, name@) is None,
        },
{
    let n = fields.len();
    let mut i: usize = 0;
    while i < n
        invariant
            i <= n,
            n == fields@.len(),
            forall|j: int| 0 <= j < i ==> fields@[j].0@ != name@,
        decreases n - i,
    {
        if str_eq(fields[i].0.as_str(), name) {
            proof {
                lemma_field_value_skip(fields@, name@, i as int);
                assert(fields@.skip(i as int)[0] == fields@[i as int]);
            }
            return Some(fields[i].1.clone());
        }
        i = i + 1;
    }
    proof {
        lemma_field_value_skip(fields@, name@, n as int);
        assert(fields@.skip(n as int).len() == 0);
    }
    None
}

} // verus!
