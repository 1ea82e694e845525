use vstd::prelude::*;
use crate::errors::IngestionError;
use crate::node::Base;

verus! {

/// Adopts the record set of a base source.
///
/// A problem instance has exactly one base: the first record becomes
/// the catalogue's base entity, and an empty record set is an ingestion
/// error, so no core object is constructed from nothing.
pub fn base_from_records(records: Vec<Base>) -> (r: Result<Base, IngestionError>)
    ensures
        (r is Ok) <==> records@.len() > 0,
        records@.len() == 0 ==> r == Err::<Base, IngestionError>(IngestionError::EmptyInput),
        r matches Ok(b) ==> b == records@[0],
{
    let mut records = records;
    if records.len() == 0 {
        return Err(IngestionError::EmptyInput);
    }
    Ok(records.remove(0))
}

} // verus!
