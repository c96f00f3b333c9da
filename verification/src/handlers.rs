//! Request handlers: each performs one table operation and says exactly
//! which API response every input yields.

use vstd::prelude::*;

use crate::table::KvTable;
use crate::table::insert_all;

verus! {

/// The fixed body of every "not found" failure response.
pub open spec fn not_found_error() -> Seq<char> {
    "Key not found"@
}

/// The fixed body of a successful delete response.
pub open spec fn deleted_message() -> Seq<char> {
    "Deleted"@
}

/// What a handler hands back: the status and the whole response body.
pub enum ApiResponse {
    /// Status 200 with a single `{key: value}` pair as the body.
    OkPair { key: String, value: String },
    /// Status 201, echoing the submitted pairs.
    Created { pairs: Vec<(String, String)> },
    /// Status 200 with `{"message": <message>}` as the body.
    Deleted { message: String },
    /// Status 404 with `{"error": <error>}` as the body.
    NotFound { error: String },
}

impl ApiResponse {
    /// The HTTP status this response is served with.
    pub open spec fn spec_status(&self) -> u16 {
        match self {
            ApiResponse::OkPair { .. } => 200,
            ApiResponse::Created { .. } => 201,
            ApiResponse::Deleted { .. } => 200,
            ApiResponse::NotFound { .. } => 404,
        }
    }

    /// The HTTP status as a value.
    pub fn status_code(&self) -> (r: u16)
        ensures
            r == self.spec_status(),
    {
        match self {
            ApiResponse::OkPair { .. } => 200,
            ApiResponse::Created { .. } => 201,
            ApiResponse::Deleted { .. } => 200,
            ApiResponse::NotFound { .. } => 404,
        }
    }
}

/// Read: looks `key` up. Present keys yield 200 with the pair; absent keys
/// yield 404 with the fixed error body. The table is not touched.
pub fn handle_get(table: &KvTable, key: &String) -> (r: ApiResponse)
    ensures
        table@.contains_key(key@) ==> (r matches ApiResponse::OkPair { key: k, value: v } && k@
            == key@ && v@ == table@[key@]),
        !table@.contains_key(key@) ==> (r matches ApiResponse::NotFound { error: e } && e@
            == not_found_error()),
{
    match table.get(key) {
        Some(v) => ApiResponse::OkPair { key: key.clone(), value: v.clone() },
        None => ApiResponse::NotFound { error: "Key not found".to_owned() },
    }
}

/// Create/Merge: applies `Set` for every submitted pair, then echoes the
/// submitted pairs back with status 201. Always succeeds, also on zero
/// pairs.
pub fn handle_post(table: &mut KvTable, pairs: Vec<(String, String)>) -> (r: ApiResponse)
    ensures
        final(table)@ == insert_all(old(table)@, pairs.deep_view()),
        (r matches ApiResponse::Created { pairs: p } && p == pairs),
{
    table.set_many(&pairs);
    ApiResponse::Created { pairs }
}

/// Update: overwrites the value only if `key` exists. Present keys yield
/// 200 with the new pair; absent keys leave the table unchanged and yield
/// 404 with the fixed error body.
pub fn handle_put(table: &mut KvTable, key: &String, value: String) -> (r: ApiResponse)
    ensures
        old(table)@.contains_key(key@) ==> final(table)@ == old(table)@.insert(key@, value@) && (
        r matches ApiResponse::OkPair { key: k, value: v } && k@ == key@ && v@ == value@),
        !old(table)@.contains_key(key@) ==> final(table)@ == old(table)@ && (
        r matches ApiResponse::NotFound { error: e } && e@ == not_found_error()),
{
    let value2 = value.clone();
    if table.update_if_exists(key, value) {
        ApiResponse::OkPair { key: key.clone(), value: value2 }
    } else {
        ApiResponse::NotFound { error: "Key not found".to_owned() }
    }
}

/// Delete: removes `key` if present, yielding 200 with the fixed deletion
/// message; absent keys leave the table unchanged and yield 404 with the
/// fixed error body.
pub fn handle_delete(table: &mut KvTable, key: &String) -> (r: ApiResponse)
    ensures
        old(table)@.contains_key(key@) ==> final(table)@ == old(table)@.remove(key@) && (
        r matches ApiResponse::Deleted { message: m } && m@ == deleted_message()),
        !old(table)@.contains_key(key@) ==> final(table)@ == old(table)@ && (
        r matches ApiResponse::NotFound { error: e } && e@ == not_found_error()),
{
    if table.remove(key) {
        ApiResponse::Deleted { message: "Deleted".to_owned() }
    } else {
        proof {
            assert(old(table)@.remove(key@) =~= old(table)@);
        }
        ApiResponse::NotFound { error: "Key not found".to_owned() }
    }
}

} // verus!
