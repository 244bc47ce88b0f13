//! Verified core of a small category/image HTTP API: the codec between typed
//! category records and schemaless store documents, the service operations on
//! a modelled document collection, and the multipart upload pipeline's state
//! machine. Network, filesystem and HTTP glue live outside the library.

use vstd::prelude::*;

pub mod category;
pub mod document;
pub mod error;
pub mod object_id;
pub mod services;
pub mod store;
pub mod upload;

verus! {

/// Success envelope returned by the HTTP layer: `success` is always true.
pub struct Res<T> {
    pub success: bool,
    pub data: Option<T>,
    pub msg: Option<String>,
}

impl<T> Res<T> {
    pub fn build(data: Option<T>, msg: Option<String>) -> (r: Res<T>)
        ensures
            r.success,
            r.data == data,
            r.msg == msg,
    {
        Res { success: true, data, msg }
    }
}

/// Failure envelope returned by the HTTP layer: `success` is always false
/// and no data is carried.
pub struct ErrRes {
    pub success: bool,
    pub msg: Option<String>,
}

impl ErrRes {
    pub fn build(msg: Option<String>) -> (r: ErrRes)
        ensures
            !r.success,
            r.msg == msg,
    {
        ErrRes { success: false, msg }
    }
}

} // verus!
