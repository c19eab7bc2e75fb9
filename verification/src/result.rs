//! The uniform envelope the service answers with.

use vstd::prelude::*;

verus! {

/// One answer: a status code, an optional payload and a message.
#[derive(Debug)]
pub struct JsonResult<T> {
    pub code: i32,
    pub data: Option<T>,
    pub msg: String,
}

impl<T> JsonResult<T> {
    /// An answer with the given parts.
    pub fn new(code: i32, data: Option<T>, msg: String) -> (r: JsonResult<T>)
        ensures
            r.code == code,
            r.data == data,
            r.msg@ == msg@,
    {
        JsonResult { code, data, msg }
    }

    /// A successful answer: code 200 and an empty message.
    pub fn ok(data: Option<T>) -> (r: JsonResult<T>)
        ensures
            r.code == 200,
            r.data == data,
            r.msg@.len() == 0,
    {
        Self::new(200, data, String::new())
    }

    /// A failed answer: code 500, no payload, the given message.
    pub fn err(msg: String) -> (r: JsonResult<T>)
        ensures
            r.code == 500,
            r.data is None,
            r.msg@ == msg@,
    {
        Self::new(500, None, msg)
    }
}

} // verus!
