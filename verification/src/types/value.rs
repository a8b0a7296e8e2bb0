//! JSON values as the library builds and reads them.
use vstd::prelude::*;

verus! {

/// A JSON value; numbers keep their text, object members their order.
#[derive(Debug)]
pub enum Json {
    Null,
    Bool(bool),
    Number(String),
    Str(String),
    Array(Vec<Json>),
    Object(Vec<(String, Json)>),
}

} // verus!
