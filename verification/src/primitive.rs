//! Keys of the primitive store.

use vstd::prelude::*;

verus! {

/// The key under which a value without a name is kept.
pub const DEFAULT_KEY: &'static str = "default";

/// The key that `name` stands for: the name itself, or the default key
/// where there is none.
pub open spec fn key_or_default(name: Option<String>) -> Seq<char> {
    match name {
        Some(s) => s@,
        None => DEFAULT_KEY@,
    }
}

/// The key that `name` stands for.
pub fn get_key_or_default(name: &Option<String>) -> (r: &str)
    ensures
        r@ == key_or_default(*name),
{
    match name {
        None => DEFAULT_KEY,
        Some(s) => s.as_str(),
    }
}

} // verus!
