//! Reading plugin configuration out of TOML tables.
//!
//! Destinations and engines are configured by free-form TOML tables. The
//! table type is opaque here; what a lookup of a given key returns is
//! named, and the initialization logic is verified against those names.

use vstd::prelude::*;

verus! {

#[verifier::external_type_specification]
#[verifier::external_body]
pub struct ExTomlValue(toml::Value);

/// The string stored under `key` in the table `v`, if any.
pub uninterp spec fn toml_str_field(v: &toml::Value, key: Seq<char>) -> Option<Seq<char>>;

/// The integer stored under `key` in the table `v`, if any.
pub uninterp spec fn toml_int_field(v: &toml::Value, key: Seq<char>) -> Option<i64>;

pub open spec fn opt_string_view(o: Option<String>) -> Option<Seq<char>> {
    match o {
        Option::Some(s) => Option::Some(s@),
        Option::None => Option::None,
    }
}

/// Relies on `toml::Value::get` followed by `toml::Value::as_str`: the
/// string under `key`, or nothing when the key is absent or not a string.
#[verifier::external_body]
pub fn get_str_field(v: &toml::Value, key: &str) -> (r: Option<String>)
    ensures
        opt_string_view(r) == toml_str_field(v, key@),
{
    v.get(key).and_then(|x| x.as_str()).map(|s| s.to_owned())
}

/// Relies on `toml::Value::get` followed by `toml::Value::as_integer`:
/// the integer under `key`, or nothing when the key is absent or not an
/// integer.
#[verifier::external_body]
pub fn get_int_field(v: &toml::Value, key: &str) -> (r: Option<i64>)
    ensures
        r == toml_int_field(v, key@),
{
    v.get(key).and_then(|x| x.as_integer())
}

} // verus!
