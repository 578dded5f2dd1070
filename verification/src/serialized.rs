//! A provider that sources values from an already-structured value: it
//! expands an optional dot-delimited key path into nested dictionaries,
//! validates that the result is dictionary-shaped, and scopes it under a
//! profile.

use vstd::prelude::*;
use vstd::string::StrSliceExecFns;
use vstd::string::StringExecFns;

use crate::error::Error;
use crate::error::Metadata;
use crate::path::lemma_dot_index_unique;
use crate::path::lemma_wrap_path_dict;
use crate::path::lemma_wrap_path_passthrough;
use crate::path::lemma_wrap_path_wf;
use crate::path::wrap_path;
use crate::profile::Profile;
use crate::profile::ProfileMap;
use crate::value::kind_of;
use crate::value::val_wf;
use crate::value::Dict;
use crate::value::Val;
use crate::value::Value;

verus! {

broadcast use vstd::seq::group_seq_axioms;

/// A provider descriptor: binds a structured value, an optional key path and
/// a target profile. Producing data never mutates the descriptor.
#[derive(Debug)]
pub struct Serialized {
    /// The value to be emitted as the provided data.
    pub value: Value,
    /// The key path (`a.b.c`) to emit the value to, or the root if `None`.
    pub key: Option<String>,
    /// The profile to emit the value to.
    pub profile: Profile,
}

/// Wraps `value` in one dictionary level per non-empty `.`-separated segment
/// of `keys`, from the last segment inward to the first; empty segments pass
/// the value through unwrapped.
pub fn value_from(keys: &str, value: Value) -> (r: Value)
    ensures
        r@ == wrap_path(keys@, value@),
    decreases keys@.len(),
{
    let n = keys.unicode_len();
    if n == 0 {
        return value;
    }
    let mut i: usize = 0;
    while i < n && keys.get_char(i) != '.'
        invariant
            i <= n,
            n == keys@.len(),
            forall|k: int| 0 <= k < i ==> keys@[k] != '.',
        decreases n - i,
    {
        i += 1;
    }
    proof {
        lemma_dot_index_unique(keys@, i as int);
    }
    let inner: Value = if i < n {
        let rest = keys.substring_char(i + 1, n);
        proof {
            assert(rest@ =~= keys@.skip(i + 1));
        }
        value_from(rest, value)
    } else {
        value
    };
    let ghost gi = inner@;
    if i == 0 {
        inner
    } else {
        let seg = keys.substring_char(0, i);
        proof {
            assert(seg@ =~= keys@.take(i as int));
        }
        let mut dict = Dict::new();
        dict.insert(String::from_str(seg), inner);
        proof {
            assert(dict@ =~= seq![(keys@.take(i as int), gi)]);
            if i == n {
                assert(keys@.take(i as int) =~= keys@);
            }
        }
        Value::Dict(dict)
    }
}

/// The value a descriptor's data production validates: the held value after
/// key-path expansion, or the held value itself when no path is set.
pub open spec fn output_val(s: Serialized) -> Val {
    match s.key {
        Some(k) => wrap_path(k@, s.value@),
        None => s.value@,
    }
}

/// Everything data production promises of its result: it succeeds exactly
/// when the expanded value is dictionary-shaped, a success is the one-entry
/// mapping from the profile's name to that dictionary, and a failure is a
/// shape mismatch naming the held value's shape and expecting `"map"`.
pub open spec fn data_post(s: Serialized, r: Result<ProfileMap, Error>) -> bool {
    &&& (r is Ok <==> output_val(s) is Dict)
    &&& (r matches Ok(m) ==> m@ == seq![(s.profile.name_spec(), output_val(s)->Dict_0)])
    &&& (r matches Err(e) ==> e matches Error::TypeMismatch { actual, expected } && actual@
        == kind_of(s.value@) && expected@ == "map"@)
}

impl Serialized {
    /// Constructs an (unkeyed) provider that emits `value` to `profile`.
    pub fn from(value: Value, profile: Profile) -> (s: Serialized)
        ensures
            s.value == value,
            s.key is None,
            s.profile == profile,
    {
        Serialized { value, key: None, profile }
    }

    /// Emits `value`, which must be dictionary-shaped, to the `"default"`
    /// profile.
    pub fn defaults(value: Value) -> (s: Serialized)
        ensures
            s.value == value,
            s.key is None,
            s.profile == Profile::Default,
    {
        Self::from(value, Profile::Default)
    }

    /// Emits `value`, which must be dictionary-shaped, to the `"global"`
    /// profile.
    pub fn globals(value: Value) -> (s: Serialized)
        ensures
            s.value == value,
            s.key is None,
            s.profile == Profile::Global,
    {
        Self::from(value, Profile::Global)
    }

    /// Emits a nested dictionary to the `"default"` profile keyed by `key`,
    /// with the final path segment mapping to `value`.
    pub fn default(key: &str, value: Value) -> (s: Serialized)
        ensures
            s.value == value,
            s.key matches Some(k) && k@ == key@,
            s.profile == Profile::Default,
    {
        Self::from(value, Profile::Default).key(key)
    }

    /// Emits a nested dictionary to the `"global"` profile keyed by `key`,
    /// with the final path segment mapping to `value`.
    pub fn global(key: &str, value: Value) -> (s: Serialized)
        ensures
            s.value == value,
            s.key matches Some(k) && k@ == key@,
            s.profile == Profile::Global,
    {
        Self::from(value, Profile::Global).key(key)
    }

    /// Returns the descriptor with the profile replaced; the value and the
    /// key path are untouched.
    pub fn profile(self, profile: Profile) -> (s: Serialized)
        ensures
            s.value == self.value,
            s.key == self.key,
            s.profile == profile,
    {
        Serialized { profile, ..self }
    }

    /// Returns the descriptor with the key path set or replaced; the value
    /// and the profile are untouched.
    pub fn key(self, key: &str) -> (s: Serialized)
        ensures
            s.value == self.value,
            s.key matches Some(k) && k@ == key@,
            s.profile == self.profile,
    {
        Serialized { key: Some(String::from_str(key)), ..self }
    }

    /// Describes this provider: named after the shape of the held value.
    pub fn metadata(&self) -> (m: Metadata)
        ensures
            m.name@ == kind_of(self.value@),
    {
        Metadata { name: self.value.kind_name() }
    }

    /// Produces the provider's data: expands the key path around a copy of
    /// the held value, validates that the result is dictionary-shaped, and
    /// scopes it under the profile. Never mutates the descriptor.
    pub fn data(&self) -> (r: Result<ProfileMap, Error>)
        ensures
            data_post(*self, r),
    {
        let value = self.value.clone();
        let actual = value.kind_name();
        let wrapped = match &self.key {
            Some(key) => value_from(key.as_str(), value),
            None => value,
        };
        proof {
            assert(wrapped@ == output_val(*self));
        }
        match wrapped.into_dict() {
            Some(dict) => Ok(self.profile.clone().collect(dict)),
            None => Err(
                Error::TypeMismatch { actual, expected: String::from_str("map") },
            ),
        }
    }
}

impl Clone for Serialized {
    /// The copy binds a value with the same model, the same key path and the
    /// same profile.
    fn clone(&self) -> (r: Self)
        ensures
            r.value@ == self.value@,
            r.key == self.key,
            r.profile == self.profile,
    {
        let key = match &self.key {
            Some(k) => Some(k.clone()),
            None => None,
        };
        Serialized { value: self.value.clone(), key, profile: self.profile.clone() }
    }
}

/// With no key path and a dictionary-shaped value, the produced mapping is
/// exactly the value's dictionary under the descriptor's profile.
pub proof fn lemma_unkeyed_dict(s: Serialized, r: Result<ProfileMap, Error>)
    requires
        s.key is None,
        s.value@ is Dict,
        data_post(s, r),
    ensures
        r matches Ok(m) && m@ == seq![(s.profile.name_spec(), s.value@->Dict_0)],
{
}

/// With no key path and a value that is not dictionary-shaped, production
/// fails with a shape mismatch naming the value's shape and expecting a map.
pub proof fn lemma_unkeyed_mismatch(s: Serialized, r: Result<ProfileMap, Error>)
    requires
        s.key is None,
        !(s.value@ is Dict),
        data_post(s, r),
    ensures
        r matches Err(e) && e matches Error::TypeMismatch { actual, expected } && actual@
            == kind_of(s.value@) && expected@ == "map"@,
{
}

/// With a key path holding at least one non-delimiter character, production
/// succeeds for a value of any shape, and the mapping nests the value under
/// the path's non-empty segments.
pub proof fn lemma_keyed_ok(s: Serialized, r: Result<ProfileMap, Error>)
    requires
        s.key is Some,
        exists|j: int| 0 <= j < s.key->0@.len() && s.key->0@[j] != '.',
        data_post(s, r),
    ensures
        r matches Ok(m) && m@ == seq![
            (s.profile.name_spec(), wrap_path(s.key->0@, s.value@)->Dict_0),
        ],
{
    lemma_wrap_path_dict(s.key->0@, s.value@);
}

/// A key path of only delimiters (or an empty one) is a pass-through:
/// production behaves exactly as it does with no key path at all.
pub proof fn lemma_degenerate_key(s: Serialized, r: Result<ProfileMap, Error>)
    requires
        s.key is Some,
        forall|j: int| 0 <= j < s.key->0@.len() ==> s.key->0@[j] == '.',
        data_post(s, r),
    ensures
        data_post((Serialized { value: s.value, key: None, profile: s.profile }), r),
{
    lemma_wrap_path_passthrough(s.key->0@, s.value@);
}

/// Replacing the profile does not change the expanded value: the profile
/// only names the layer the dictionary is scoped under.
pub proof fn lemma_profile_independent(s: Serialized, p: Profile)
    ensures
        output_val((Serialized { value: s.value, key: s.key, profile: p })) == output_val(s),
{
}

/// A produced mapping never holds a dictionary with duplicate keys: each
/// expansion level is a fresh single-entry dictionary, so with a well-formed
/// value every dictionary in the result is well formed too.
pub proof fn lemma_data_wf(s: Serialized, r: Result<ProfileMap, Error>)
    requires
        val_wf(s.value@),
        data_post(s, r),
    ensures
        r matches Ok(m) ==> val_wf(Val::Dict(m@[0].1)),
{
    if s.key is Some {
        lemma_wrap_path_wf(s.key->0@, s.value@);
    }
}

/// Data production is deterministic: any two results the contract allows for
/// one descriptor are structurally the same mapping, or the same error.
pub proof fn lemma_data_deterministic(
    s: Serialized,
    r1: Result<ProfileMap, Error>,
    r2: Result<ProfileMap, Error>,
)
    requires
        data_post(s, r1),
        data_post(s, r2),
    ensures
        r1 is Ok <==> r2 is Ok,
        r1 matches Ok(m1) ==> r2 matches Ok(m2) && m1@ == m2@,
        r1 matches Err(e1) ==> r2 matches Err(e2) && e1 matches Error::TypeMismatch {
            actual: a1,
            expected: x1,
        } && e2 matches Error::TypeMismatch { actual: a2, expected: x2 } && a1@ == a2@ && x1@
            == x2@,
{
}

} // verus!
