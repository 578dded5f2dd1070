//! Profile identifiers: named configuration layers, and the profile-scoped
//! mapping a provider produces.

use vstd::prelude::*;
use vstd::string::StringExecFns;

use crate::value::str_eq;
use crate::value::Dict;
use crate::value::Val;

verus! {

/// A named configuration layer. Identifiers are case-sensitive strings; two
/// profiles name the same layer exactly when their names are equal.
#[derive(Debug)]
pub enum Profile {
    /// The reserved `"default"` layer.
    Default,
    /// The reserved `"global"` layer.
    Global,
    /// A user-defined layer.
    Custom(String),
}

impl Profile {
    /// The name of this profile.
    pub open spec fn name_spec(self) -> Seq<char> {
        match self {
            Profile::Default => "default"@,
            Profile::Global => "global"@,
            Profile::Custom(s) => s@,
        }
    }

    /// A profile is canonical when a reserved name is held as the reserved
    /// variant rather than as a custom one.
    pub open spec fn wf(self) -> bool {
        self matches Profile::Custom(s) ==> s@ != "default"@ && s@ != "global"@
    }

    /// Makes the profile named `name`; a reserved name yields the reserved
    /// profile.
    pub fn new(name: &str) -> (p: Profile)
        ensures
            p.name_spec() == name@,
            p.wf(),
    {
        if str_eq(name, "default") {
            Profile::Default
        } else if str_eq(name, "global") {
            Profile::Global
        } else {
            Profile::Custom(String::from_str(name))
        }
    }

    /// The name of this profile.
    pub fn name(&self) -> (r: &str)
        ensures
            r@ == self.name_spec(),
    {
        match self {
            Profile::Default => "default",
            Profile::Global => "global",
            Profile::Custom(s) => s.as_str(),
        }
    }

    /// Scopes `dict` under this profile: the mapping holding the one entry
    /// from this profile's name to the dictionary.
    pub fn collect(self, dict: Dict) -> (m: ProfileMap)
        ensures
            m@ == seq![(self.name_spec(), dict@)],
    {
        let ghost gn = self.name_spec();
        let ghost gd = dict@;
        let mut entries: Vec<(Profile, Dict)> = Vec::new();
        entries.push((self, dict));
        let m = ProfileMap { entries };
        proof {
            assert(m@ =~= seq![(gn, gd)]);
        }
        m
    }
}

impl Clone for Profile {
    /// The copy names the same layer.
    fn clone(&self) -> (r: Self)
        ensures
            r == *self,
    {
        match self {
            Profile::Default => Profile::Default,
            Profile::Global => Profile::Global,
            Profile::Custom(s) => Profile::Custom(s.clone()),
        }
    }
}

impl PartialEq for Profile {
    /// Two profiles are equal exactly when their names are equal.
    fn eq(&self, other: &Profile) -> bool {
        str_eq(self.name(), other.name())
    }
}

impl vstd::std_specs::cmp::PartialEqSpecImpl for Profile {
    open spec fn obeys_eq_spec() -> bool {
        true
    }

    open spec fn eq_spec(&self, other: &Profile) -> bool {
        self.name_spec() == other.name_spec()
    }
}

/// A mapping from profile names to dictionaries: the shape a provider hands
/// to a configuration merge engine.
#[derive(Debug, PartialEq)]
pub struct ProfileMap {
    entries: Vec<(Profile, Dict)>,
}

impl ProfileMap {
    /// The ordered sequence of profile-name-to-dictionary bindings this
    /// mapping holds.
    pub closed spec fn model(self) -> Seq<(Seq<char>, Seq<(Seq<char>, Val)>)> {
        Seq::new(
            self.entries@.len(),
            |i: int| (self.entries@[i].0.name_spec(), self.entries@[i].1@),
        )
    }

    /// The number of profiles bound.
    pub fn len(&self) -> (n: usize)
        ensures
            n == self@.len(),
    {
        self.entries.len()
    }

    /// The dictionary bound to the profile named `name`, if any.
    pub fn get(&self, name: &str) -> (r: Option<&Dict>)
        ensures
            match r {
                Some(d) => exists|i: int|
                    0 <= i < self@.len() && self@[i].0 == name@ && self@[i].1 == d@,
                None => forall|i: int| 0 <= i < self@.len() ==> self@[i].0 != name@,
            },
    {
        let mut j: usize = 0;
        while j < self.entries.len()
            invariant
                j <= self.entries.len(),
                self.entries.len() == self@.len(),
                forall|t: int| 0 <= t < j ==> self@[t].0 != name@,
            decreases self.entries.len() - j,
        {
            proof {
                assert(self@[j as int]
                    == (self.entries@[j as int].0.name_spec(), self.entries@[j as int].1@));
            }
            if str_eq(self.entries[j].0.name(), name) {
                return Some(&self.entries[j].1);
            }
            j += 1;
        }
        None
    }
}

impl View for ProfileMap {
    type V = Seq<(Seq<char>, Seq<(Seq<char>, Val)>)>;

    open spec fn view(&self) -> Seq<(Seq<char>, Seq<(Seq<char>, Val)>)> {
        self.model()
    }
}

} // verus!
