//! Conditions on the properties of an object, as in PipeWire match rules:
//! a condition holds when every property it names has the value it gives.

use vstd::prelude::*;

use crate::config::property_key::PropertyKey;
use crate::config::tag::Tag;
use crate::property_store::opt_text;
use crate::state::State;
use crate::text::str_eq;

verus! {

/// The value that a property must have.
#[derive(Debug, PartialEq, Eq)]
pub enum MatchValue {
    Literal(String),
}

pub open spec fn match_text(v: MatchValue) -> Seq<char> {
    match v {
        MatchValue::Literal(s) => s@,
    }
}

/// Properties and the values they must all have.
#[derive(Debug, PartialEq, Eq)]
pub struct MatchCondition(pub Vec<(PropertyKey, MatchValue)>);

/// Something whose properties, and those of the objects linked to it, can
/// be looked up.
pub trait PropertyResolver {
    /// The value of a tag for this object.
    spec fn tag_value(&self, state: &State, tag: Tag) -> Option<Seq<char>>;

    /// The value of a property key for this object.
    spec fn key_value(&self, state: &State, key: PropertyKey) -> Option<Seq<char>>;

    fn resolve_key(&self, state: &State, tag: Tag) -> (value: Option<String>)
        ensures
            opt_text(value) == self.tag_value(state, tag),
    ;

    fn resolve_property(&self, state: &State, key: &PropertyKey) -> (value: Option<String>)
        ensures
            opt_text(value) == self.key_value(state, *key),
    ;
}

/// Every property of the condition has the value it gives.
pub open spec fn condition_holds<T: PropertyResolver>(c: MatchCondition, r: &T, state: &State) -> bool {
    forall|i: int|
        0 <= i < c.0@.len() ==> r.key_value(state, (#[trigger] c.0@[i]).0) == Some(
            match_text(c.0@[i].1),
        )
}

impl MatchCondition {
    pub fn matches<T: PropertyResolver>(&self, state: &State, resolver: &T) -> (m: bool)
        ensures
            m == condition_holds(*self, resolver, state),
    {
        let mut i: usize = 0;
        while i < self.0.len()
            invariant
                i <= self.0.len(),
                forall|j: int|
                    0 <= j < i ==> resolver.key_value(state, (#[trigger] self.0@[j]).0) == Some(
                        match_text(self.0@[j].1),
                    ),
            decreases self.0.len() - i,
        {
            let (key, value) = &self.0[i];
            let MatchValue::Literal(expected) = value;
            let found = resolver.resolve_property(state, key);
            let ok = match &found {
                Some(v) => str_eq(v.as_str(), expected.as_str()),
                None => false,
            };
            if !ok {
                return false;
            }
            i += 1;
        }
        true
    }
}

} // verus!
