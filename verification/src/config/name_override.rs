//! Overrides as the configuration writes them: either the conditions of
//! PipeWire match rules (`matches`), or a single property and the value it
//! must have (`property` and `value`, the older form).

use vstd::prelude::*;

use crate::config::matching::{MatchCondition, MatchValue};
use crate::config::name_template::NameTemplate;
use crate::config::property_key::PropertyKey;
use crate::config::{NameOverride, OverrideType};

verus! {

/// An override with the fields of both forms, each possibly missing.
#[derive(Debug)]
pub struct NameOverrideRaw {
    pub types: Vec<OverrideType>,
    pub property: Option<PropertyKey>,
    pub value: Option<String>,
    pub matches: Option<Vec<MatchCondition>>,
    pub templates: Vec<NameTemplate>,
}

/// Why an override was refused.
pub open spec fn raw_error(raw: NameOverrideRaw) -> Option<Seq<char>> {
    match (raw.matches, raw.property, raw.value) {
        (Some(_), None, None) => None,
        (None, Some(_), Some(_)) => None,
        (None, None, None) => Some("must specify either `matches` or `property`/`value`"@),
        (Some(_), _, _) => Some("cannot specify both `matches` and `property`/`value`"@),
        (None, Some(_), None) => Some("`property` requires `value`"@),
        (None, None, Some(_)) => Some("`value` requires `property`"@),
    }
}

/// What building an override from `raw` gives.
pub open spec fn from_raw_outcome(raw: NameOverrideRaw, result: Result<NameOverride, String>) -> bool {
    match result {
        Ok(o) => {
            &&& raw_error(raw) is None
            &&& o.types == raw.types
            &&& o.templates == raw.templates
            &&& match raw.matches {
                Some(m) => o.matches == m,
                None => o.matches@.len() == 1 && o.matches@[0].0@ == seq![
                    (raw.property.unwrap(), MatchValue::Literal(raw.value.unwrap())),
                ],
            }
        },
        Err(message) => raw_error(raw) == Some(message@),
    }
}

impl NameOverride {
    /// Builds an override from either form; the older form becomes a single
    /// condition on its property. Refuses both forms at once, neither, and
    /// a property without a value or a value without a property.
    pub fn from_raw(raw: NameOverrideRaw) -> (result: Result<NameOverride, String>)
        ensures
            from_raw_outcome(raw, result),
    {
        let ghost g = raw;
        let NameOverrideRaw { types, property, value, matches, templates } = raw;
        let matches = match (matches, property, value) {
            (Some(matches), None, None) => matches,
            (None, Some(property), Some(value)) => {
                let mut pairs: Vec<(PropertyKey, MatchValue)> = Vec::new();
                pairs.push((property, MatchValue::Literal(value)));
                let mut conditions: Vec<MatchCondition> = Vec::new();
                conditions.push(MatchCondition(pairs));
                assert(conditions@[0].0@ =~= seq![
                    (g.property.unwrap(), MatchValue::Literal(g.value.unwrap())),
                ]);
                conditions
            },
            (None, None, None) => {
                return Err(String::from_str("must specify either `matches` or `property`/`value`"));
            },
            (Some(_), Some(_), _) => {
                return Err(String::from_str("cannot specify both `matches` and `property`/`value`"));
            },
            (Some(_), _, Some(_)) => {
                return Err(String::from_str("cannot specify both `matches` and `property`/`value`"));
            },
            (None, Some(_), None) => {
                return Err(String::from_str("`property` requires `value`"));
            },
            (None, None, Some(_)) => {
                return Err(String::from_str("`value` requires `property`"));
            },
        };
        Ok(NameOverride { types, matches, templates })
    }
}

/// The older form is the newer one with a single condition: an override
/// written with `property` and `value` is built as the one written with
/// `matches` holding just that property and value.
pub proof fn lemma_legacy_equivalent_to_new(
    legacy: NameOverrideRaw,
    new: NameOverrideRaw,
    from_legacy: Result<NameOverride, String>,
    from_new: Result<NameOverride, String>,
)
    requires
        legacy.matches is None,
        legacy.property is Some,
        legacy.value is Some,
        new.property is None,
        new.value is None,
        new.matches matches Some(m) && m@.len() == 1 && m@[0].0@ == seq![
            (legacy.property.unwrap(), MatchValue::Literal(legacy.value.unwrap())),
        ],
        new.types == legacy.types,
        new.templates == legacy.templates,
        from_raw_outcome(legacy, from_legacy),
        from_raw_outcome(new, from_new),
    ensures
        from_legacy matches Ok(a) && from_new matches Ok(b) && a.types == b.types && a.templates
            == b.templates && a.matches@.len() == b.matches@.len() && a.matches@[0].0@
            == b.matches@[0].0@,
{
}

} // verus!
