//! Resolved setting values and the coercion of drawn value tokens.

use vstd::prelude::*;
use crate::text::spec_parse_u64;
use crate::text::parse_u64;

verus! {

/// One resolved setting value: a scalar, or a list of item names.
#[derive(Debug, Clone)]
pub enum SettingValue {
    Bool(bool),
    Int(u64),
    Str(String),
    List(Vec<String>),
}

/// The mathematical shape of a [`SettingValue`].
#[verifier::ext_equal]
pub enum ValueModel {
    Bool(bool),
    Int(u64),
    Str(Seq<char>),
    List(Seq<Seq<char>>),
}

impl DeepView for SettingValue {
    type V = ValueModel;

    open spec fn deep_view(&self) -> ValueModel {
        match self {
            SettingValue::Bool(b) => ValueModel::Bool(*b),
            SettingValue::Int(n) => ValueModel::Int(*n),
            SettingValue::Str(s) => ValueModel::Str(s@),
            SettingValue::List(items) => ValueModel::List(items.deep_view()),
        }
    }
}

/// Whether two string lists hold the same texts in the same order.
pub fn string_vecs_eq(a: &Vec<String>, b: &Vec<String>) -> (r: bool)
    ensures
        r == (a.deep_view() == b.deep_view()),
{
    if a.len() != b.len() {
        proof {
            assert(a.deep_view().len() != b.deep_view().len());
        }
        return false;
    }
    let mut i: usize = 0;
    while i < a.len()
        invariant
            0 <= i <= a@.len(),
            a@.len() == b@.len(),
            forall|k: int| 0 <= k < i ==> a.deep_view()[k] == b.deep_view()[k],
        decreases a@.len() - i,
    {
        if !(a[i] == b[i]) {
            proof {
                assert(a.deep_view()[i as int] != b.deep_view()[i as int]);
            }
            return false;
        }
        i = i + 1;
    }
    proof {
        assert(a.deep_view() =~= b.deep_view());
    }
    true
}

impl SettingValue {
    /// Whether `self` and `other` denote the same value.
    pub fn value_eq(&self, other: &SettingValue) -> (r: bool)
        ensures
            r == (self.deep_view() == other.deep_view()),
    {
        match (self, other) {
            (SettingValue::Bool(x), SettingValue::Bool(y)) => x == y,
            (SettingValue::Int(x), SettingValue::Int(y)) => x == y,
            (SettingValue::Str(x), SettingValue::Str(y)) => *x == *y,
            (SettingValue::List(x), SettingValue::List(y)) => string_vecs_eq(x, y),
            _ => {
                proof {
                    assert(self.deep_view() != other.deep_view());
                }
                false
            },
        }
    }
}

/// The value a drawn token stands for: `"false"` and `"true"` become
/// booleans, a token parsing as an unsigned integer becomes an integer, and
/// anything else stays text, in that priority order.
pub open spec fn spec_coerce(tok: Seq<char>) -> ValueModel {
    if tok == "false"@ {
        ValueModel::Bool(false)
    } else if tok == "true"@ {
        ValueModel::Bool(true)
    } else {
        match spec_parse_u64(tok) {
            Some(n) => ValueModel::Int(n),
            None => ValueModel::Str(tok),
        }
    }
}

/// Coerces one drawn token exactly as [`spec_coerce`] states.
pub fn coerce_token(tok: String) -> (r: SettingValue)
    ensures
        r.deep_view() == spec_coerce(tok@),
{
    if tok == String::from_str("false") {
        SettingValue::Bool(false)
    } else if tok == String::from_str("true") {
        SettingValue::Bool(true)
    } else {
        match parse_u64(tok.as_str()) {
            Some(n) => SettingValue::Int(n),
            None => SettingValue::Str(tok),
        }
    }
}

} // verus!
