use vstd::prelude::*;
use crate::semantics::{spec_parse_binding_usage, ExprV};
use crate::utils;

verus! {

/// A use of a bound name, resolved against the environment at evaluation time.
#[derive(Debug, PartialEq)]
pub struct BindingUsage {
    pub name: String,
}

impl BindingUsage {
    /// Parses an identifier as a binding usage.
    pub fn new(s: &str) -> (r: Result<(&str, Self), String>)
        ensures
            (match r {
                Ok((rest, bu)) => {
                    &&& spec_parse_binding_usage(s@) matches Ok(p) && p.0 == rest@ && p.1
                        == ExprV::BindingUsage(bu.name@)
                    &&& rest@.len() < s@.len()
                },
                Err(m) => spec_parse_binding_usage(s@) matches Err(em) && m@ == em,
            }),
    {
        match utils::extract_ident(s) {
            Ok((rest, text)) => Ok((rest, BindingUsage { name: text.to_owned() })),
            Err(m) => Err(m),
        }
    }
}

} // verus!
