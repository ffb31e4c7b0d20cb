//! Non-emptiness checks on URL components. Each check either accepts its
//! input or returns the tagged error for that component; nothing else is
//! inspected.

use vstd::prelude::*;

verus! {

use crate::errors::Error;
use vstd::string::StringExecFns;

/// Accept any non-empty domain; reject an empty one with `DomainError`.
pub fn domain(d: &str) -> (r: Result<(), Error>)
    ensures
        r is Ok <==> d@.len() > 0,
        r matches Err(e) ==> e matches Error::DomainError(m) && m@ == "domain cannot be empty"@,
{
    if d.is_empty() {
        Err(Error::DomainError(String::from_str("domain cannot be empty")))
    } else {
        Ok(())
    }
}

/// Accept any non-empty path; reject an empty one with `PathError`.
pub fn path(p: &str) -> (r: Result<(), Error>)
    ensures
        r is Ok <==> p@.len() > 0,
        r matches Err(e) ==> e matches Error::PathError(m) && m@ == "path cannot be empty"@,
{
    if p.is_empty() {
        Err(Error::PathError(String::from_str("path cannot be empty")))
    } else {
        Ok(())
    }
}

/// Accept a pair whose key and value are both non-empty; reject an empty
/// key, then an empty value, with `ParamError`.
pub fn param_pair(k: &str, v: &str) -> (r: Result<(), Error>)
    ensures
        r is Ok <==> k@.len() > 0 && v@.len() > 0,
        r matches Err(e) ==> e is ParamError,
        k@.len() == 0 ==> (r matches Err(e) && e matches Error::ParamError(m) && m@
            == "key cannot be empty"@),
        k@.len() > 0 && v@.len() == 0 ==> (r matches Err(e) && e matches Error::ParamError(m) && m@
            == "value cannot be empty"@),
{
    if k.is_empty() {
        Err(Error::ParamError(String::from_str("key cannot be empty")))
    } else if v.is_empty() {
        Err(Error::ParamError(String::from_str("value cannot be empty")))
    } else {
        Ok(())
    }
}

} // verus!
