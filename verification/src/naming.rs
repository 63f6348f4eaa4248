//! The product's own name, and every name that is built from it.

use crate::text::{decimal, decimal_text, joined, joined3};
use vstd::prelude::*;

verus! {

/// The product name.
pub const NAME: &'static str = "coolabah";

/// What the product's environment variables begin with.
pub const ENV_PREFIX: &'static str = "COOLABAH_";

/// The name of one of the product's environment variables.
pub fn env_name(suffix: &str) -> (r: String)
    ensures
        r@ == ENV_PREFIX@ + suffix@,
{
    joined(ENV_PREFIX, suffix)
}

/// Whether a name is that of one of the product's environment variables.
pub fn is_env_name(name: &str) -> (r: bool)
    ensures
        r == crate::text::starts_with(name@, ENV_PREFIX@),
{
    crate::text::strip_prefix(name, ENV_PREFIX).is_some()
}

/// The entry file inside the config directory.
pub fn rc_name() -> (r: String)
    ensures
        r@ == NAME@ + "rc"@,
{
    joined(NAME, "rc")
}

/// The service the daemon answers on by default.
pub open spec fn service_text() -> Seq<char> {
    "com.auscyber."@ + NAME@
}

/// The service the daemon answers on by default.
pub fn service() -> (r: String)
    ensures
        r@ == service_text(),
{
    joined("com.auscyber.", NAME)
}

/// A service name for one test, unique to the process that runs it.
pub fn test_service(test: &str, process: u32) -> (r: String)
    ensures
        r@ == service_text() + (".test."@ + test@ + ("."@ + decimal_text(process as nat))),
{
    let number = decimal(process as u64);
    let tail = joined(".", &number);
    joined(&service(), &joined3(".test.", test, &tail))
}

/// The environment variable that says which service to look up.
pub const SERVICE_VARIABLE: &'static str = "RSBAR_SERVICE";

/// The name the daemon claims and clients look up, given what the environment
/// says it is: a development build can so run beside an installed one.
pub fn service_name(set: Option<String>) -> (r: String)
    ensures
        r@ == match set {
            Some(name) => name@,
            None => "com.auscyber.rsbar"@,
        },
{
    match set {
        Some(name) => name,
        None => "com.auscyber.rsbar".to_owned(),
    }
}

/// Every variable's name is told from another program's by how it begins, and
/// what follows tells one from another.
pub proof fn law_variables_are_prefixed(a: Seq<char>, b: Seq<char>)
    ensures
        crate::text::starts_with(ENV_PREFIX@ + a, ENV_PREFIX@),
        ENV_PREFIX@ + a == ENV_PREFIX@ + b ==> a == b,
{
    assert((ENV_PREFIX@ + a).take(ENV_PREFIX@.len() as int) =~= ENV_PREFIX@);
    if ENV_PREFIX@ + a == ENV_PREFIX@ + b {
        assert(a =~= (ENV_PREFIX@ + a).skip(ENV_PREFIX@.len() as int));
        assert(b =~= (ENV_PREFIX@ + b).skip(ENV_PREFIX@.len() as int));
    }
}

} // verus!
