//! Node.js module resolution core: request classification, `node_modules`
//! lookup-path synthesis, `package.json` loading and caching, and the
//! `exports` / `imports` conditional resolution algorithms, with the host's
//! filesystem, permission checker and npm-package locator behind trait
//! interfaces.

pub mod chars;
pub mod errors;
pub mod paths;
pub mod node_paths;
pub mod json;
pub mod host;
pub mod package_json;
pub mod resolution;
pub mod polyfills;

use vstd::prelude::*;

verus! {

/// The environment variables that may be propagated to child JS contexts.
pub fn node_env_var_allowed(name: &str) -> (r: bool)
    ensures
        r == (name@ == "NODE_DEBUG"@ || name@ == "NODE_OPTIONS"@),
{
    crate::chars::str_equals(name, "NODE_DEBUG") || crate::chars::str_equals(name, "NODE_OPTIONS")
}

/// The process-unique global-this name: the caller supplies the current
/// unix time in seconds, so the name cannot be depended upon statically.
pub fn node_global_this_name(seconds: u64) -> (r: String)
    ensures
        r@ == "__DENO_NODE_GLOBAL_THIS_"@ + crate::chars::spec_u64_digits(seconds as nat)
            + "__"@,
{
    let mut v = crate::chars::str_to_chars("__DENO_NODE_GLOBAL_THIS_");
    let digits = crate::chars::u64_to_decimal(seconds);
    let mut i: usize = 0;
    while i < digits.len()
        invariant
            i <= digits.len(),
            digits@ == crate::chars::spec_u64_digits(seconds as nat),
            v@ == "__DENO_NODE_GLOBAL_THIS_"@ + digits@.take(i as int),
        decreases digits.len() - i,
    {
        v.push(digits[i]);
        i = i + 1;
        proof {
            assert(v@ =~= "__DENO_NODE_GLOBAL_THIS_"@ + digits@.take(i as int));
        }
    }
    proof {
        assert(digits@.take(digits@.len() as int) =~= digits@);
    }
    let suffix = crate::chars::str_to_chars("__");
    let mut j: usize = 0;
    while j < suffix.len()
        invariant
            j <= suffix.len(),
            suffix@ == "__"@,
            v@ == "__DENO_NODE_GLOBAL_THIS_"@ + crate::chars::spec_u64_digits(seconds as nat)
                + suffix@.take(j as int),
        decreases suffix.len() - j,
    {
        v.push(suffix[j]);
        j = j + 1;
        proof {
            assert(v@ =~= "__DENO_NODE_GLOBAL_THIS_"@
                + crate::chars::spec_u64_digits(seconds as nat) + suffix@.take(j as int));
        }
    }
    proof {
        assert(suffix@.take(suffix@.len() as int) =~= suffix@);
    }
    crate::chars::chars_to_string(&v)
}

/// The global `node_modules` roots consulted before the ancestor walk;
/// this runtime configures none.
pub fn init_paths() -> (r: Vec<String>)
    ensures
        r@.len() == 0,
{
    Vec::new()
}

} // verus!
