//! Harness configuration for one run: which module to load, which exported
//! function to invoke, the guest-visible environment, the outbound-HTTP
//! allowlist and concurrency ceiling, and the textual call arguments.

use vstd::prelude::*;

verus! {

/// A malformed environment binding: the token holds no `=` separator at
/// all, so no name and value can be split out of it.
#[derive(Clone, Copy, PartialEq, Eq, Structural, Debug)]
pub struct EnvConfigError;

/// Split one `NAME=VAL` token at its first `=` into the pair. Everything
/// after the first `=`, further `=` signs included, belongs to the value;
/// a token with no `=` is rejected. The contract pins the split uniquely:
/// the name holds no `=`, and name, separator and value reassemble the
/// token.
pub fn parse_env_var(s: &str) -> (r: Result<(String, String), EnvConfigError>)
    ensures
        match r {
            Ok(p) => {
                &&& p.0@ + seq!['='] + p.1@ == s@
                &&& forall|j: int| 0 <= j < p.0@.len() ==> p.0@[j] != '='
            },
            Err(_) => forall|j: int| 0 <= j < s@.len() ==> s@[j] != '=',
        },
{
    let n = s.unicode_len();
    let mut i: usize = 0;
    while i < n
        invariant
            i <= n,
            n == s@.len(),
            forall|j: int| 0 <= j < i ==> s@[j] != '=',
        decreases n - i,
    {
        let c = s.get_char(i);
        if c == '=' {
            let name = s.substring_char(0, i);
            let value = s.substring_char(i + 1, n);
            let name_owned = String::from_str(name);
            let value_owned = String::from_str(value);
            proof {
                assert(name_owned@ + seq!['='] + value_owned@ =~= s@);
            }
            return Ok((name_owned, value_owned));
        }
        i += 1;
    }
    Err(EnvConfigError)
}

/// Everything one invocation runs under. Immutable once built; the driver
/// owns it for the duration of the run.
pub struct HarnessConfig {
    /// Path of the module binary to load.
    pub module: String,
    /// Name of the exported function to invoke.
    pub invoke: String,
    /// Guest-visible environment bindings, in order; duplicates are allowed
    /// and resolved last-wins by the system-interface capability.
    pub env_vars: Vec<(String, String)>,
    /// The outbound-HTTP allowlist: `None` means none was configured, which
    /// denies every request.
    pub allowed_hosts: Option<Vec<String>>,
    /// Ceiling on concurrently in-flight outbound requests: `None` means
    /// unbounded.
    pub max_concurrency: Option<u32>,
    /// Textual arguments for the invoked function, in order.
    pub module_args: Vec<String>,
}

impl HarnessConfig {
    /// The configuration's invariant: a module path and a function name are
    /// both present.
    pub open spec fn wf(self) -> bool {
        self.module@.len() > 0 && self.invoke@.len() > 0
    }

    /// Build a configuration. An empty module path or function name is
    /// refused; any other combination is accepted as given.
    pub fn new(
        module: String,
        invoke: String,
        env_vars: Vec<(String, String)>,
        allowed_hosts: Option<Vec<String>>,
        max_concurrency: Option<u32>,
        module_args: Vec<String>,
    ) -> (r: Option<HarnessConfig>)
        ensures
            r is Some <==> module@.len() > 0 && invoke@.len() > 0,
            r matches Some(c) ==> {
                &&& c.wf()
                &&& c.module == module
                &&& c.invoke == invoke
                &&& c.env_vars == env_vars
                &&& c.allowed_hosts == allowed_hosts
                &&& c.max_concurrency == max_concurrency
                &&& c.module_args == module_args
            },
    {
        if module.as_str().unicode_len() == 0 || invoke.as_str().unicode_len() == 0 {
            None
        } else {
            Some(
                HarnessConfig {
                    module,
                    invoke,
                    env_vars,
                    allowed_hosts,
                    max_concurrency,
                    module_args,
                },
            )
        }
    }
}

} // verus!
