//! The environment that the configuration is read from.

use vstd::prelude::*;

use crate::text;

verus! {

/// An environment: what each variable holds, if it is set.
pub type Env = spec_fn(Seq<char>) -> Option<Seq<char>>;

/// Whether every answer of the getter is what `env` holds under that name.
pub open spec fn reads<F: Fn(&str) -> Option<String>>(get: F, env: Env) -> bool {
    forall|key: &str, value: Option<String>| #[trigger]
        call_ensures(get, (key,), value) ==> text::optional_text(value) == env(key@)
}

/// Whether the getter can be asked for any name.
pub open spec fn total<F: Fn(&str) -> Option<String>>(get: F) -> bool {
    forall|key: &str| #[trigger] call_requires(get, (key,))
}

/// Ask the getter for one variable.
pub(crate) fn look_up<F: Fn(&str) -> Option<String>>(get: &F, key: &str) -> (r: Option<String>)
    requires
        total(*get),
    ensures
        forall|env: Env| #[trigger] reads(*get, env) ==> text::optional_text(r) == env(key@),
{
    let r = get(key);
    proof {
        assert(call_ensures(*get, (key,), r));
    }
    r
}

// ---------------------------------------------------------------------------
// Laws
// ---------------------------------------------------------------------------

/// A getter reads an environment exactly when it answers each name with what the
/// environment holds there, and with nothing where it holds nothing.
pub proof fn getter_answers_what_is_held<F: Fn(&str) -> Option<String>>(get: F, env: Env)
    ensures
        reads(get, env) <==> forall|key: &str, value: Option<String>| #[trigger]
            call_ensures(get, (key,), value) ==> match value {
                Some(s) => env(key@) == Some(s@),
                None => env(key@) is None,
            },
        total(get) <==> forall|key: &str| #[trigger] call_requires(get, (key,)),
{
    if forall|key: &str, value: Option<String>| #[trigger]
        call_ensures(get, (key,), value) ==> match value {
            Some(s) => env(key@) == Some(s@),
            None => env(key@) is None,
        } {
        assert forall|key: &str, value: Option<String>| #[trigger]
            call_ensures(get, (key,), value) implies text::optional_text(value) == env(key@) by {}
    }
}

} // verus!
