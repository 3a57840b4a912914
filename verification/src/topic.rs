//! Derives the bus subject that routes invocations for an actor system.

use vstd::prelude::*;

verus! {

use vstd::string::StringExecFns;

/// The fixed-pattern subject: `spawn.<system>.actors.actions`, the name
/// case-preserved and unescaped.
pub open spec fn topic_of(system_name: Seq<char>) -> Seq<char> {
    "spawn."@ + system_name + ".actors.actions"@
}

/// Builds the subject string for a system.  The name must be non-empty;
/// callers also keep the transport's subject delimiter (`.`) out of it,
/// which this router does not escape.
pub fn topic_for(system_name: &str) -> (r: String)
    requires
        system_name@.len() > 0,
    ensures
        r@ == topic_of(system_name@),
{
    let mut out = String::from_str("spawn.");
    out.append(system_name);
    out.append(".actors.actions");
    out
}

} // verus!
