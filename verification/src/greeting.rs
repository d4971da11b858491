use vstd::prelude::*;
use vstd::string::StringExecFns;

verus! {

/// The acknowledgement text owed to a sender who gave this name.
pub open spec fn greeting_of(name: Seq<char>) -> Seq<char> {
    "Hello "@ + name + "!"@
}

/// Builds the acknowledgement for one accepted send request.
pub fn make_greeting(name: &str) -> (reply: String)
    ensures
        reply@ == greeting_of(name@),
{
    let mut reply = String::from_str("Hello ");
    reply.append(name);
    reply.append("!");
    reply
}

} // verus!
