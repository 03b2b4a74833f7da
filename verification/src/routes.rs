//! The routes that answer without synthesis.

use vstd::prelude::*;

verus! {

/// The hint that the landing route returns.
pub open spec fn index_text() -> Seq<char> {
    "This is a ipa_server, running on Rocket (Rust). You probably meant to do a POST request"@
}

/// The body of the landing route.
pub fn index() -> (body: &'static str)
    ensures
        body@ == index_text(),
{
    "This is a ipa_server, running on Rocket (Rust). You probably meant to do a POST request"
}

/// The preflight route, which answers every path with an empty body.
pub fn all_options() {
}

} // verus!
