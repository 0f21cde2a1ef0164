//! The names the module serves, and the manifest that declares them.
use vstd::prelude::*;

use crate::text::text3;

verus! {

/// The interface the module serves.
pub const INTERFACE: &'static str = "ai.tinyhumans.tinymcp.Greeting";

/// Where the module serves it.
pub const OBJECT_PATH: &'static str = "/ai/tinyhumans/tinymcp/Greeting";

/// The one member of the interface.
pub const GREET: &'static str = "Greet";

/// How many threads the module serves on: more than one, so that a call on one
/// server does not wait behind a slow call on another.
pub const WORKER_THREADS: u32 = 2;

/// The members of the interface, in dispatch order.
pub open spec fn members() -> Seq<Seq<char>> {
    seq![GREET@]
}

/// The members of the interface, in dispatch order.
#[must_use]
pub fn methods() -> (r: Vec<String>)
    ensures
        crate::text::texts(r@) == members(),
{
    let r = vec![GREET.to_owned()];
    proof {
        assert(crate::text::texts(r@) =~= members());
    }
    r
}

/// What the module declares to a host.
#[derive(Debug, Clone, PartialEq, Eq)]
pub struct Manifest {
    /// The interfaces it provides.
    pub provides: Vec<String>,
    /// The members it serves.
    pub methods: Vec<String>,
    /// The signals it sends.
    pub signals: Vec<String>,
    /// The interfaces it cannot do without.
    pub needed: Vec<String>,
    /// The interfaces it uses where they are there.
    pub optional: Vec<String>,
    /// Whether loading waits for a first call.
    pub lazy: bool,
    /// How many threads it serves on.
    pub worker_threads: u32,
}

/// The manifest: exactly the members that the interface names, and no lazy
/// loading. A host that loaded the module wants its servers connected, and
/// deferring that to the first call would tell an agent it has no tools.
#[must_use]
pub fn manifest() -> (r: Manifest)
    ensures
        crate::text::texts(r.provides@) == seq![INTERFACE@],
        crate::text::texts(r.methods@) == members(),
        r.signals@.len() == 0,
        r.needed@.len() == 0,
        r.optional@.len() == 0,
        !r.lazy,
        r.worker_threads == WORKER_THREADS,
        r.worker_threads > 1,
{
    let provides = vec![INTERFACE.to_owned()];
    proof {
        assert(crate::text::texts(provides@) =~= seq![INTERFACE@]);
    }
    Manifest {
        provides,
        methods: methods(),
        signals: Vec::new(),
        needed: Vec::new(),
        optional: Vec::new(),
        lazy: false,
        worker_threads: WORKER_THREADS,
    }
}

/// What the `Greet` member is sent.
#[derive(Debug, Clone, PartialEq, Eq)]
pub struct GreetRequest {
    /// Whom to greet.
    pub name: String,
}

/// What the `Greet` member answers.
#[derive(Debug, Clone, PartialEq, Eq)]
pub struct GreetResponse {
    /// The greeting.
    pub greeting: String,
}

/// Greets whom a request names.
#[must_use]
pub fn greet(request: &GreetRequest) -> (r: GreetResponse)
    ensures
        r.greeting@ == "Hello, "@ + request.name@ + "!"@,
{
    GreetResponse { greeting: text3("Hello, ", request.name.as_str(), "!") }
}

} // verus!
