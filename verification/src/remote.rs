//! What is sent to a node besides transfers, and what is made of its
//! answers: the request that switches the node's profiler, and the outcome of
//! a query to the node's application.

use crate::ops::Error;
use vstd::prelude::*;
use vstd::string::*;

verus! {

/// A request to change a node's configuration.
#[derive(Clone, Debug, PartialEq, Eq)]
pub struct Configuration {
    /// The part of the node that the request is for.
    pub component: String,
    pub module: String,
    pub submodule: String,
    /// What to set, as that part reads it.
    pub parameters: Vec<u8>,
}

/// What a node's profiler is set to.
#[derive(Clone, Copy, Debug, PartialEq, Eq, Structural)]
pub struct ProfilerParam {
    pub enable: bool,
}

/// The request that sets a node's profiler; `parameters` is the encoded
/// [`ProfilerParam`]. The request names the component `profiler` and no
/// module.
pub fn set_profiler(parameters: Vec<u8>) -> (r: Configuration)
    ensures
        r.component@ == "profiler"@,
        r.module@.len() == 0,
        r.submodule@.len() == 0,
        r.parameters == parameters,
{
    Configuration {
        component: String::from_str("profiler"),
        module: String::new(),
        submodule: String::new(),
        parameters,
    }
}

/// The path that a query is sent with: none for an empty one.
pub fn query_path(path: &str) -> (r: Option<String>)
    ensures
        r is Some <==> path@.len() > 0,
        r is Some ==> r.unwrap()@ == path@,
{
    if path.is_empty() {
        None
    } else {
        Some(path.to_owned())
    }
}

/// The message for a query that the application refused with `code` and
/// explained with `log`.
pub open spec fn refusal(code: Seq<char>, log: Seq<char>) -> Seq<char> {
    "error code: "@ + code + ", log: "@ + log
}

/// What a query comes to. `failed` says whether the application refused
/// it, `code` is the code it answered with and `log` its explanation: a
/// refused query is an error that quotes both.
pub fn query_outcome(failed: bool, code: &str, log: &str) -> (r: Result<(), Error>)
    ensures
        match r {
            Ok(()) => !failed,
            Err(e) => failed && (e matches Error::Prism(message) && message@ == refusal(
                code@,
                log@,
            )),
        },
{
    if failed {
        let mut message = String::from_str("error code: ");
        message.append(code);
        message.append(", log: ");
        message.append(log);
        Err(Error::Prism(message))
    } else {
        Ok(())
    }
}

} // verus!
