//! Capability sandbox for untrusted extensions: decides whether an action
//! (a verb on a target domain) is permitted.

use vstd::prelude::*;
use crate::text::str_eq;

verus! {

/// Decides whether an untrusted extension action is permitted.
pub trait CapabilitySandbox {
    /// `requested_access` is a verb like `"read"`/`"write"`/`"exec"`/
    /// `"net_bind"`; `target` is a domain like `"fs"`/`"net"`/`"mem"`.
    /// Returns `true` if the action is allowed.
    fn permits(&self, requested_access: &str, target: &str) -> bool;
}

/// A sandbox that permits everything; the real boundary is then the
/// caller's policy.
#[derive(Debug, Default, Clone, Copy)]
pub struct NullSandbox;

impl CapabilitySandbox for NullSandbox {
    fn permits(&self, _requested_access: &str, _target: &str) -> (r: bool)
        ensures
            r,
    {
        true
    }
}

/// The small id an access verb is passed to a sandbox guest as.
pub open spec fn access_id(a: Seq<char>) -> i64 {
    if a == "read"@ { 0 }
    else if a == "write"@ { 1 }
    else if a == "exec"@ { 4 }
    else if a == "net_bind"@ { 5 }
    else { 9 }
}

/// The small id a target domain is passed to a sandbox guest as.
pub open spec fn target_id(t: Seq<char>) -> i64 {
    if t == "fs"@ { 2 }
    else if t == "net"@ { 3 }
    else if t == "mem"@ { 6 }
    else { 9 }
}

/// Map an access verb to its guest id (unknown verbs map to 9).
pub fn hash_access(a: &str) -> (r: i64)
    ensures
        r == access_id(a@),
{
    proof {
        reveal_strlit("read");
        reveal_strlit("write");
        reveal_strlit("exec");
        reveal_strlit("net_bind");
    }
    if str_eq(a, "read") { 0 }
    else if str_eq(a, "write") { 1 }
    else if str_eq(a, "exec") { 4 }
    else if str_eq(a, "net_bind") { 5 }
    else { 9 }
}

/// Map a target domain to its guest id (unknown domains map to 9).
pub fn hash_target(t: &str) -> (r: i64)
    ensures
        r == target_id(t@),
{
    proof {
        reveal_strlit("fs");
        reveal_strlit("net");
        reveal_strlit("mem");
    }
    if str_eq(t, "fs") { 2 }
    else if str_eq(t, "net") { 3 }
    else if str_eq(t, "mem") { 6 }
    else { 9 }
}

} // verus!
