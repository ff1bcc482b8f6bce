//! The closed set of HTTP methods and the case-insensitive resolution of a
//! configured method string, with the fallback to GET on an unrecognized one.

use vstd::prelude::*;
use vstd::string::StrSliceExecFns;

verus! {

/// The closed set of methods a job may name. An unrecognized method string
/// resolves to `Get` (with a warning flag, never an error).
#[derive(Clone, Copy, PartialEq, Eq, Structural, Debug)]
pub enum HttpMethod {
    Get,
    Post,
    Put,
    Delete,
}

/// Code point of `c`, with an ASCII lower-case letter folded to its
/// upper-case counterpart.
pub open spec fn ascii_upper(c: char) -> int {
    if 'a' <= c && c <= 'z' {
        c as int - 32
    } else {
        c as int
    }
}

/// Equality of two character sequences up to ASCII case.
pub open spec fn seq_eq_ci(a: Seq<char>, b: Seq<char>) -> bool {
    &&& a.len() == b.len()
    &&& forall|i: int| 0 <= i < a.len() ==> ascii_upper(a[i]) == ascii_upper(b[i])
}

/// The method named by `s`, if `s` names one of the closed set up to case.
pub open spec fn recognized_method(s: Seq<char>) -> Option<HttpMethod> {
    if seq_eq_ci(s, "GET"@) {
        Some(HttpMethod::Get)
    } else if seq_eq_ci(s, "POST"@) {
        Some(HttpMethod::Post)
    } else if seq_eq_ci(s, "PUT"@) {
        Some(HttpMethod::Put)
    } else if seq_eq_ci(s, "DELETE"@) {
        Some(HttpMethod::Delete)
    } else {
        None
    }
}

/// The method a job with configured method string `s` actually uses:
/// the recognized one, or GET as the fallback.
pub open spec fn resolved_method(s: Seq<char>) -> HttpMethod {
    match recognized_method(s) {
        Some(m) => m,
        None => HttpMethod::Get,
    }
}

fn char_eq_ci(a: char, b: char) -> (r: bool)
    ensures
        r == (ascii_upper(a) == ascii_upper(b)),
{
    let au = a as u32;
    let bu = b as u32;
    let af = if 97 <= au && au <= 122 {
        au - 32
    } else {
        au
    };
    let bf = if 97 <= bu && bu <= 122 {
        bu - 32
    } else {
        bu
    };
    af == bf
}

fn str_eq_ci(a: &str, b: &str) -> (r: bool)
    ensures
        r == seq_eq_ci(a@, b@),
{
    let n = a.unicode_len();
    if n != b.unicode_len() {
        return false;
    }
    let mut i: usize = 0;
    while i < n
        invariant
            i <= n,
            n == a@.len(),
            n == b@.len(),
            forall|j: int| 0 <= j < i ==> ascii_upper(a@[j]) == ascii_upper(b@[j]),
        decreases n - i,
    {
        if !char_eq_ci(a.get_char(i), b.get_char(i)) {
            return false;
        }
        i += 1;
    }
    true
}

/// Resolve a configured method string: the recognized method with no warning,
/// or GET with the warning flag set. Total: no method string is an error.
pub fn resolve_method(s: &str) -> (r: (HttpMethod, bool))
    ensures
        r.0 == resolved_method(s@),
        r.1 == (recognized_method(s@) is None),
{
    if str_eq_ci(s, "GET") {
        (HttpMethod::Get, false)
    } else if str_eq_ci(s, "POST") {
        (HttpMethod::Post, false)
    } else if str_eq_ci(s, "PUT") {
        (HttpMethod::Put, false)
    } else if str_eq_ci(s, "DELETE") {
        (HttpMethod::Delete, false)
    } else {
        (HttpMethod::Get, true)
    }
}

/// The canonical upper-case name of a method.
pub open spec fn spec_method_name(m: HttpMethod) -> Seq<char> {
    match m {
        HttpMethod::Get => "GET"@,
        HttpMethod::Post => "POST"@,
        HttpMethod::Put => "PUT"@,
        HttpMethod::Delete => "DELETE"@,
    }
}

/// The canonical upper-case name of a method, for rendering and for handing
/// to an HTTP client.
pub fn method_name(m: HttpMethod) -> (r: &'static str)
    ensures
        r@ == spec_method_name(m),
{
    match m {
        HttpMethod::Get => "GET",
        HttpMethod::Post => "POST",
        HttpMethod::Put => "PUT",
        HttpMethod::Delete => "DELETE",
    }
}

} // verus!
