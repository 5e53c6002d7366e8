//! The runtime environment that selects the configuration file, and the
//! lines of the file of outbound request headers.
use vstd::prelude::*;
use vstd::string::*;

use crate::text::{find, find_str};

verus! {

/// The possible runtime environments.
#[derive(Clone, Copy, Debug, PartialEq, Eq, Structural)]
pub enum Environment {
    Local,
    Prod,
    Stage,
}

/// What a text looks like in lower case.
pub uninterp spec fn lower_of(s: Seq<char>) -> Seq<char>;

/// Relies on `str::to_lowercase`: the result depends on the text alone.
#[verifier::external_body]
fn lowercase(s: &str) -> (r: String)
    ensures
        r@ == lower_of(s@),
{
    s.to_lowercase()
}

pub open spec fn env_name(e: Environment) -> Seq<char> {
    match e {
        Environment::Local => "local"@,
        Environment::Prod => "prod"@,
        Environment::Stage => "stage"@,
    }
}

/// The environment that a lower-case name denotes.
pub open spec fn env_named(s: Seq<char>) -> Option<Environment> {
    if s == "local"@ {
        Some(Environment::Local)
    } else if s == "prod"@ {
        Some(Environment::Prod)
    } else if s == "stage"@ {
        Some(Environment::Stage)
    } else {
        None
    }
}

pub open spec fn unsupported_message(lowered: Seq<char>) -> Seq<char> {
    lowered + " is not a supported environment. Use either `stage`, `local` or `prod`."@
}

impl Environment {
    /// The environment's name, which is also its configuration file's stem.
    pub fn as_str(&self) -> (r: &'static str)
        ensures
            r@ == env_name(*self),
    {
        match self {
            Environment::Local => "local",
            Environment::Prod => "prod",
            Environment::Stage => "stage",
        }
    }

    /// The environment that `name` denotes, whatever its case.
    pub fn from_name(name: &str) -> (r: Result<Environment, String>)
        ensures
            env_named(lower_of(name@)) matches Some(e) ==> (r matches Ok(x) && x == e),
            env_named(lower_of(name@)) is None ==> (r matches Err(m) && m@ == unsupported_message(
                lower_of(name@),
            )),
    {
        let lowered = lowercase(name);
        if crate::text::same_text(lowered.as_str(), "local") {
            Ok(Environment::Local)
        } else if crate::text::same_text(lowered.as_str(), "prod") {
            Ok(Environment::Prod)
        } else if crate::text::same_text(lowered.as_str(), "stage") {
            Ok(Environment::Stage)
        } else {
            let mut msg = lowered;
            msg.append(" is not a supported environment. Use either `stage`, `local` or `prod`.");
            Err(msg)
        }
    }
}

/// A header line `name: value` as its name and value, cut at the first `: `.
pub open spec fn header_parts(line: Seq<char>) -> Option<(Seq<char>, Seq<char>)> {
    match find(line, ": "@) {
        Some(i) => Some((line.subrange(0, i), line.subrange(i + 2, line.len() as int))),
        None => None,
    }
}

/// The name and value of a header line `name: value`; `None` without `: `.
pub fn split_header_line(line: &str) -> (r: Option<(&str, &str)>)
    ensures
        r is Some <==> header_parts(line@) is Some,
        r matches Some((k, v)) ==> header_parts(line@) == Some((k@, v@)),
{
    proof {
        reveal_strlit(": ");
    }
    let n = line.unicode_len();
    match find_str(line, ": ") {
        Some(i) => Some((line.substring_char(0, i), line.substring_char(i + 2, n))),
        None => None,
    }
}

} // verus!
