//! Parsing of `<name>.json` path components.

use vstd::prelude::*;

use crate::podsync::Error;
use crate::strutil::str_eq;

verus! {

/// Accepts exactly the string `json`.
fn err_unless_json(s: &str) -> (r: Result<(), Error>)
    ensures
        s@ == "json"@ ==> r == Ok::<(), Error>(()),
        s@ != "json"@ ==> r == Err::<(), Error>(Error::BadRequest),
{
    if str_eq(s, "json") {
        Ok(())
    } else {
        Err(Error::BadRequest)
    }
}

/// Splits a path component of the form `<name>.json` at its first dot and
/// hands back `<name>`. A component without a dot, or whose remainder
/// after the first dot is not `json`, is a bad request.
pub fn split_format_json(s: &str) -> (r: Result<&str, Error>)
    ensures
        match r {
            Ok(a) => exists|idx: int|
                0 <= idx < s@.len() && s@[idx] == '.' && (forall|j: int|
                    0 <= j < idx ==> s@[j] != '.') && a@ == s@.subrange(0, idx) && s@.subrange(
                    idx + 1,
                    s@.len() as int,
                ) == "json"@,
            Err(e) => e == Error::BadRequest && forall|idx: int|
                (0 <= idx < s@.len() && s@[idx] == '.' && (forall|j: int|
                    0 <= j < idx ==> s@[j] != '.')) ==> s@.subrange(idx + 1, s@.len() as int)
                    != "json"@,
        },
{
    let n = s.unicode_len();
    let mut i: usize = 0;
    while i < n
        invariant
            i <= n,
            n == s@.len(),
            forall|j: int| 0 <= j < i ==> s@[j] != '.',
        decreases n - i,
    {
        if s.get_char(i) == '.' {
            let a = s.substring_char(0, i);
            let b = s.substring_char(i + 1, n);
            return match err_unless_json(b) {
                Ok(()) => Ok(a),
                Err(e) => Err(e),
            };
        }
        i = i + 1;
    }
    Err(Error::BadRequest)
}

/// How an authenticated route names its account in the path: bare, or
/// with a `.json` suffix to strip.
#[derive(Debug, Clone, Copy, PartialEq, Eq, Structural)]
pub enum UsernameFormat {
    Name,
    NameJson,
}

impl UsernameFormat {
    /// The account name a path component denotes under this format.
    pub fn convert<'a>(&self, username: &'a str) -> (r: Result<&'a str, Error>)
        ensures
            match self {
                UsernameFormat::Name => r matches Ok(a) && a@ == username@,
                UsernameFormat::NameJson => match r {
                    Ok(a) => exists|idx: int|
                        0 <= idx < username@.len() && username@[idx] == '.' && (forall|j: int|
                            0 <= j < idx ==> username@[j] != '.') && a@ == username@.subrange(
                            0,
                            idx,
                        ) && username@.subrange(idx + 1, username@.len() as int) == "json"@,
                    Err(e) => e == Error::BadRequest,
                },
            },
    {
        match self {
            UsernameFormat::Name => Ok(username),
            UsernameFormat::NameJson => split_format_json(username),
        }
    }
}

} // verus!
