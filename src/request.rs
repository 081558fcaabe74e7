use vstd::prelude::*;
use vstd::string::StrSliceExecFns;
use crate::http::request::HTTPRequestParseError;

verus! {

/// The methods that a status line may name.
#[derive(Debug, Clone, Copy, PartialEq, Eq, Structural)]
pub enum HTTPMethod {
    GET,
    POST,
}

/// The target of a request, always starting with `/`.
#[derive(Debug)]
pub struct RequestTarget(pub String);

pub open spec fn method_of_chars(s: Seq<char>) -> Option<HTTPMethod> {
    if s == seq!['G', 'E', 'T'] {
        Some(HTTPMethod::GET)
    } else if s == seq!['P', 'O', 'S', 'T'] {
        Some(HTTPMethod::POST)
    } else {
        None
    }
}

impl HTTPMethod {
    /// The method that `s` names exactly.
    pub fn from_str(s: &str) -> (r: Result<HTTPMethod, HTTPRequestParseError>)
        ensures
            match method_of_chars(s@) {
                Some(m) => r == Ok::<HTTPMethod, HTTPRequestParseError>(m),
                None => r == Err::<HTTPMethod, HTTPRequestParseError>(
                    HTTPRequestParseError::InvalidMethodError,
                ),
            },
    {
        let n = s.unicode_len();
        if n == 3 && s.get_char(0) == 'G' && s.get_char(1) == 'E' && s.get_char(2) == 'T' {
            assert(s@ =~= seq!['G', 'E', 'T']);
            Ok(HTTPMethod::GET)
        } else if n == 4 && s.get_char(0) == 'P' && s.get_char(1) == 'O' && s.get_char(2) == 'S'
            && s.get_char(3) == 'T' {
            assert(s@ =~= seq!['P', 'O', 'S', 'T']);
            Ok(HTTPMethod::POST)
        } else {
            Err(HTTPRequestParseError::InvalidMethodError)
        }
    }
}

/// Index of the first space at or after `i`, or the length when there is none.
pub open spec fn space_from(s: Seq<char>, i: int) -> int
    decreases s.len() - i,
{
    if i >= s.len() {
        s.len() as int
    } else if i >= 0 && s[i] == ' ' {
        i
    } else {
        space_from(s, i + 1)
    }
}

/// The method and target of `METHOD SP TARGET SP ...`, or why it is refused.
pub open spec fn status_line_spec(s: Seq<char>) -> Result<(HTTPMethod, Seq<char>), HTTPRequestParseError> {
    let k = space_from(s, 0);
    if k >= s.len() {
        Err(HTTPRequestParseError::InvalidStatusLineError)
    } else {
        match method_of_chars(s.subrange(0, k)) {
            None => Err(HTTPRequestParseError::InvalidMethodError),
            Some(m) => {
                let k2 = space_from(s, k + 1);
                if k2 >= s.len() {
                    Err(HTTPRequestParseError::InvalidStatusLineError)
                } else {
                    let target = s.subrange(k + 1, k2);
                    if target.len() > 0 && target[0] == '/' {
                        Ok((m, target))
                    } else {
                        Err(HTTPRequestParseError::InvalidPathError)
                    }
                }
            },
        }
    }
}

proof fn lemma_space_from_bounds(s: Seq<char>, i: int)
    requires
        0 <= i <= s.len(),
    ensures
        i <= space_from(s, i) <= s.len(),
    decreases s.len() - i,
{
    if i < s.len() && s[i] != ' ' {
        lemma_space_from_bounds(s, i + 1);
    }
}

fn find_space(s: &str, from: usize) -> (r: usize)
    requires
        from <= s@.len(),
    ensures
        r == space_from(s@, from as int),
{
    let n = s.unicode_len();
    let mut i = from;
    while i < n
        invariant
            n == s@.len(),
            from <= i <= n,
            space_from(s@, i as int) == space_from(s@, from as int),
        decreases n - i,
    {
        if s.get_char(i) == ' ' {
            return i;
        }
        i = i + 1;
    }
    i
}

/// Reads the method and target from a status line such as
/// `GET /index.html HTTP/1.1`.
pub fn parse_status_line(status_line: &str) -> (r: Result<(HTTPMethod, RequestTarget), HTTPRequestParseError>)
    ensures
        match status_line_spec(status_line@) {
            Ok((m, t)) => r matches Ok(p) && p.0 == m && (p.1).0@ == t,
            Err(e) => r matches Err(e2) && e2 == e,
        },
{
    let n = status_line.unicode_len();
    let k = find_space(status_line, 0);
    if k >= n {
        return Err(HTTPRequestParseError::InvalidStatusLineError);
    }
    let method = match HTTPMethod::from_str(status_line.substring_char(0, k)) {
        Ok(m) => m,
        Err(e) => return Err(e),
    };
    proof {
        lemma_space_from_bounds(status_line@, k + 1);
    }
    let k2 = find_space(status_line, k + 1);
    if k2 >= n {
        return Err(HTTPRequestParseError::InvalidStatusLineError);
    }
    let target = status_line.substring_char(k + 1, k2);
    if target.unicode_len() > 0 && target.get_char(0) == '/' {
        Ok((method, RequestTarget(target.to_owned())))
    } else {
        Err(HTTPRequestParseError::InvalidPathError)
    }
}

} // verus!
