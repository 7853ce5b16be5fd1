//! The settings of the HTTP client: the headers that every request carries
//! and the time limit of a request.

use crate::text::{find_char, first_index, texts, trim, trimmed};
use vstd::prelude::*;
use vstd::string::*;

verus! {

/// The time limit of every request, in seconds.
pub const TIMEOUT_SECS: u64 = 30;

/// The name of the header that every request carries.
pub const USER_AGENT_NAME: &'static str = "User-Agent";

/// The value of the header that every request carries.
pub const USER_AGENT: &'static str =
    "Mozilla/5.0 (Windows NT 10.0; Win64; x64) AppleWebKit/537.36 (KHTML, like Gecko) Chrome/123.0.0.0 Safari/537.36";

/// One request header.
#[derive(Debug, Clone, PartialEq, Eq)]
pub struct Header {
    pub name: String,
    pub value: String,
}

/// What the HTTP client is built from.
#[derive(Debug, Clone, PartialEq, Eq)]
pub struct ClientSettings {
    /// The headers of every request, in the order in which they are set: a
    /// later header replaces an earlier one of the same name.
    pub headers: Vec<Header>,
    /// The time limit of every request, in seconds.
    pub timeout_secs: u64,
}

/// Why the client's settings could not be made.
#[derive(Clone, Copy, Debug, PartialEq, Eq)]
pub enum HeaderError {
    /// The custom header at `index` has a name that HTTP does not allow.
    InvalidName { index: usize },
    /// The custom header at `index` has a value that HTTP does not allow.
    InvalidValue { index: usize },
}

/// A character of a header name: a letter, a digit, or one of
/// ``!#$%&'*+-.^_`|~``.
pub open spec fn is_name_char(c: char) -> bool {
    ||| ('a' <= c && c <= 'z')
    ||| ('A' <= c && c <= 'Z')
    ||| ('0' <= c && c <= '9')
    ||| c == '!'
    ||| c == '#'
    ||| c == '$'
    ||| c == '%'
    ||| c == '&'
    ||| c == '\''
    ||| c == '*'
    ||| c == '+'
    ||| c == '-'
    ||| c == '.'
    ||| c == '^'
    ||| c == '_'
    ||| c == '`'
    ||| c == '|'
    ||| c == '~'
}

/// A header name: between 1 and 65535 name characters.
pub open spec fn is_header_name(name: Seq<char>) -> bool {
    &&& 1 <= name.len() <= 65535
    &&& forall|i: int| 0 <= i < name.len() ==> is_name_char(name[i])
}

/// A character of a header value: a tab, or anything that is neither a
/// control character nor DEL.
pub open spec fn is_value_char(c: char) -> bool {
    c == '\t' || (c >= ' ' && c != '\u{7f}')
}

/// A header value: value characters only.
pub open spec fn is_header_value(value: Seq<char>) -> bool {
    forall|i: int| 0 <= i < value.len() ==> is_value_char(value[i])
}

/// Asks `HeaderName::from_bytes` of `reqwest::header` whether it takes
/// `name`: it takes 1 to 65535 bytes that are all name characters.
#[verifier::external_body]
fn header_name_ok(name: &str) -> (ok: bool)
    ensures
        ok == is_header_name(name@),
{
    reqwest::header::HeaderName::from_bytes(name.as_bytes()).is_ok()
}

/// Asks `HeaderValue::from_str` of `reqwest::header` whether it takes
/// `value`: it refuses a string that holds a control character other than
/// tab, or DEL.
#[verifier::external_body]
fn header_value_ok(value: &str) -> (ok: bool)
    ensures
        ok == is_header_value(value@),
{
    reqwest::header::HeaderValue::from_str(value).is_ok()
}

/// The name and the value in a `Name: Value` entry: what stands before and
/// after the first colon, without the white space around it. `None` where
/// the entry has no colon.
pub open spec fn header_parts(entry: Seq<char>) -> Option<(Seq<char>, Seq<char>)> {
    let colon = first_index(entry, ':');
    if colon < entry.len() {
        Some(
            (
                trimmed(entry.subrange(0, colon)),
                trimmed(entry.subrange(colon + 1, entry.len() as int)),
            ),
        )
    } else {
        None
    }
}

/// Splits a `Name: Value` entry at its first colon.
pub fn split_header(entry: &str) -> (r: Option<(&str, &str)>)
    ensures
        match r {
            Some((name, value)) => header_parts(entry@) == Some((name@, value@)),
            None => header_parts(entry@) is None,
        },
{
    match find_char(entry, ':') {
        Some(colon) => {
            let n = entry.unicode_len();
            let name = trim(entry.substring_char(0, colon));
            let value = trim(entry.substring_char(colon + 1, n));
            Some((name, value))
        },
        None => None,
    }
}

/// The headers that the custom entries up to `count` add, in order; entries
/// without a colon add none. The first entry with a bad name or a bad value
/// is an error; of one entry the name is looked at first.
pub open spec fn custom_headers(entries: Seq<Seq<char>>, count: nat) -> Result<
    Seq<(Seq<char>, Seq<char>)>,
    HeaderError,
>
    decreases count,
{
    if count == 0 {
        Ok(Seq::empty())
    } else {
        let index = (count - 1) as nat;
        match custom_headers(entries, index) {
            Err(e) => Err(e),
            Ok(before) => match header_parts(entries[index as int]) {
                None => Ok(before),
                Some((name, value)) => if !is_header_name(name) {
                    Err(HeaderError::InvalidName { index: index as usize })
                } else if !is_header_value(value) {
                    Err(HeaderError::InvalidValue { index: index as usize })
                } else {
                    Ok(before.push((name, value)))
                },
            },
        }
    }
}

/// An entry that fails fails the whole list, however many entries follow.
pub proof fn lemma_custom_headers_error_stays(entries: Seq<Seq<char>>, at: nat, count: nat)
    requires
        at <= count,
        custom_headers(entries, at) is Err,
    ensures
        custom_headers(entries, count) == custom_headers(entries, at),
    decreases count,
{
    if at < count {
        lemma_custom_headers_error_stays(entries, at, (count - 1) as nat);
    }
}

/// The names and values of headers.
pub open spec fn headers_view(headers: Seq<Header>) -> Seq<(Seq<char>, Seq<char>)> {
    Seq::new(headers.len(), |i: int| (headers[i].name@, headers[i].value@))
}

/// Makes the settings of the HTTP client: the browser's `User-Agent` first,
/// then every custom `Name: Value` entry, and a time limit of 30 seconds.
///
/// An entry without a colon is passed over. An entry whose name or value
/// HTTP does not allow fails the whole.
pub fn build_http_client(custom: &[String]) -> (r: Result<ClientSettings, HeaderError>)
    ensures
        match r {
            Ok(settings) => {
                &&& settings.timeout_secs == 30
                &&& custom_headers(texts(custom@), custom@.len()) matches Ok(added)
                &&& headers_view(settings.headers@) == seq![(USER_AGENT_NAME@, USER_AGENT@)] + added
            },
            Err(e) => custom_headers(texts(custom@), custom@.len()) == Err::<
                Seq<(Seq<char>, Seq<char>)>,
                HeaderError,
            >(e),
        },
{
    let total = custom.len();
    let ghost entries = texts(custom@);
    let mut headers: Vec<Header> = Vec::new();
    headers.push(Header { name: USER_AGENT_NAME.to_owned(), value: USER_AGENT.to_owned() });
    let ghost first = seq![(USER_AGENT_NAME@, USER_AGENT@)];
    assert(headers_view(headers@) =~= first + Seq::<(Seq<char>, Seq<char>)>::empty());
    let mut i: usize = 0;
    while i < total
        invariant
            i <= total,
            total == custom@.len(),
            entries == texts(custom@),
            first == seq![(USER_AGENT_NAME@, USER_AGENT@)],
            custom_headers(entries, i as nat) matches Ok(added) && headers_view(headers@) == first
                + added,
        decreases total - i,
    {
        let ghost before = headers_view(headers@);
        match split_header(custom[i].as_str()) {
            None => {},
            Some((name, value)) => {
                if !header_name_ok(name) {
                    proof {
                        lemma_custom_headers_error_stays(entries, (i + 1) as nat, total as nat);
                    }
                    return Err(HeaderError::InvalidName { index: i });
                }
                if !header_value_ok(value) {
                    proof {
                        lemma_custom_headers_error_stays(entries, (i + 1) as nat, total as nat);
                    }
                    return Err(HeaderError::InvalidValue { index: i });
                }
                headers.push(Header { name: name.to_owned(), value: value.to_owned() });
                assert(headers_view(headers@) =~= before.push((name@, value@)));
            },
        }
        i = i + 1;
    }
    Ok(ClientSettings { headers, timeout_secs: TIMEOUT_SECS })
}

} // verus!
