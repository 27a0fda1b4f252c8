//! What the user types before a session starts or a song is requested:
//! names and addresses are trimmed and checked, and a requested song gets
//! the label shown to the host.
use crate::text::{chars_of, string_from_chars, trim_range, trim_spec, utf8_len, utf8_width};
use vstd::prelude::*;
use vstd::string::StringExecFns;

verus! {

/// Longest session name, in UTF-8 bytes.
pub const MAX_SESSION_NAME_BYTES: usize = 50;

/// Longest display name, in UTF-8 bytes.
pub const MAX_DISPLAY_NAME_BYTES: usize = 30;

/// Why a session cannot be created or joined with the given input.
#[derive(Clone, Copy, Debug, PartialEq, Eq, Structural)]
pub enum SessionInputError {
    EmptySessionName,
    SessionNameTooLong,
    EmptyDisplayName,
    DisplayNameTooLong,
    EmptyAddress,
    /// A session is already running on this device.
    SessionActive,
}

impl SessionInputError {
    /// Human-readable description of the error.
    pub fn message(&self) -> (s: String)
        ensures
            match self {
                SessionInputError::EmptySessionName => s@ == "Session name cannot be empty."@,
                SessionInputError::SessionNameTooLong => s@
                    == "Session name must be 50 characters or fewer."@,
                SessionInputError::EmptyDisplayName => s@ == "Display name cannot be empty."@,
                SessionInputError::DisplayNameTooLong => s@
                    == "Display name must be 30 characters or fewer."@,
                SessionInputError::EmptyAddress => s@ == "Address cannot be empty."@,
                SessionInputError::SessionActive => s@
                    == "A session is already active. Leave first."@,
            },
    {
        match self {
            SessionInputError::EmptySessionName => String::from_str("Session name cannot be empty."),
            SessionInputError::SessionNameTooLong => String::from_str(
                "Session name must be 50 characters or fewer.",
            ),
            SessionInputError::EmptyDisplayName => String::from_str("Display name cannot be empty."),
            SessionInputError::DisplayNameTooLong => String::from_str(
                "Display name must be 30 characters or fewer.",
            ),
            SessionInputError::EmptyAddress => String::from_str("Address cannot be empty."),
            SessionInputError::SessionActive => String::from_str(
                "A session is already active. Leave first.",
            ),
        }
    }
}

/// `s` trimmed of surrounding whitespace.
fn trimmed(s: &str) -> (r: Vec<char>)
    ensures
        r@ == trim_spec(s@),
{
    let c = chars_of(s);
    assert(c@.subrange(0, c@.len() as int) =~= c@);
    trim_range(&c, 0, c.len())
}

/// Whether the UTF-8 encoding of `s` is longer than `limit` bytes.
fn byte_len_over(s: &Vec<char>, limit: usize) -> (over: bool)
    requires
        limit < usize::MAX - 4,
    ensures
        over == (utf8_len(s@) > limit),
{
    let n = s.len();
    let mut bytes: usize = 0;
    let mut i: usize = 0;
    while i < n
        invariant
            n == s@.len(),
            limit < usize::MAX - 4,
            i <= n,
            bytes == utf8_len(s@.take(i as int)),
            bytes <= limit,
        decreases n - i,
    {
        assert(s@.take(i + 1).drop_last() =~= s@.take(i as int));
        let w = utf8_width(s[i]);
        if bytes + w > limit {
            proof {
                lemma_utf8_len_grows(s@, i + 1, n as int);
                assert(s@.take(n as int) =~= s@);
            }
            return true;
        }
        bytes = bytes + w;
        i = i + 1;
    }
    assert(s@.take(n as int) =~= s@);
    false
}

proof fn lemma_utf8_len_grows(s: Seq<char>, a: int, b: int)
    requires
        0 <= a <= b <= s.len(),
    ensures
        utf8_len(s.take(a)) <= utf8_len(s.take(b)),
    decreases b - a,
{
    if a < b {
        assert(s.take(b).drop_last() =~= s.take(b - 1));
        lemma_utf8_len_grows(s, a, b - 1);
    }
}

/// The outcome of checking a display name.
pub open spec fn display_name_error(name: Seq<char>) -> Option<SessionInputError> {
    if trim_spec(name).len() == 0 {
        Some(SessionInputError::EmptyDisplayName)
    } else if utf8_len(trim_spec(name)) > MAX_DISPLAY_NAME_BYTES {
        Some(SessionInputError::DisplayNameTooLong)
    } else {
        None
    }
}

/// The outcome of checking the input for creating a session while
/// `active` tells whether a session is already running: the input checks
/// come first, then the running session.
pub open spec fn create_error(session_name: Seq<char>, display_name: Seq<char>, active: bool) -> Option<
    SessionInputError,
> {
    if trim_spec(session_name).len() == 0 {
        Some(SessionInputError::EmptySessionName)
    } else if utf8_len(trim_spec(session_name)) > MAX_SESSION_NAME_BYTES {
        Some(SessionInputError::SessionNameTooLong)
    } else if display_name_error(display_name) is Some {
        display_name_error(display_name)
    } else if active {
        Some(SessionInputError::SessionActive)
    } else {
        None
    }
}

/// The outcome of checking the input for joining a session while
/// `active` tells whether a session is already running: the input checks
/// come first, then the running session.
pub open spec fn join_error(address: Seq<char>, display_name: Seq<char>, active: bool) -> Option<SessionInputError> {
    match display_name_error(display_name) {
        Some(e) => Some(e),
        None => if trim_spec(address).len() == 0 {
            Some(SessionInputError::EmptyAddress)
        } else if active {
            Some(SessionInputError::SessionActive)
        } else {
            None
        },
    }
}

/// Check the input for creating a session: both names are trimmed; the
/// session name must be non-empty and at most 50 bytes, the display name
/// non-empty and at most 30 bytes; and no session may be running
/// (`session_active`). Gives back the trimmed names.
pub fn validate_create(session_name: &str, display_name: &str, session_active: bool) -> (r: Result<
    (String, String),
    SessionInputError,
>)
    ensures
        match create_error(session_name@, display_name@, session_active) {
            Some(e) => r == Err::<(String, String), SessionInputError>(e),
            None => r matches Ok((s, d)) && s@ == trim_spec(session_name@) && d@ == trim_spec(
                display_name@,
            ),
        },
{
    let s = trimmed(session_name);
    if s.len() == 0 {
        return Err(SessionInputError::EmptySessionName);
    }
    if byte_len_over(&s, MAX_SESSION_NAME_BYTES) {
        return Err(SessionInputError::SessionNameTooLong);
    }
    let d = trimmed(display_name);
    if d.len() == 0 {
        return Err(SessionInputError::EmptyDisplayName);
    }
    if byte_len_over(&d, MAX_DISPLAY_NAME_BYTES) {
        return Err(SessionInputError::DisplayNameTooLong);
    }
    if session_active {
        return Err(SessionInputError::SessionActive);
    }
    Ok((string_from_chars(&s), string_from_chars(&d)))
}

/// Check the input for joining a session: the display name is trimmed and
/// must be non-empty and at most 30 bytes; the trimmed address must be
/// non-empty; and no session may be running (`session_active`). Gives
/// back the trimmed address and display name.
pub fn validate_join(address: &str, display_name: &str, session_active: bool) -> (r: Result<
    (String, String),
    SessionInputError,
>)
    ensures
        match join_error(address@, display_name@, session_active) {
            Some(e) => r == Err::<(String, String), SessionInputError>(e),
            None => r matches Ok((a, d)) && a@ == trim_spec(address@) && d@ == trim_spec(
                display_name@,
            ),
        },
        utf8_len(trim_spec(display_name@)) > MAX_DISPLAY_NAME_BYTES ==> r == Err::<
            (String, String),
            SessionInputError,
        >(SessionInputError::DisplayNameTooLong),
{
    let d = trimmed(display_name);
    if d.len() == 0 {
        return Err(SessionInputError::EmptyDisplayName);
    }
    if byte_len_over(&d, MAX_DISPLAY_NAME_BYTES) {
        return Err(SessionInputError::DisplayNameTooLong);
    }
    let a = trimmed(address);
    if a.len() == 0 {
        return Err(SessionInputError::EmptyAddress);
    }
    if session_active {
        return Err(SessionInputError::SessionActive);
    }
    Ok((string_from_chars(&a), string_from_chars(&d)))
}

/// How a requested song is described to the host, and what identifies it.
#[derive(Clone, Debug)]
pub struct ResolvedMeta {
    pub display_name: String,
    pub content: String,
}

/// The label of a song known by artist and title: "artist – title".
pub fn song_label(artist: &str, title: &str) -> (s: String)
    ensures
        s@ == artist@ + " – "@ + title@,
{
    let mut s = artist.to_string();
    s.append(" – ");
    s.append(title);
    s
}

/// A search request: the trimmed query is both the label and the content.
pub fn search_meta(query: &str) -> (m: ResolvedMeta)
    ensures
        m.display_name@ == trim_spec(query@),
        m.content@ == trim_spec(query@),
{
    let q = trimmed(query);
    ResolvedMeta { display_name: string_from_chars(&q), content: string_from_chars(&q) }
}

/// The error for a request kind that is not known.
pub fn unknown_kind_message(kind: &str) -> (s: String)
    ensures
        s@ == "Unknown kind: "@ + kind@,
{
    let mut s = String::from_str("Unknown kind: ");
    s.append(kind);
    s
}

/// Joining applies the display-name rule of creating: an empty or too
/// long display name is refused for that reason, whatever the address and
/// whether a session runs.
pub proof fn law_join_checks_display_name(address: Seq<char>, name: Seq<char>, active: bool)
    ensures
        display_name_error(name) is Some ==> join_error(address, name, active) == display_name_error(
            name,
        ),
        utf8_len(trim_spec(name)) > MAX_DISPLAY_NAME_BYTES ==> join_error(address, name, active)
            == Some(SessionInputError::DisplayNameTooLong),
        trim_spec(name).len() == 0 ==> join_error(address, name, active) == Some(
            SessionInputError::EmptyDisplayName,
        ),
{
    if utf8_len(trim_spec(name)) > MAX_DISPLAY_NAME_BYTES {
        if trim_spec(name).len() == 0 {
            assert(trim_spec(name) =~= Seq::<char>::empty());
        }
    }
}

} // verus!
