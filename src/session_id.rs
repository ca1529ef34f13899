use vstd::prelude::*;

verus! {

/// Longest session identifier, in characters, that a client may use.
pub const MAX_SESSION_ID_CHARS: usize = 32;

/// A session identifier is acceptable when it has at most
/// `MAX_SESSION_ID_CHARS` characters; nothing else about it is constrained.
pub open spec fn valid_session_id(id: Seq<char>) -> bool {
    id.len() <= MAX_SESSION_ID_CHARS
}

/// Why a session identifier was turned away.
#[derive(Debug, Clone, Copy, PartialEq, Eq, Structural)]
pub enum SessionIdError {
    /// The identifier has more characters than allowed.
    TooLong,
}

impl SessionIdError {
    /// HTTP status with which a rejected request is answered (403).
    pub fn status_code(&self) -> (r: u16)
        ensures
            r == 403,
    {
        403
    }

    /// Text sent back to a client whose identifier was rejected.
    pub fn message(&self) -> (r: String)
        ensures
            r@ == "Max session id length is 32"@,
    {
        let r = String::from_str("Max session id length is 32");
        proof {
            reveal_strlit("Max session id length is 32");
        }
        r
    }
}

/// Accepts an identifier of at most `MAX_SESSION_ID_CHARS` characters and
/// rejects every longer one.
pub fn check_session_id(id: &str) -> (r: Result<(), SessionIdError>)
    ensures
        r is Ok <==> valid_session_id(id@),
        r is Err ==> r == Err::<(), SessionIdError>(SessionIdError::TooLong),
{
    if id.unicode_len() > MAX_SESSION_ID_CHARS {
        Err(SessionIdError::TooLong)
    } else {
        Ok(())
    }
}

} // verus!
