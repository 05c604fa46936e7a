//! Password re-checks for fingerprint settings, and the bounded line input
//! of the settings helper.

use vstd::prelude::*;
use crate::authentication::{BackendResult, PromptStyle, SecureString};
use crate::clipboard::history::first_index;
use crate::text::copy_range;

verus! {

/// Longest accepted input line, newline included.
pub const MAX_LINE_BYTES: usize = 4096;

/// One exchange of an authentication conversation.
pub trait Conversation {
    /// The answer to a prompt of the given style, if any.
    fn converse(&mut self, style: PromptStyle, message: &str) -> Option<SecureString>;

    /// Whether the conversation was abandoned.
    fn cancelled(&self) -> bool;
}

/// A system authentication service, such as PAM.
pub trait AuthenticationBackend {
    fn available(&self) -> bool;

    fn unavailable_reason(&self) -> String;

    fn authenticate<C: Conversation>(&mut self, username: &str, conversation: &mut C) -> BackendResult;
}

/// The backend used when no authentication service could be loaded.
pub struct UnavailableBackend {
    pub reason: String,
}

impl AuthenticationBackend for UnavailableBackend {
    fn available(&self) -> (r: bool)
        ensures
            !r,
    {
        false
    }

    fn unavailable_reason(&self) -> (r: String)
        ensures
            r@ == self.reason@,
    {
        self.reason.clone()
    }

    /// Nothing can be checked: every attempt is a system error.
    fn authenticate<C: Conversation>(&mut self, username: &str, conversation: &mut C) -> (r:
        BackendResult)
        ensures
            r == BackendResult::Error,
    {
        BackendResult::Error
    }
}

/// Answers a backend's password prompt with a known password. Its fields
/// are private: only `new` makes one, and only `converse` marks it as
/// prompted.
pub struct PasswordConversation {
    password: Vec<u8>,
    prompted: bool,
}

impl PasswordConversation {
    /// The password this conversation answers with.
    pub closed spec fn spec_password(&self) -> Seq<u8> {
        self.password@
    }

    /// Whether a hidden prompt has been answered.
    pub closed spec fn spec_prompted(&self) -> bool {
        self.prompted
    }

    /// A conversation that will answer with `password` and has not been
    /// prompted yet.
    pub fn new(password: &SecureString) -> (c: Self)
        ensures
            c.spec_password() == password@,
            !c.spec_prompted(),
    {
        PasswordConversation {
            password: copy_range(password.as_bytes(), 0, password.as_bytes().len()),
            prompted: false,
        }
    }

    pub fn password(&self) -> (r: &[u8])
        ensures
            r@ == self.spec_password(),
    {
        self.password.as_slice()
    }

    pub fn prompted(&self) -> (r: bool)
        ensures
            r == self.spec_prompted(),
    {
        self.prompted
    }
}

impl Conversation for PasswordConversation {
    /// A hidden prompt gets the password and marks the conversation as
    /// prompted; an informational message gets an empty answer; anything
    /// else none.
    fn converse(&mut self, style: PromptStyle, message: &str) -> (r: Option<SecureString>)
        ensures
            style == PromptStyle::EchoOff ==> final(self).spec_prompted() && (r matches Some(s)
                && s@ == old(self).spec_password()),
            style == PromptStyle::Info ==> final(self).spec_prompted() == old(self).spec_prompted()
                && (r matches Some(s) && s@.len() == 0),
            style != PromptStyle::EchoOff && style != PromptStyle::Info
                ==> final(self).spec_prompted() == old(self).spec_prompted() && r is None,
            final(self).spec_password() == old(self).spec_password(),
    {
        match style {
            PromptStyle::EchoOff => {
                self.prompted = true;
                Some(SecureString::new(self.password.as_slice()))
            },
            PromptStyle::Info => {
                let empty: Vec<u8> = Vec::new();
                Some(SecureString::new(empty.as_slice()))
            },
            _ => None,
        }
    }

    fn cancelled(&self) -> (r: bool)
        ensures
            !r,
    {
        false
    }
}

/// Checks `password` through an authentication attempt. `attempt` runs the
/// backend, typically `AuthenticationBackend::authenticate`, on the
/// conversation it is handed, and gives the conversation back with the
/// backend's answer. It is handed a fresh conversation that answers with
/// `password`. Success requires that the backend actually asked for the
/// password through that conversation and that the password is not empty,
/// even where the service would let the user through without one;
/// otherwise the verdict is the backend's answer.
pub fn authenticate_password<F>(attempt: F, password: &SecureString) -> (r: BackendResult)
    where
        F: FnOnce(PasswordConversation) -> (PasswordConversation, BackendResult),
    requires
        forall|c: PasswordConversation| #[trigger] attempt.requires((c,)),
    ensures
        exists|handed: PasswordConversation, back: (PasswordConversation, BackendResult)|
            {
                &&& handed.spec_password() == password@
                &&& !handed.spec_prompted()
                &&& #[trigger] attempt.ensures((handed,), back)
                &&& r == if back.0.spec_prompted() && password@.len() > 0 {
                    back.1
                } else {
                    BackendResult::Failure
                }
            },
        password@.len() == 0 ==> r == BackendResult::Failure,
{
    let conversation = PasswordConversation::new(password);
    let ghost handed = conversation;
    let back = attempt(conversation);
    let verdict = password_verdict(back.1, back.0.prompted(), password);
    assert(attempt.ensures((handed,), back));
    verdict
}

/// The verdict of a password check from the backend's `result`: it stands
/// only when the backend asked for the password (`prompted`) and the
/// password is not empty; otherwise the check fails.
pub fn password_verdict(result: BackendResult, prompted: bool, password: &SecureString) -> (r:
    BackendResult)
    ensures
        r == if prompted && password@.len() > 0 {
            result
        } else {
            BackendResult::Failure
        },
{
    if prompted && password.as_bytes().len() > 0 {
        result
    } else {
        BackendResult::Failure
    }
}

#[derive(Clone, Copy, Debug, PartialEq, Eq, Structural)]
pub enum LineError {
    /// The line exceeds 4096 bytes.
    InvalidData,
    /// The input ended inside a line.
    UnexpectedEof,
}

pub open spec fn is_newline(b: u8) -> bool {
    b == 10
}

/// The next line of `input` (without its newline) and what remains: empty
/// input has no line; a line longer than 4096 bytes with its newline, or
/// unterminated input longer than that, is refused without consuming; other
/// unterminated input is consumed and refused as truncated.
pub open spec fn spec_read_line(input: Seq<u8>) -> (Result<Option<Seq<u8>>, LineError>, Seq<u8>) {
    let k = first_index(input, |b: u8| is_newline(b));
    if input.len() == 0 {
        (Ok(None), input)
    } else if k >= 0 {
        if k + 1 > MAX_LINE_BYTES {
            (Err(LineError::InvalidData), input)
        } else {
            (Ok(Some(input.take(k))), input.skip(k + 1))
        }
    } else if input.len() > MAX_LINE_BYTES {
        (Err(LineError::InvalidData), input)
    } else {
        (Err(LineError::UnexpectedEof), seq![])
    }
}

/// Reads one bounded line from `input`, advancing it past what was read.
pub fn read_bounded_line(input: &mut &[u8]) -> (r: Result<Option<Vec<u8>>, LineError>)
    ensures
        ({
            let (sr, rest) = spec_read_line(old(input)@);
            &&& final(input)@ == rest
            &&& match (r, sr) {
                (Ok(Some(line)), Ok(Some(sl))) => line@ == sl,
                (Ok(None), Ok(None)) => true,
                (Err(e), Err(se)) => e == se,
                _ => false,
            }
        }),
{
    let data: &[u8] = *input;
    let ghost s = data@;
    let ghost p = |b: u8| is_newline(b);
    if data.len() == 0 {
        return Ok(None);
    }
    let mut k: usize = 0;
    while k < data.len() && data[k] != 10
        invariant
            s == data@,
            p == (|b: u8| is_newline(b)),
            k <= s.len(),
            forall|j: int| 0 <= j < k ==> !p(#[trigger] s[j]),
        decreases s.len() - k,
    {
        k += 1;
    }
    if k < data.len() {
        proof {
            assert(crate::clipboard::history::is_first(s, p, k as int));
            crate::clipboard::history::lemma_first_exists(s, p, k as int);
            let f = first_index(s, p);
            if f < k {
                assert(!p(s[f]));
            }
        }
        if k + 1 > MAX_LINE_BYTES {
            return Err(LineError::InvalidData);
        }
        let line = copy_range(data, 0, k);
        assert(line@ =~= s.take(k as int));
        *input = vstd::slice::slice_subrange(data, k + 1, data.len());
        assert(input@ =~= s.skip(k + 1));
        return Ok(Some(line));
    }
    proof {
        assert(first_index(s, p) == -1) by {
            if exists|i: int| crate::clipboard::history::is_first(s, p, i) {
                let i = choose|i: int| crate::clipboard::history::is_first(s, p, i);
                assert(!p(s[i]));
            }
        }
    }
    if data.len() > MAX_LINE_BYTES {
        return Err(LineError::InvalidData);
    }
    *input = vstd::slice::slice_subrange(data, data.len(), data.len());
    assert(input@ =~= Seq::<u8>::empty());
    Err(LineError::UnexpectedEof)
}

/// The fingers that can be enrolled, by fprintd's names.
pub open spec fn known_fingers() -> Seq<Seq<char>> {
    seq![
        "left-thumb"@,
        "left-index-finger"@,
        "left-middle-finger"@,
        "left-ring-finger"@,
        "left-little-finger"@,
        "right-thumb"@,
        "right-index-finger"@,
        "right-middle-finger"@,
        "right-ring-finger"@,
        "right-little-finger"@,
    ]
}

fn finger_names() -> (r: Vec<&'static str>)
    ensures
        r@.map_values(|s: &str| s@) == known_fingers(),
{
    let mut r: Vec<&'static str> = Vec::new();
    r.push("left-thumb");
    r.push("left-index-finger");
    r.push("left-middle-finger");
    r.push("left-ring-finger");
    r.push("left-little-finger");
    r.push("right-thumb");
    r.push("right-index-finger");
    r.push("right-middle-finger");
    r.push("right-ring-finger");
    r.push("right-little-finger");
    assert(r@.map_values(|s: &str| s@) =~= known_fingers());
    r
}

/// A command of the settings session.
#[derive(Clone, Copy, Debug, PartialEq, Eq, Structural)]
pub enum SettingsCommand {
    List,
    Enroll,
    Cancel,
    /// Anything else ends the session.
    Stop,
}

/// The command a message's `command` field names.
pub fn settings_command(command: Option<&str>) -> (r: SettingsCommand)
    ensures
        r == match command {
            Some(c) => if c@ == "list"@ {
                SettingsCommand::List
            } else if c@ == "enroll"@ {
                SettingsCommand::Enroll
            } else if c@ == "cancel"@ {
                SettingsCommand::Cancel
            } else {
                SettingsCommand::Stop
            },
            None => SettingsCommand::Stop,
        },
{
    match command {
        Some(c) => {
            let chars = crate::text::str_chars(c);
            if crate::text::chars_equal_str(chars.as_slice(), "list") {
                SettingsCommand::List
            } else if crate::text::chars_equal_str(chars.as_slice(), "enroll") {
                SettingsCommand::Enroll
            } else if crate::text::chars_equal_str(chars.as_slice(), "cancel") {
                SettingsCommand::Cancel
            } else {
                SettingsCommand::Stop
            }
        },
        None => SettingsCommand::Stop,
    }
}

/// Why an enrollment does not start.
#[derive(Clone, Copy, Debug, PartialEq, Eq, Structural)]
pub enum EnrollRefusal {
    InvalidFinger,
    AlreadyEnrolled,
}

impl EnrollRefusal {
    /// The error code reported to the settings page.
    pub fn code(self) -> (r: &'static str)
        ensures
            r@ == match self {
                EnrollRefusal::InvalidFinger => "invalid-finger"@,
                EnrollRefusal::AlreadyEnrolled => "already-enrolled"@,
            },
    {
        match self {
            EnrollRefusal::InvalidFinger => "invalid-finger",
            EnrollRefusal::AlreadyEnrolled => "already-enrolled",
        }
    }
}

pub open spec fn string_seq_views(v: Seq<String>) -> Seq<Seq<char>> {
    v.map_values(|s: String| s@)
}

/// An enrollment starts for a known finger that is not enrolled yet.
pub fn check_enrollment(finger: &str, enrolled: &[String]) -> (r: Result<(), EnrollRefusal>)
    ensures
        !known_fingers().contains(finger@) ==> r == Err::<(), EnrollRefusal>(
            EnrollRefusal::InvalidFinger,
        ),
        known_fingers().contains(finger@) && string_seq_views(enrolled@).contains(finger@) ==> r
            == Err::<(), EnrollRefusal>(EnrollRefusal::AlreadyEnrolled),
        r is Ok <==> known_fingers().contains(finger@) && !string_seq_views(enrolled@).contains(
            finger@,
        ),
{
    let names = finger_names();
    let f = crate::text::str_chars(finger);
    let mut known = false;
    let mut i: usize = 0;
    while i < names.len()
        invariant
            i <= names@.len(),
            names@.map_values(|s: &str| s@) == known_fingers(),
            f@ == finger@,
            known == exists|k: int| 0 <= k < i && known_fingers()[k] == finger@,
        decreases names@.len() - i,
    {
        assert(names@.map_values(|s: &str| s@)[i as int] == names@[i as int]@);
        if crate::text::chars_equal_str(f.as_slice(), names[i]) {
            known = true;
        }
        i += 1;
    }
    if !known {
        return Err(EnrollRefusal::InvalidFinger);
    }
    assert(known_fingers().contains(finger@));
    let mut j: usize = 0;
    while j < enrolled.len()
        invariant
            j <= enrolled@.len(),
            f@ == finger@,
            known_fingers().contains(finger@),
            forall|k: int| 0 <= k < j ==> string_seq_views(enrolled@)[k] != finger@,
        decreases enrolled@.len() - j,
    {
        let e = crate::text::str_chars(enrolled[j].as_str());
        if crate::text::chars_equal(e.as_slice(), f.as_slice()) {
            assert(string_seq_views(enrolled@)[j as int] == finger@);
            return Err(EnrollRefusal::AlreadyEnrolled);
        }
        j += 1;
    }
    Ok(())
}

/// The session user from `SUDO_UID`: a decimal user id that is not root.
pub fn session_user_id(value: &str) -> (r: Option<u32>)
    ensures
        r == match crate::cpu_scheduling::spec_parse_u32(value@) {
            Some(uid) => if uid != 0 {
                Some(uid)
            } else {
                None
            },
            None => None,
        },
{
    let chars = crate::text::str_chars(value);
    match crate::cpu_scheduling::parse_u32(chars.as_slice()) {
        Some(uid) => if uid != 0 {
            Some(uid)
        } else {
            None
        },
        None => None,
    }
}

} // verus!
