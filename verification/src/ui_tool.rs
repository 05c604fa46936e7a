//! The UI development tool's command line: its commands, errors, argument
//! checks, the Flutter attach arguments and the VM-service address check.

use vstd::prelude::*;
use vstd::utf8::{decode_utf8, encode_utf8, valid_utf8};
use crate::cli::{LexicalPathError, normalize_parts, path_parts, rooted, spec_lexical_absolute};
use crate::cpu_scheduling::{all_digits, parse_u32, spec_parse_u32};
use crate::text::{
    chars_equal_str, debug_quote, debug_quoted, lossy_string, push_str_chars, str_chars,
    string_from_chars, utf8_lossy, utf8_string,
};

verus! {

broadcast use vstd::utf8::encode_utf8_decode_utf8;

/// Largest VM-service endpoint file that is read.
pub const MAX_VM_SERVICE_BYTES: u64 = 65536;

/// Longest workspace path accepted.
pub const MAX_WORKSPACE_BYTES: usize = 4096;

/// A failure of the tool; a usage error adds the help hint when shown.
#[derive(Clone, Debug)]
pub struct ToolError {
    pub message: String,
    pub usage: bool,
}

/// What the user sees of an error.
pub open spec fn tool_error_text(message: Seq<char>, usage: bool) -> Seq<char> {
    if usage {
        message + "\nTry 'denial-ui --help'."@
    } else {
        message
    }
}

impl ToolError {
    pub fn new(message: &str) -> (r: ToolError)
        ensures
            r.message@ == message@,
            !r.usage,
    {
        ToolError { message: message.to_owned(), usage: false }
    }

    pub fn usage(message: &str) -> (r: ToolError)
        ensures
            r.message@ == message@,
            r.usage,
    {
        ToolError { message: message.to_owned(), usage: true }
    }

    pub fn text(&self) -> (r: String)
        ensures
            r@ == tool_error_text(self.message@, self.usage),
    {
        let mut chars = str_chars(self.message.as_str());
        if self.usage {
            push_str_chars(&mut chars, "\nTry 'denial-ui --help'.");
        }
        string_from_chars(chars.as_slice())
    }
}

/// The program runs as the pinned Flutter tool under these names.
pub open spec fn spec_is_flutter_passthrough(executable: Seq<u8>) -> bool {
    executable == encode_utf8("denial-flutter"@) || executable == encode_utf8("flutter"@)
}

fn bytes_equal_str(a: &[u8], lit: &str) -> (r: bool)
    ensures
        r == (a@ == encode_utf8(lit@)),
{
    let b = lit.as_bytes();
    if a.len() != b.len() {
        return false;
    }
    let mut i: usize = 0;
    while i < a.len()
        invariant
            i <= a@.len(),
            a@.len() == b@.len(),
            b@ == encode_utf8(lit@),
            forall|k: int| 0 <= k < i ==> a@[k] == b@[k],
        decreases a@.len() - i,
    {
        if a[i] != b[i] {
            assert(a@[i as int] != b@[i as int]);
            return false;
        }
        i += 1;
    }
    assert(a@ =~= b@);
    true
}

pub fn is_flutter_passthrough_executable(executable: &[u8]) -> (r: bool)
    ensures
        r == spec_is_flutter_passthrough(executable@),
{
    bytes_equal_str(executable, "denial-flutter") || bytes_equal_str(executable, "flutter")
}

/// A command of the tool.
#[derive(Clone, Copy, Debug, PartialEq, Eq, Structural)]
pub enum ToolCommand {
    Doctor,
    Prepare,
    PrepareProfile,
    Uri,
    Attach,
    AttachProfile,
    Flutter,
    Version,
    Help,
}

/// The command a word names.
pub open spec fn spec_tool_command(word: Seq<char>) -> Option<ToolCommand> {
    if word == "doctor"@ {
        Some(ToolCommand::Doctor)
    } else if word == "prepare"@ {
        Some(ToolCommand::Prepare)
    } else if word == "prepare-profile"@ {
        Some(ToolCommand::PrepareProfile)
    } else if word == "uri"@ {
        Some(ToolCommand::Uri)
    } else if word == "attach"@ {
        Some(ToolCommand::Attach)
    } else if word == "attach-profile"@ {
        Some(ToolCommand::AttachProfile)
    } else if word == "flutter"@ {
        Some(ToolCommand::Flutter)
    } else if word == "version"@ || word == "--version"@ || word == "-V"@ {
        Some(ToolCommand::Version)
    } else if word == "help"@ || word == "--help"@ || word == "-h"@ {
        Some(ToolCommand::Help)
    } else {
        None
    }
}

fn command_of_word(word: &[char]) -> (r: Option<ToolCommand>)
    ensures
        r == spec_tool_command(word@),
{
    if chars_equal_str(word, "doctor") {
        Some(ToolCommand::Doctor)
    } else if chars_equal_str(word, "prepare") {
        Some(ToolCommand::Prepare)
    } else if chars_equal_str(word, "prepare-profile") {
        Some(ToolCommand::PrepareProfile)
    } else if chars_equal_str(word, "uri") {
        Some(ToolCommand::Uri)
    } else if chars_equal_str(word, "attach") {
        Some(ToolCommand::Attach)
    } else if chars_equal_str(word, "attach-profile") {
        Some(ToolCommand::AttachProfile)
    } else if chars_equal_str(word, "flutter") {
        Some(ToolCommand::Flutter)
    } else if chars_equal_str(word, "version") || chars_equal_str(word, "--version")
        || chars_equal_str(word, "-V") {
        Some(ToolCommand::Version)
    } else if chars_equal_str(word, "help") || chars_equal_str(word, "--help") || chars_equal_str(
        word,
        "-h",
    ) {
        Some(ToolCommand::Help)
    } else {
        None
    }
}

/// The message for a word that names no command.
pub open spec fn unknown_command_message(word: Seq<char>) -> Seq<char> {
    "unknown command "@ + debug_quoted(word)
}

/// Reads the command from the first argument: it must be there, be UTF-8
/// and name a command; each failure is a usage error.
pub fn parse_tool_command(argument: Option<&[u8]>) -> (r: Result<ToolCommand, ToolError>)
    ensures
        argument is None ==> (r matches Err(e) && e.usage && e.message@
            == "a command is required"@),
        argument matches Some(a) && !valid_utf8(a@) ==> (r matches Err(e) && e.usage
            && e.message@ == "commands must be valid UTF-8"@),
        match argument {
            Some(a) => valid_utf8(a@) ==> match spec_tool_command(decode_utf8(a@)) {
                Some(c) => r == Ok::<ToolCommand, ToolError>(c),
                None => r matches Err(e) && e.usage && e.message@ == unknown_command_message(
                    decode_utf8(a@),
                ),
            },
            None => true,
        },
{
    let a = match argument {
        Some(a) => a,
        None => return Err(ToolError::usage("a command is required")),
    };
    let text = match utf8_string(a) {
        Some(t) => t,
        None => return Err(ToolError::usage("commands must be valid UTF-8")),
    };
    proof {
        assert(decode_utf8(encode_utf8(text@)) == text@);
    }
    let word = str_chars(text.as_str());
    match command_of_word(word.as_slice()) {
        Some(c) => Ok(c),
        None => {
            let quoted = debug_quote(text.as_str());
            let mut message = str_chars("unknown command ");
            push_str_chars(&mut message, quoted.as_str());
            let m = string_from_chars(message.as_slice());
            Err(ToolError::usage(m.as_str()))
        },
    }
}

/// Commands that take no arguments refuse any.
pub fn expect_no_arguments(count: usize) -> (r: Result<(), ToolError>)
    ensures
        r is Ok <==> count == 0,
        r matches Err(e) ==> e.usage && e.message@ == "this command accepts no arguments"@,
{
    if count == 0 {
        Ok(())
    } else {
        Err(ToolError::usage("this command accepts no arguments"))
    }
}

/// Commands that work on a workspace take at most one path.
pub fn expect_at_most_one_workspace(count: usize) -> (r: Result<(), ToolError>)
    ensures
        r is Ok <==> count <= 1,
        r matches Err(e) ==> e.usage && e.message@ == "expected at most one workspace path"@,
{
    if count <= 1 {
        Ok(())
    } else {
        Err(ToolError::usage("expected at most one workspace path"))
    }
}

/// The message when no workspace can be found.
pub fn missing_workspace() -> (r: ToolError)
    ensures
        !r.usage,
        r.message@
            == "could not discover a Flutter workspace; pass an explicit path or select one in Denial Settings"@,
{
    ToolError::new(
        "could not discover a Flutter workspace; pass an explicit path or select one in Denial Settings",
    )
}

/// The message for a path that is not absolute.
pub open spec fn not_absolute_message(label: Seq<char>, path: Seq<u8>) -> Seq<char> {
    label + " path must be absolute: "@ + utf8_lossy(path)
}

/// An absolute path starts at the root.
pub fn require_absolute(label: &str, path: &[u8]) -> (r: Result<(), ToolError>)
    ensures
        r is Ok <==> path@.len() > 0 && path@[0] == 0x2fu8,
        r matches Err(e) ==> !e.usage && e.message@ == not_absolute_message(label@, path@),
{
    if path.len() > 0 && path[0] == 0x2f {
        return Ok(());
    }
    let shown = lossy_string(path);
    let mut message = str_chars(label);
    push_str_chars(&mut message, " path must be absolute: ");
    push_str_chars(&mut message, shown.as_str());
    let m = string_from_chars(message.as_slice());
    Err(ToolError::new(m.as_str()))
}

/// The tool's lexical normalisation: like the control client's, but the
/// root itself is a valid result.
pub open spec fn spec_tool_lexical_absolute(p: Seq<u8>) -> Result<Seq<u8>, LexicalPathError> {
    if p.len() == 0 || p[0] != 0x2fu8 {
        Err(LexicalPathError::NotAbsolute)
    } else {
        match normalize_parts(path_parts(p)) {
            None => Err(LexicalPathError::EscapesRoot),
            Some(stack) => Ok(rooted(stack)),
        }
    }
}

/// The path made absolute without the file system; the error messages name
/// the path.
pub fn tool_lexical_absolute(path: &[u8]) -> (r: Result<Vec<u8>, ToolError>)
    ensures
        r matches Ok(v) ==> spec_tool_lexical_absolute(path@) == Ok::<Seq<u8>, LexicalPathError>(
            v@,
        ),
        r matches Err(e) ==> !e.usage && (match spec_tool_lexical_absolute(path@) {
            Err(LexicalPathError::NotAbsolute) => e.message@ == not_absolute_message(
                "path"@,
                path@,
            ),
            Err(_) => e.message@ == "path escapes the filesystem root: "@ + utf8_lossy(path@),
            Ok(_) => false,
        }),
{
    match require_absolute("path", path) {
        Ok(()) => {},
        Err(e) => return Err(e),
    }
    match crate::cli::lexical_absolute(path) {
        Ok(v) => Ok(v),
        Err(LexicalPathError::NamesRoot) => {
            let mut root: Vec<u8> = Vec::new();
            root.push(0x2f);
            proof {
                assert(root@ =~= seq![0x2fu8]);
            }
            Ok(root)
        },
        Err(_) => {
            let shown = lossy_string(path);
            let mut message = str_chars("path escapes the filesystem root: ");
            push_str_chars(&mut message, shown.as_str());
            let m = string_from_chars(message.as_slice());
            Err(ToolError::new(m.as_str()))
        },
    }
}

/// `needle` occurs in `haystack`; an empty needle never does.
pub open spec fn spec_contains_bytes(haystack: Seq<u8>, needle: Seq<u8>) -> bool {
    needle.len() > 0 && exists|i: int|
        0 <= i && i + needle.len() <= haystack.len() && #[trigger] haystack.subrange(
            i,
            i + needle.len(),
        ) == needle
}

pub fn contains_bytes(haystack: &[u8], needle: &[u8]) -> (r: bool)
    ensures
        r == spec_contains_bytes(haystack@, needle@),
{
    if needle.len() == 0 || needle.len() > haystack.len() {
        return false;
    }
    let last = haystack.len() - needle.len();
    let mut i: usize = 0;
    while i <= last
        invariant
            last == haystack@.len() - needle@.len(),
            needle@.len() > 0,
            needle@.len() <= haystack@.len(),
            haystack@.len() <= usize::MAX,
            i <= last + 1,
            forall|k: int|
                0 <= k < i ==> #[trigger] haystack@.subrange(k, k + needle@.len()) != needle@,
        decreases last + 1 - i,
    {
        let mut j: usize = 0;
        let mut same = true;
        while j < needle.len()
            invariant
                j <= needle@.len(),
                i <= last,
                last == haystack@.len() - needle@.len(),
                needle@.len() <= haystack@.len(),
                haystack@.len() <= usize::MAX,
                same == forall|m: int| 0 <= m < j ==> haystack@[i + m] == needle@[m],
            decreases needle@.len() - j,
        {
            if haystack[i + j] != needle[j] {
                same = false;
            }
            j += 1;
        }
        if same {
            assert(haystack@.subrange(i as int, i + needle@.len()) =~= needle@);
            return true;
        }
        proof {
            let m = choose|m: int| 0 <= m < needle@.len() && haystack@[i + m] != needle@[m];
            assert(haystack@.subrange(i as int, i + needle@.len())[m] != needle@[m]);
        }
        i += 1;
    }
    false
}

pub open spec fn bytes_views(v: Seq<Vec<u8>>) -> Seq<Seq<u8>> {
    v.map_values(|a: Vec<u8>| a@)
}

/// Attaching opens DevTools in the browser unless the arguments already
/// choose: `--devtools` goes right after `attach`.
pub open spec fn spec_with_browser_devtools(args: Seq<Seq<u8>>) -> Seq<Seq<u8>> {
    if args.len() > 0 && args[0] == encode_utf8("attach"@) && !(exists|i: int|
        0 <= i < args.len() && (#[trigger] args[i] == encode_utf8("--devtools"@) || args[i]
            == encode_utf8("--no-devtools"@))) {
        args.insert(1, encode_utf8("--devtools"@))
    } else {
        args
    }
}

fn literal_bytes(lit: &str) -> (r: Vec<u8>)
    ensures
        r@ == encode_utf8(lit@),
{
    vstd::slice::slice_to_vec(lit.as_bytes())
}

pub fn attach_with_browser_devtools(arguments: Vec<Vec<u8>>) -> (r: Vec<Vec<u8>>)
    ensures
        bytes_views(r@) == spec_with_browser_devtools(bytes_views(arguments@)),
{
    let ghost av = bytes_views(arguments@);
    if arguments.len() == 0 || !bytes_equal_str(arguments[0].as_slice(), "attach") {
        return arguments;
    }
    let mut i: usize = 0;
    while i < arguments.len()
        invariant
            i <= arguments@.len(),
            av == bytes_views(arguments@),
            forall|k: int|
                0 <= k < i ==> !(#[trigger] av[k] == encode_utf8("--devtools"@) || av[k]
                    == encode_utf8("--no-devtools"@)),
        decreases arguments@.len() - i,
    {
        assert(av[i as int] == arguments@[i as int]@);
        if bytes_equal_str(arguments[i].as_slice(), "--devtools") || bytes_equal_str(
            arguments[i].as_slice(),
            "--no-devtools",
        ) {
            return arguments;
        }
        i += 1;
    }
    let mut arguments = arguments;
    arguments.insert(1, literal_bytes("--devtools"));
    proof {
        assert(bytes_views(arguments@) =~= av.insert(1, encode_utf8("--devtools"@)));
    }
    arguments
}

pub open spec fn string_views(v: Seq<String>) -> Seq<Seq<char>> {
    v.map_values(|s: String| s@)
}

/// The Flutter tool's arguments to attach to the live shell at `uri`.
pub fn attach_arguments(profile: bool, uri: &str) -> (r: Vec<String>)
    ensures
        string_views(r@) == if profile {
            seq!["attach"@, "--devtools"@, "--profile"@, "--debug-url"@, uri@]
        } else {
            seq!["attach"@, "--devtools"@, "--debug-url"@, uri@]
        },
{
    let mut r: Vec<String> = Vec::new();
    r.push("attach".to_owned());
    r.push("--devtools".to_owned());
    if profile {
        r.push("--profile".to_owned());
    }
    r.push("--debug-url".to_owned());
    r.push(uri.to_owned());
    proof {
        if profile {
            assert(string_views(r@) =~= seq![
                "attach"@,
                "--devtools"@,
                "--profile"@,
                "--debug-url"@,
                uri@,
            ]);
        } else {
            assert(string_views(r@) =~= seq!["attach"@, "--devtools"@, "--debug-url"@, uri@]);
        }
    }
    r
}

pub open spec fn is_uri_forbidden(c: char) -> bool {
    c == ' ' || c == '\t' || c == '\n' || c == '\x0C' || c == '\r' || c == '\0'
}

/// `i` is where the first `/` of `s` stands.
pub open spec fn first_slash_at(s: Seq<char>, i: int) -> bool {
    0 <= i < s.len() && s[i] == '/' && forall|j: int| 0 <= j < i ==> s[j] != '/'
}

/// The first `/` of `rest` is at `i`, after a non-zero decimal port that
/// fits 16 bits and before a non-empty path.
pub open spec fn port_and_path_at(rest: Seq<char>, i: int) -> bool {
    &&& first_slash_at(rest, i)
    &&& i > 0
    &&& all_digits(rest.take(i))
    &&& spec_parse_u32(rest.take(i)) matches Some(v) && v <= 65535 && v != 0
    &&& rest.len() > i + 1
}

/// A loopback VM-service address: `http://127.0.0.1:`, a non-zero port that
/// fits 16 bits, `/` and a non-empty path, with no white space or NUL.
pub open spec fn spec_valid_vm_service_uri(uri: Seq<char>) -> bool {
    let prefix = "http://127.0.0.1:"@;
    &&& prefix.len() <= uri.len()
    &&& uri.take(prefix.len() as int) == prefix
    &&& exists|i: int| #[trigger] port_and_path_at(uri.skip(prefix.len() as int), i)
    &&& forall|k: int| 0 <= k < uri.len() ==> !is_uri_forbidden(#[trigger] uri[k])
}

pub fn valid_vm_service_uri(uri: &str) -> (r: bool)
    ensures
        r == spec_valid_vm_service_uri(uri@),
{
    let u = str_chars(uri);
    let prefix = str_chars("http://127.0.0.1:");
    let ghost pv = "http://127.0.0.1:"@;
    if prefix.len() > u.len() {
        return false;
    }
    let mut k: usize = 0;
    while k < prefix.len()
        invariant
            k <= prefix@.len() <= u@.len(),
            u@ == uri@,
            prefix@ == pv,
            pv == "http://127.0.0.1:"@,
            forall|m: int| 0 <= m < k ==> u@[m] == prefix@[m],
        decreases prefix@.len() - k,
    {
        if u[k] != prefix[k] {
            assert(u@.take(prefix@.len() as int)[k as int] != prefix@[k as int]);
            assert(u@.take(pv.len() as int) != pv);
            return false;
        }
        k += 1;
    }
    assert(u@.take(prefix@.len() as int) =~= prefix@);
    let start = prefix.len();
    let ghost rest = u@.skip(start as int);
    let mut i: usize = start;
    while i < u.len() && u[i] != '/'
        invariant
            start <= i <= u@.len(),
            u@ == uri@,
            prefix@ == pv,
            pv == "http://127.0.0.1:"@,
            start == pv.len(),
            rest == u@.skip(start as int),
            forall|j: int| start <= j < i ==> u@[j] != '/',
        decreases u@.len() - i,
    {
        i += 1;
    }
    if i == u.len() {
        proof {
            assert forall|m: int| !first_slash_at(rest, m) by {
                if 0 <= m < rest.len() {
                    assert(rest[m] == u@[start + m]);
                }
            }
        }
        return false;
    }
    let ghost slash = i - start;
    proof {
        assert(first_slash_at(rest, slash)) by {
            assert(rest[slash] == u@[i as int]);
            assert forall|j: int| 0 <= j < slash implies rest[j] != '/' by {
                assert(rest[j] == u@[start + j]);
            }
        }
        assert forall|m: int| first_slash_at(rest, m) implies m == slash by {
            if m < slash {
                assert(rest[m] == u@[start + m]);
            }
        }
    }
    proof {
        assert(u@.take(pv.len() as int) =~= pv);
    }
    let port = vstd::slice::slice_subrange(u.as_slice(), start, i);
    assert(port@ =~= rest.take(slash));
    if port.len() == 0 {
        return false;
    }
    let mut d: usize = 0;
    while d < port.len()
        invariant
            d <= port@.len(),
            u@ == uri@,
            prefix@ == pv,
            pv == "http://127.0.0.1:"@,
            start == pv.len(),
            rest == u@.skip(start as int),
            port@ == rest.take(slash),
            forall|m: int| first_slash_at(rest, m) ==> m == slash,
            forall|m: int| 0 <= m < d ==> crate::cpu_scheduling::is_digit_char(#[trigger] port@[m]),
        decreases port@.len() - d,
    {
        if !('0' <= port[d] && port[d] <= '9') {
            proof {
                assert(!crate::cpu_scheduling::is_digit_char(port@[d as int]));
                assert forall|m: int| !port_and_path_at(rest, m) by {
                    if first_slash_at(rest, m) {
                        assert(m == slash);
                    }
                }
            }
            return false;
        }
        d += 1;
    }
    let ok_port = match parse_u32(port) {
        Some(v) => v <= 65535 && v != 0,
        None => false,
    };
    if !ok_port {
        return false;
    }
    if u.len() <= i + 1 {
        return false;
    }
    let mut c: usize = 0;
    while c < u.len()
        invariant
            c <= u@.len(),
            u@ == uri@,
            prefix@ == pv,
            pv == "http://127.0.0.1:"@,
            start == pv.len(),
            rest == u@.skip(start as int),
            port@ == rest.take(slash),
            first_slash_at(rest, slash),
            forall|m: int| first_slash_at(rest, m) ==> m == slash,
            forall|m: int| 0 <= m < c ==> !is_uri_forbidden(#[trigger] u@[m]),
        decreases u@.len() - c,
    {
        let ch = u[c];
        if ch == ' ' || ch == '\t' || ch == '\n' || ch == '\x0C' || ch == '\r' || ch == '\0' {
            return false;
        }
        c += 1;
    }
    proof {
        assert(rest.len() > slash + 1);
        assert(port_and_path_at(rest, slash));
    }
    true
}

/// Why a VM-service endpoint file is refused before it is read.
#[derive(Clone, Copy, Debug, PartialEq, Eq, Structural)]
pub enum EndpointRefusal {
    /// It is not a regular file (a link, a directory, a device).
    NotRegularFile,
    /// Another user owns it.
    NotOwned,
    /// Its permission bits are not exactly `0600`.
    NotPrivate,
}

/// The endpoint file must be a regular file of the current user `uid`, with
/// permission bits `0600`; the checks go in that order.
pub open spec fn spec_endpoint_refusal(is_file: bool, owner: u32, uid: u32, mode: u32) -> Option<
    EndpointRefusal,
> {
    if !is_file {
        Some(EndpointRefusal::NotRegularFile)
    } else if owner != uid {
        Some(EndpointRefusal::NotOwned)
    } else if mode & 0o777u32 != 0o600u32 {
        Some(EndpointRefusal::NotPrivate)
    } else {
        None
    }
}

/// Checks the metadata of the VM-service endpoint file: whether it is a
/// regular file, its owner, the current user and its mode bits.
pub fn endpoint_refusal(is_file: bool, owner: u32, uid: u32, mode: u32) -> (r: Option<
    EndpointRefusal,
>)
    ensures
        r == spec_endpoint_refusal(is_file, owner, uid, mode),
{
    if !is_file {
        Some(EndpointRefusal::NotRegularFile)
    } else if owner != uid {
        Some(EndpointRefusal::NotOwned)
    } else if mode & 0o777u32 != 0o600u32 {
        Some(EndpointRefusal::NotPrivate)
    } else {
        None
    }
}

/// The address an endpoint document gives, from its top-level fields (each
/// key with its value when that is a string): the document must hold
/// exactly one field, `uri`, whose string is a valid VM-service address.
pub open spec fn spec_endpoint_uri(fields: Seq<(Seq<char>, Option<Seq<char>>)>) -> Option<
    Seq<char>,
> {
    if fields.len() == 1 && fields[0].0 == "uri"@ && (fields[0].1 matches Some(u)
        && spec_valid_vm_service_uri(u)) {
        fields[0].1
    } else {
        None
    }
}

pub open spec fn field_views(fields: Seq<(String, Option<String>)>) -> Seq<
    (Seq<char>, Option<Seq<char>>),
> {
    fields.map_values(
        |f: (String, Option<String>)|
            (
                f.0@,
                match f.1 {
                    Some(v) => Some(v@),
                    None => None,
                },
            ),
    )
}

/// Reads the address out of the endpoint document's top-level fields.
pub fn endpoint_uri(fields: &[(String, Option<String>)]) -> (r: Option<String>)
    ensures
        match r {
            Some(u) => spec_endpoint_uri(field_views(fields@)) == Some(u@),
            None => spec_endpoint_uri(field_views(fields@)) is None,
        },
{
    let ghost views = field_views(fields@);
    if fields.len() != 1 {
        return None;
    }
    assert(views[0] == (fields@[0].0@, match fields@[0].1 { Some(v) => Some(v@), None => None }));
    let key = str_chars(fields[0].0.as_str());
    if !chars_equal_str(key.as_slice(), "uri") {
        return None;
    }
    match &fields[0].1 {
        Some(value) => {
            if valid_vm_service_uri(value.as_str()) {
                Some(value.clone())
            } else {
                None
            }
        },
        None => None,
    }
}

/// A canonical workspace path is usable when it is UTF-8, within the length
/// cap and free of NUL bytes; it is returned as text.
pub fn workspace_text(canonical: &[u8]) -> (r: Option<String>)
    ensures
        r is Some <==> valid_utf8(canonical@) && canonical@.len() <= MAX_WORKSPACE_BYTES
            && !canonical@.contains(0u8),
        r matches Some(s) ==> encode_utf8(s@) == canonical@,
{
    if canonical.len() > MAX_WORKSPACE_BYTES || crate::clipboard::content::contains_byte(
        canonical,
        0,
    ) {
        return None;
    }
    utf8_string(canonical)
}

/// Which bundle `prepare` builds: the JIT debug bundle or the AOT profile
/// bundle.
#[derive(Clone, Copy, Debug, PartialEq, Eq, Structural)]
pub enum PreparedRuntime {
    Debug,
    Profile,
}

/// The build settings of a bundle: build mode, widget-creation tracking,
/// icon tree shaking and the assemble target.
pub open spec fn build_settings(runtime: PreparedRuntime) -> (Seq<char>, Seq<char>, Seq<char>, Seq<char>) {
    match runtime {
        PreparedRuntime::Debug => ("debug"@, "true"@, "false"@, "copy_flutter_bundle"@),
        PreparedRuntime::Profile => (
            "profile"@,
            "false"@,
            "true"@,
            "profile_bundle_linux-x64_assets"@,
        ),
    }
}

/// The Flutter tool's arguments that assemble a bundle into `output`.
pub open spec fn spec_assemble_arguments(runtime: PreparedRuntime, output: Seq<char>) -> Seq<
    Seq<char>,
> {
    let settings = build_settings(runtime);
    seq![
        "assemble"@,
        "--output="@ + output,
        "-dTargetFile=lib/main.dart"@,
        "-dBuildMode="@ + settings.0,
        "-dTargetPlatform=linux-x64"@,
        "-dDartObfuscation=false"@,
        "-dTrackWidgetCreation="@ + settings.1,
        "-dTreeShakeIcons="@ + settings.2,
        settings.3,
    ]
}

impl PreparedRuntime {
    pub fn build_mode(self) -> (r: &'static str)
        ensures
            r@ == build_settings(self).0,
    {
        match self {
            PreparedRuntime::Debug => "debug",
            PreparedRuntime::Profile => "profile",
        }
    }
}

fn joined(a: &str, b: &str) -> (r: String)
    ensures
        r@ == a@ + b@,
{
    let mut out = str_chars(a);
    push_str_chars(&mut out, b);
    string_from_chars(out.as_slice())
}

pub fn assemble_arguments(runtime: PreparedRuntime, output: &str) -> (r: Vec<String>)
    ensures
        string_views(r@) == spec_assemble_arguments(runtime, output@),
{
    let (mode, track, shake, target) = match runtime {
        PreparedRuntime::Debug => ("debug", "true", "false", "copy_flutter_bundle"),
        PreparedRuntime::Profile => ("profile", "false", "true", "profile_bundle_linux-x64_assets"),
    };
    let mut r: Vec<String> = Vec::new();
    r.push("assemble".to_owned());
    r.push(joined("--output=", output));
    r.push("-dTargetFile=lib/main.dart".to_owned());
    r.push(joined("-dBuildMode=", mode));
    r.push("-dTargetPlatform=linux-x64".to_owned());
    r.push("-dDartObfuscation=false".to_owned());
    r.push(joined("-dTrackWidgetCreation=", track));
    r.push(joined("-dTreeShakeIcons=", shake));
    r.push(target.to_owned());
    proof {
        assert(string_views(r@) =~= spec_assemble_arguments(runtime, output@));
    }
    r
}

/// The snapshots that the JIT engine carries itself, removed from a debug
/// bundle.
pub fn redundant_debug_files() -> (r: Vec<&'static str>)
    ensures
        r@.len() == 3,
        r@[0]@ == "vm_snapshot_data"@,
        r@[1]@ == "isolate_snapshot_data"@,
        r@[2]@ == ".last_build_id"@,
{
    let mut r: Vec<&'static str> = Vec::new();
    r.push("vm_snapshot_data");
    r.push("isolate_snapshot_data");
    r.push(".last_build_id");
    r
}

/// The Flutter generation the tool is pinned to.
pub const FLUTTER_GENERATION: &'static str = "3.44.7.denial1";

/// The packaged dependency seed belongs to the pinned generation: its
/// marker holds that name, up to surrounding white space.
pub fn seed_matches_generation(marker: &[u8]) -> (r: bool)
    ensures
        r == (crate::text::spec_trim(utf8_lossy(marker@)) == FLUTTER_GENERATION@),
{
    let text = lossy_string(marker);
    let chars = str_chars(text.as_str());
    let trimmed = crate::text::trim_chars(chars.as_slice());
    chars_equal_str(trimmed.as_slice(), FLUTTER_GENERATION)
}

/// The message for an engine without a required export.
pub open spec fn missing_export_message(label: Seq<char>, symbol: Seq<char>, path: Seq<char>) -> Seq<
    char,
> {
    label + " engine does not export "@ + symbol + ": "@ + path
}

/// An engine usable for live development exports the embedder entry point
/// and Denial's external-texture scheduler; `path` names it in messages.
pub fn validate_engine_exports(bytes: &[u8], label: &str, path: &str) -> (r: Result<(), ToolError>)
    ensures
        !spec_contains_bytes(bytes@, encode_utf8("FlutterEngineGetProcAddresses\0"@)) ==> (
        r matches Err(e) && !e.usage && e.message@ == missing_export_message(
            label@,
            "FlutterEngineGetProcAddresses"@,
            path@,
        )),
        spec_contains_bytes(bytes@, encode_utf8("FlutterEngineGetProcAddresses\0"@))
            && !spec_contains_bytes(
            bytes@,
            encode_utf8("DenialFlutterEngineScheduleFrameForExternalTextures\0"@),
        ) ==> (r matches Err(e) && !e.usage && e.message@ == missing_export_message(
            label@,
            "DenialFlutterEngineScheduleFrameForExternalTextures"@,
            path@,
        )),
        r is Ok <==> spec_contains_bytes(bytes@, encode_utf8("FlutterEngineGetProcAddresses\0"@))
            && spec_contains_bytes(
            bytes@,
            encode_utf8("DenialFlutterEngineScheduleFrameForExternalTextures\0"@),
        ),
{
    if !contains_bytes(bytes, "FlutterEngineGetProcAddresses\0".as_bytes()) {
        let mut message = str_chars(label);
        push_str_chars(&mut message, " engine does not export ");
        push_str_chars(&mut message, "FlutterEngineGetProcAddresses");
        push_str_chars(&mut message, ": ");
        push_str_chars(&mut message, path);
        let m = string_from_chars(message.as_slice());
        return Err(ToolError::new(m.as_str()));
    }
    if !contains_bytes(bytes, "DenialFlutterEngineScheduleFrameForExternalTextures\0".as_bytes()) {
        let mut message = str_chars(label);
        push_str_chars(&mut message, " engine does not export ");
        push_str_chars(&mut message, "DenialFlutterEngineScheduleFrameForExternalTextures");
        push_str_chars(&mut message, ": ");
        push_str_chars(&mut message, path);
        let m = string_from_chars(message.as_slice());
        return Err(ToolError::new(m.as_str()));
    }
    Ok(())
}

} // verus!
