//! The control client's command line: options, commands, on/off switches,
//! lexical path normalisation, tool output, and the labels and checks used
//! when it reports the UI runtime's state.

use vstd::prelude::*;
use vstd::utf8::{decode_utf8, encode_utf8, valid_utf8};
use crate::text::{
    chars_equal_str, concat_all, debug_quote, debug_quoted, decimal_chars, join_text, lossy_string,
    push_decimal, push_str_chars, str_chars, str_views, string_from_chars, utf8_lossy, spec_trim,
    trim_chars,
};

verus! {

broadcast use vstd::utf8::encode_utf8_decode_utf8;

/// Longest tool output kept for an error message.
pub const MAX_TOOL_OUTPUT_BYTES: usize = 65536;

/// A failure reported to the user.
#[derive(Clone, Debug)]
pub struct CliError {
    pub message: String,
}

/// The hint appended to a usage error.
pub open spec fn usage_message(m: Seq<char>) -> Seq<char> {
    m + "; run 'denialctl --help'"@
}

impl CliError {
    pub fn new(message: &str) -> (r: CliError)
        ensures
            r.message@ == message@,
    {
        CliError { message: message.to_owned() }
    }

    /// An error in how the command was called, with the help hint.
    pub fn usage(message: &str) -> (r: CliError)
        ensures
            r.message@ == usage_message(message@),
    {
        let parts = [message, "; run 'denialctl --help'"];
        let text = join_text(&parts);
        proof {
            reveal_with_fuel(concat_all, 3);
            assert(str_views(parts@) =~= seq![message@, "; run 'denialctl --help'"@]);
            assert(str_views(parts@).drop_last().drop_last() =~= Seq::<Seq<char>>::empty());
        }
        CliError { message: text }
    }
}

/// The command that the arguments ask for; paths are the arguments' text.
#[derive(Clone, Debug)]
pub enum Command {
    Help,
    Version,
    Status,
    Outputs,
    UiStatus,
    UiSetup(Option<String>),
    UiWorkspace(String),
    UiLive(bool),
    UiAction { method: &'static str, expected_mode: Option<&'static str> },
    UiAutoReload(bool),
    UiVmService,
}

/// A command as values.
pub enum CommandModel {
    Help,
    Version,
    Status,
    Outputs,
    UiStatus,
    UiSetup(Option<Seq<char>>),
    UiWorkspace(Seq<char>),
    UiLive(bool),
    UiAction { method: Seq<char>, expected_mode: Option<Seq<char>> },
    UiAutoReload(bool),
    UiVmService,
}

pub open spec fn static_option_view(o: Option<&'static str>) -> Option<Seq<char>> {
    match o {
        Some(s) => Some(s@),
        None => None,
    }
}

impl Command {
    pub open spec fn model(&self) -> CommandModel {
        match self {
            Command::Help => CommandModel::Help,
            Command::Version => CommandModel::Version,
            Command::Status => CommandModel::Status,
            Command::Outputs => CommandModel::Outputs,
            Command::UiStatus => CommandModel::UiStatus,
            Command::UiSetup(p) => CommandModel::UiSetup(
                match p {
                    Some(s) => Some(s@),
                    None => None,
                },
            ),
            Command::UiWorkspace(p) => CommandModel::UiWorkspace(p@),
            Command::UiLive(b) => CommandModel::UiLive(*b),
            Command::UiAction { method, expected_mode } => CommandModel::UiAction {
                method: method@,
                expected_mode: static_option_view(*expected_mode),
            },
            Command::UiAutoReload(b) => CommandModel::UiAutoReload(*b),
            Command::UiVmService => CommandModel::UiVmService,
        }
    }
}

/// The words joined by single spaces.
pub open spec fn join_spaces(v: Seq<Seq<char>>) -> Seq<char>
    decreases v.len(),
{
    if v.len() == 0 {
        Seq::empty()
    } else if v.len() == 1 {
        v[0]
    } else {
        join_spaces(v.drop_last()) + seq![' '] + v.last()
    }
}

pub open spec fn all_utf8(args: Seq<Seq<u8>>) -> bool {
    forall|i: int| 0 <= i < args.len() ==> valid_utf8(#[trigger] args[i])
}

pub open spec fn decoded_words(args: Seq<Seq<u8>>) -> Seq<Seq<char>> {
    args.map_values(|a: Seq<u8>| decode_utf8(a))
}

pub open spec fn ui_action(method: Seq<char>, expected_mode: Option<Seq<char>>) -> CommandModel {
    CommandModel::UiAction { method, expected_mode }
}

/// The command that some words name.
pub open spec fn command_of_words(w: Seq<Seq<char>>) -> Result<CommandModel, Seq<char>> {
    if w.len() == 0 {
        Err(usage_message("a command is required"@))
    } else if w == seq!["help"@] {
        Ok(CommandModel::Help)
    } else if w == seq!["version"@] {
        Ok(CommandModel::Version)
    } else if w == seq!["status"@] {
        Ok(CommandModel::Status)
    } else if w == seq!["outputs"@] || w == seq!["output"@, "status"@] {
        Ok(CommandModel::Outputs)
    } else if w == seq!["ui"@] || w == seq!["ui"@, "status"@] {
        Ok(CommandModel::UiStatus)
    } else if w == seq!["ui"@, "setup"@] {
        Ok(CommandModel::UiSetup(None))
    } else if w.len() == 3 && w[0] == "ui"@ && w[1] == "setup"@ {
        Ok(CommandModel::UiSetup(Some(w[2])))
    } else if w.len() == 3 && w[0] == "ui"@ && w[1] == "workspace"@ {
        Ok(CommandModel::UiWorkspace(w[2]))
    } else if w.len() == 3 && w[0] == "ui"@ && (w[1] == "live"@ || w[1] == "dev"@) {
        match spec_parse_switch(w[2]) {
            Ok(b) => Ok(CommandModel::UiLive(b)),
            Err(e) => Err(e),
        }
    } else if w.len() == 3 && w[0] == "ui"@ && w[1] == "auto-reload"@ {
        match spec_parse_switch(w[2]) {
            Ok(b) => Ok(CommandModel::UiAutoReload(b)),
            Err(e) => Err(e),
        }
    } else if w == seq!["ui"@, "reload"@] {
        Ok(ui_action("ui.reload"@, None))
    } else if w == seq!["ui"@, "restart"@] {
        Ok(ui_action("ui.restart"@, None))
    } else if w == seq!["ui"@, "build"@] || w == seq!["ui"@, "profile"@] {
        Ok(ui_action("ui.build"@, Some("custom_optimized"@)))
    } else if w == seq!["ui"@, "restore"@] || w == seq!["ui"@, "official"@] {
        Ok(ui_action("ui.restore"@, Some("official_optimized"@)))
    } else if w == seq!["ui"@, "revert"@] {
        Ok(ui_action("ui.revert"@, None))
    } else if w == seq!["ui"@, "vm-service"@] || w == seq!["ui"@, "uri"@] {
        Ok(CommandModel::UiVmService)
    } else {
        Err(usage_message("unknown command "@ + join_spaces(w)))
    }
}

/// The command that the arguments after the options name; they must be
/// UTF-8.
pub open spec fn spec_parse_command(args: Seq<Seq<u8>>) -> Result<CommandModel, Seq<char>> {
    if !all_utf8(args) {
        Err(usage_message("command arguments must be valid UTF-8"@))
    } else {
        command_of_words(decoded_words(args))
    }
}

/// `on`, `enable`, `enabled`, `true` and `1` switch on; `off`, `disable`,
/// `disabled`, `false` and `0` switch off.
pub open spec fn spec_parse_switch(value: Seq<char>) -> Result<bool, Seq<char>> {
    if value == "on"@ || value == "enable"@ || value == "enabled"@ || value == "true"@ || value
        == "1"@ {
        Ok(true)
    } else if value == "off"@ || value == "disable"@ || value == "disabled"@ || value == "false"@
        || value == "0"@ {
        Ok(false)
    } else {
        Err(usage_message("expected on or off, got "@ + debug_quoted(value)))
    }
}

fn any_of(value: &[char], options: &[&str]) -> (r: bool)
    ensures
        r == exists|i: int| 0 <= i < options@.len() && value@ == (#[trigger] options@[i])@,
{
    let mut i: usize = 0;
    while i < options.len()
        invariant
            i <= options@.len(),
            forall|k: int| 0 <= k < i ==> value@ != (#[trigger] options@[k])@,
        decreases options@.len() - i,
    {
        if chars_equal_str(value, options[i]) {
            return true;
        }
        i += 1;
    }
    false
}

pub fn parse_switch(value: &str) -> (r: Result<bool, CliError>)
    ensures
        r matches Ok(b) ==> spec_parse_switch(value@) == Ok::<bool, Seq<char>>(b),
        r matches Err(e) ==> spec_parse_switch(value@) == Err::<bool, Seq<char>>(e.message@),
{
    let chars = str_chars(value);
    let on = ["on", "enable", "enabled", "true", "1"];
    let off = ["off", "disable", "disabled", "false", "0"];
    if any_of(chars.as_slice(), &on) {
        proof {
            let i = choose|i: int| 0 <= i < on@.len() && chars@ == (#[trigger] on@[i])@;
        }
        return Ok(true);
    }
    proof {
        assert(!(value@ == on@[0]@ || value@ == on@[1]@ || value@ == on@[2]@ || value@ == on@[3]@
            || value@ == on@[4]@));
    }
    if any_of(chars.as_slice(), &off) {
        proof {
            let i = choose|i: int| 0 <= i < off@.len() && chars@ == (#[trigger] off@[i])@;
        }
        return Ok(false);
    }
    proof {
        assert(!(value@ == off@[0]@ || value@ == off@[1]@ || value@ == off@[2]@ || value@
            == off@[3]@ || value@ == off@[4]@));
    }
    let quoted = debug_quote(value);
    let mut text = str_chars("expected on or off, got ");
    push_str_chars(&mut text, quoted.as_str());
    let message = string_from_chars(text.as_slice());
    Err(CliError::usage(message.as_str()))
}

fn words_are1(words: &Vec<String>, a: &str) -> (r: bool)
    ensures
        r == (words@.map_values(|s: String| s@) == seq![a@]),
{
    if words.len() != 1 {
        proof {
            assert(words@.map_values(|s: String| s@).len() != seq![a@].len());
        }
        return false;
    }
    let r = word_is(words, 0, a);
    proof {
        if r {
            assert(words@.map_values(|s: String| s@) =~= seq![a@]);
        } else {
            assert(words@.map_values(|s: String| s@)[0] != seq![a@][0]);
        }
    }
    r
}

fn words_are2(words: &Vec<String>, a: &str, b: &str) -> (r: bool)
    ensures
        r == (words@.map_values(|s: String| s@) == seq![a@, b@]),
{
    if words.len() != 2 {
        proof {
            assert(words@.map_values(|s: String| s@).len() != seq![a@, b@].len());
        }
        return false;
    }
    let first = word_is(words, 0, a);
    let second = word_is(words, 1, b);
    proof {
        if first && second {
            assert(words@.map_values(|s: String| s@) =~= seq![a@, b@]);
        } else if !first {
            assert(words@.map_values(|s: String| s@)[0] != seq![a@, b@][0]);
        } else {
            assert(words@.map_values(|s: String| s@)[1] != seq![a@, b@][1]);
        }
    }
    first && second
}

fn word_is(words: &Vec<String>, i: usize, lit: &str) -> (r: bool)
    requires
        i < words@.len(),
    ensures
        r == (words@[i as int]@ == lit@),
{
    let w = str_chars(words[i].as_str());
    chars_equal_str(w.as_slice(), lit)
}

fn join_words(words: &Vec<String>) -> (r: Vec<char>)
    ensures
        r@ == join_spaces(words@.map_values(|s: String| s@)),
{
    let ghost wv = words@.map_values(|s: String| s@);
    let mut out: Vec<char> = Vec::new();
    let mut i: usize = 0;
    while i < words.len()
        invariant
            i <= words@.len(),
            wv == words@.map_values(|s: String| s@),
            out@ == join_spaces(wv.take(i as int)),
        decreases words@.len() - i,
    {
        proof {
            assert(wv.take(i + 1).drop_last() =~= wv.take(i as int));
        }
        if i > 0 {
            out.push(' ');
        }
        let ghost before = out@;
        push_str_chars(&mut out, words[i].as_str());
        proof {
            if i == 0 {
                assert(wv.take(1) =~= seq![wv[0]]);
                assert(out@ =~= wv[0]);
            } else {
                assert(out@ =~= join_spaces(wv.take(i as int)) + seq![' '] + wv[i as int]);
            }
        }
        i += 1;
    }
    assert(wv.take(words@.len() as int) =~= wv);
    out
}

fn decode_words(args: &[Vec<u8>]) -> (r: Option<Vec<String>>)
    ensures
        r is Some <==> all_utf8(vec_bytes(args@)),
        r matches Some(w) ==> w@.map_values(|s: String| s@) == decoded_words(vec_bytes(args@)),
{
    let ghost av = vec_bytes(args@);
    let mut words: Vec<String> = Vec::new();
    let mut i: usize = 0;
    while i < args.len()
        invariant
            i <= args@.len(),
            av == vec_bytes(args@),
            forall|k: int| 0 <= k < i ==> valid_utf8(#[trigger] av[k]),
            words@.map_values(|s: String| s@) == decoded_words(av.take(i as int)),
        decreases args@.len() - i,
    {
        proof {
            assert(av[i as int] == args@[i as int]@);
        }
        match crate::text::utf8_string(args[i].as_slice()) {
            Some(w) => {
                let ghost before = words@;
                proof {
                    assert(decode_utf8(encode_utf8(w@)) == w@);
                    assert(decoded_words(av.take(i + 1)) =~= decoded_words(av.take(i as int)).push(
                        decode_utf8(av[i as int]),
                    ));
                }
                words.push(w);
                proof {
                    assert(words@.map_values(|s: String| s@) =~= before.map_values(
                        |s: String| s@,
                    ).push(w@));
                }
            },
            None => {
                return None;
            },
        }
        i += 1;
    }
    assert(av.take(args@.len() as int) =~= av);
    Some(words)
}

pub open spec fn vec_bytes(v: Seq<Vec<u8>>) -> Seq<Seq<u8>> {
    v.map_values(|a: Vec<u8>| a@)
}

fn usage_with(prefix: &str, rest: &[char]) -> (r: CliError)
    ensures
        r.message@ == usage_message(prefix@ + rest@),
{
    let mut text = str_chars(prefix);
    let mut i: usize = 0;
    let ghost head = text@;
    while i < rest.len()
        invariant
            i <= rest@.len(),
            text@ == head + rest@.take(i as int),
        decreases rest@.len() - i,
    {
        text.push(rest[i]);
        proof {
            assert(rest@.take(i + 1) =~= rest@.take(i as int).push(rest@[i as int]));
        }
        i += 1;
    }
    assert(rest@.take(rest@.len() as int) =~= rest@);
    let message = string_from_chars(text.as_slice());
    CliError::usage(message.as_str())
}

fn ok_action(method: &'static str, expected_mode: Option<&'static str>) -> (r: Result<
    Command,
    CliError,
>)
    ensures
        r matches Ok(c) && c.model() == ui_action(method@, static_option_view(expected_mode)),
{
    Ok(Command::UiAction { method, expected_mode })
}

/// The command named by the arguments that follow the options.
pub fn parse_command(arguments: &[Vec<u8>]) -> (r: Result<Command, CliError>)
    ensures
        r matches Ok(c) ==> spec_parse_command(vec_bytes(arguments@)) == Ok::<
            CommandModel,
            Seq<char>,
        >(c.model()),
        r matches Err(e) ==> spec_parse_command(vec_bytes(arguments@)) == Err::<
            CommandModel,
            Seq<char>,
        >(e.message@),
{
    proof {
        reveal_strlit("help");
        reveal_strlit("version");
        reveal_strlit("status");
        reveal_strlit("outputs");
        reveal_strlit("output");
        reveal_strlit("ui");
        reveal_strlit("setup");
        reveal_strlit("workspace");
        reveal_strlit("live");
        reveal_strlit("dev");
        reveal_strlit("auto-reload");
        reveal_strlit("reload");
        reveal_strlit("restart");
        reveal_strlit("build");
        reveal_strlit("profile");
        reveal_strlit("restore");
        reveal_strlit("official");
        reveal_strlit("revert");
        reveal_strlit("vm-service");
        reveal_strlit("uri");
    }
    let words = match decode_words(arguments) {
        Some(w) => w,
        None => return Err(CliError::usage("command arguments must be valid UTF-8")),
    };
    let ghost w = words@.map_values(|s: String| s@);
    let n = words.len();
    assert(w.len() == n);
    if n == 0 {
        return Err(CliError::usage("a command is required"));
    }
    if words_are1(&words, "help") {
        return Ok(Command::Help);
    }
    if words_are1(&words, "version") {
        return Ok(Command::Version);
    }
    if words_are1(&words, "status") {
        return Ok(Command::Status);
    }
    if words_are1(&words, "outputs") || words_are2(&words, "output", "status") {
        return Ok(Command::Outputs);
    }
    if words_are1(&words, "ui") || words_are2(&words, "ui", "status") {
        return Ok(Command::UiStatus);
    }
    if words_are2(&words, "ui", "setup") {
        return Ok(Command::UiSetup(None));
    }
    if n == 3 && word_is(&words, 0, "ui") {
        assert(w[0] == words@[0]@ && w[1] == words@[1]@ && w[2] == words@[2]@);
        if word_is(&words, 1, "setup") {
            return Ok(Command::UiSetup(Some(words[2].clone())));
        }
        if word_is(&words, 1, "workspace") {
            return Ok(Command::UiWorkspace(words[2].clone()));
        }
        if word_is(&words, 1, "live") || word_is(&words, 1, "dev") {
            return match parse_switch(words[2].as_str()) {
                Ok(b) => Ok(Command::UiLive(b)),
                Err(e) => Err(e),
            };
        }
        if word_is(&words, 1, "auto-reload") {
            return match parse_switch(words[2].as_str()) {
                Ok(b) => Ok(Command::UiAutoReload(b)),
                Err(e) => Err(e),
            };
        }
    }
    if words_are2(&words, "ui", "reload") {
        return ok_action("ui.reload", None);
    }
    if words_are2(&words, "ui", "restart") {
        return ok_action("ui.restart", None);
    }
    if words_are2(&words, "ui", "build") || words_are2(&words, "ui", "profile") {
        return ok_action("ui.build", Some("custom_optimized"));
    }
    if words_are2(&words, "ui", "restore") || words_are2(&words, "ui", "official") {
        return ok_action("ui.restore", Some("official_optimized"));
    }
    if words_are2(&words, "ui", "revert") {
        return ok_action("ui.revert", None);
    }
    if words_are2(&words, "ui", "vm-service") || words_are2(&words, "ui", "uri") {
        return Ok(Command::UiVmService);
    }
    let joined = join_words(&words);
    usage_with_result("unknown command ", joined.as_slice())
}

fn usage_with_result(prefix: &str, rest: &[char]) -> (r: Result<Command, CliError>)
    ensures
        r matches Err(e) && e.message@ == usage_message(prefix@ + rest@),
{
    Err(usage_with(prefix, rest))
}

/// The options before the command, and the command.
#[derive(Clone, Debug)]
pub struct Options {
    pub json: bool,
    pub wait: bool,
    pub socket: Option<Vec<u8>>,
    pub command: Command,
}

pub struct OptionsModel {
    pub json: bool,
    pub wait: bool,
    pub socket: Option<Seq<u8>>,
    pub command: CommandModel,
}

impl Options {
    pub open spec fn model(&self) -> OptionsModel {
        OptionsModel {
            json: self.json,
            wait: self.wait,
            socket: match self.socket {
                Some(v) => Some(v@),
                None => None,
            },
            command: self.command.model(),
        }
    }
}

pub open spec fn lit_bytes(s: Seq<char>) -> Seq<u8> {
    encode_utf8(s)
}

/// The options from argument `i` on, with those read so far: `--json`,
/// `--no-wait` and `--socket PATH` are collected; `--help`, `-h`,
/// `--version` and `-V` end the reading; any other argument that starts
/// with `-` is refused; the first other argument starts the command.
pub open spec fn parse_options_from(
    args: Seq<Seq<u8>>,
    i: int,
    json: bool,
    wait: bool,
    socket: Option<Seq<u8>>,
) -> Result<OptionsModel, Seq<char>>
    decreases args.len() - i,
{
    if i < 0 || i >= args.len() {
        match spec_parse_command(args.skip(i)) {
            Ok(command) => Ok(OptionsModel { json, wait, socket, command }),
            Err(e) => Err(e),
        }
    } else {
        let a = args[i];
        if a == lit_bytes("--json"@) {
            parse_options_from(args, i + 1, true, wait, socket)
        } else if a == lit_bytes("--no-wait"@) {
            parse_options_from(args, i + 1, json, false, socket)
        } else if a == lit_bytes("--socket"@) {
            if i + 1 < args.len() {
                parse_options_from(args, i + 2, json, wait, Some(args[i + 1]))
            } else {
                Err(usage_message("--socket requires a path"@))
            }
        } else if a == lit_bytes("--help"@) || a == lit_bytes("-h"@) {
            Ok(OptionsModel { json, wait, socket, command: CommandModel::Help })
        } else if a == lit_bytes("--version"@) || a == lit_bytes("-V"@) {
            Ok(OptionsModel { json, wait, socket, command: CommandModel::Version })
        } else if utf8_lossy(a).len() > 0 && utf8_lossy(a)[0] == '-' {
            Err(usage_message("unknown option "@ + utf8_lossy(a)))
        } else {
            match spec_parse_command(args.skip(i)) {
                Ok(command) => Ok(OptionsModel { json, wait, socket, command }),
                Err(e) => Err(e),
            }
        }
    }
}

pub open spec fn spec_parse_options(args: Seq<Seq<u8>>) -> Result<OptionsModel, Seq<char>> {
    parse_options_from(args, 0, false, true, None)
}

fn bytes_are(a: &[u8], lit: &str) -> (r: bool)
    ensures
        r == (a@ == lit_bytes(lit@)),
{
    let b = lit.as_bytes();
    if a.len() != b.len() {
        return false;
    }
    let mut i: usize = 0;
    while i < a.len()
        invariant
            i <= a@.len(),
            a@.len() == b@.len(),
            b@ == lit_bytes(lit@),
            forall|k: int| 0 <= k < i ==> a@[k] == b@[k],
        decreases a@.len() - i,
    {
        if a[i] != b[i] {
            assert(a@[i as int] != b@[i as int]);
            return false;
        }
        i += 1;
    }
    assert(a@ =~= b@);
    true
}

fn copy_bytes(a: &[u8]) -> (r: Vec<u8>)
    ensures
        r@ == a@,
{
    vstd::slice::slice_to_vec(a)
}

fn options_with(json: bool, wait: bool, socket: Option<Vec<u8>>, command: Result<Command, CliError>) -> (r: Result<Options, CliError>)
    ensures
        command matches Ok(c) ==> (r matches Ok(o) && o.json == json && o.wait == wait && o.socket
            == socket && o.command.model() == c.model()),
        command matches Err(e) ==> (r matches Err(e2) && e2.message@ == e.message@),
{
    match command {
        Ok(command) => Ok(Options { json, wait, socket, command }),
        Err(e) => Err(e),
    }
}

impl Options {
    /// Reads the options and the command from the program's arguments.
    pub fn parse(arguments: &[Vec<u8>]) -> (r: Result<Options, CliError>)
        ensures
            r matches Ok(o) ==> spec_parse_options(vec_bytes(arguments@)) == Ok::<
                OptionsModel,
                Seq<char>,
            >(o.model()),
            r matches Err(e) ==> spec_parse_options(vec_bytes(arguments@)) == Err::<
                OptionsModel,
                Seq<char>,
            >(e.message@),
    {
        let ghost args = vec_bytes(arguments@);
        let mut json = false;
        let mut wait = true;
        let mut socket: Option<Vec<u8>> = None;
        let mut i: usize = 0;
        while i < arguments.len()
            invariant
                i <= arguments@.len(),
                args == vec_bytes(arguments@),
                spec_parse_options(args) == parse_options_from(
                    args,
                    i as int,
                    json,
                    wait,
                    match socket {
                        Some(v) => Some(v@),
                        None => None,
                    },
                ),
            decreases arguments@.len() - i,
        {
            let a = arguments[i].as_slice();
            assert(a@ == args[i as int]);
            if bytes_are(a, "--json") {
                json = true;
                i += 1;
            } else if bytes_are(a, "--no-wait") {
                wait = false;
                i += 1;
            } else if bytes_are(a, "--socket") {
                if i + 1 >= arguments.len() {
                    return Err(CliError::usage("--socket requires a path"));
                }
                assert(arguments@[i + 1]@ == args[i + 1]);
                socket = Some(copy_bytes(arguments[i + 1].as_slice()));
                i += 2;
            } else if bytes_are(a, "--help") || bytes_are(a, "-h") {
                return Ok(Options { json, wait, socket, command: Command::Help });
            } else if bytes_are(a, "--version") || bytes_are(a, "-V") {
                return Ok(Options { json, wait, socket, command: Command::Version });
            } else {
                let text = lossy_string(a);
                let chars = str_chars(text.as_str());
                if chars.len() > 0 && chars[0] == '-' {
                    return Err(usage_with("unknown option ", chars.as_slice()));
                }
                let rest = vstd::slice::slice_subrange(arguments, i, arguments.len());
                proof {
                    assert(vec_bytes(rest@) =~= args.skip(i as int));
                }
                return options_with(json, wait, socket, parse_command(rest));
            }
        }
        let rest = vstd::slice::slice_subrange(arguments, i, arguments.len());
        proof {
            assert(vec_bytes(rest@) =~= args.skip(i as int));
        }
        options_with(json, wait, socket, parse_command(rest))
    }
}

/// Normalises an absolute path without the file system: `.` parts go, `..`
/// removes the part before it, and the result must name a directory below
/// the root.
pub open spec fn path_parts(p: Seq<u8>) -> Seq<Seq<u8>>
    decreases p.len(),
{
    if p.len() == 0 {
        seq![Seq::empty()]
    } else {
        let r = path_parts(p.drop_last());
        if p.last() == 0x2fu8 {
            r.push(Seq::empty())
        } else {
            r.update(r.len() - 1, r.last().push(p.last()))
        }
    }
}

/// Walks the parts: empty and `.` parts are skipped, `..` pops a part and
/// fails at the root, anything else is pushed.
pub open spec fn normalize_parts(parts: Seq<Seq<u8>>) -> Option<Seq<Seq<u8>>>
    decreases parts.len(),
{
    if parts.len() == 0 {
        Some(Seq::empty())
    } else {
        match normalize_parts(parts.drop_last()) {
            None => None,
            Some(stack) => {
                let part = parts.last();
                if part.len() == 0 || part == seq![0x2eu8] {
                    Some(stack)
                } else if part == seq![0x2eu8, 0x2eu8] {
                    if stack.len() == 0 {
                        None
                    } else {
                        Some(stack.drop_last())
                    }
                } else {
                    Some(stack.push(part))
                }
            },
        }
    }
}

/// `/` followed by the parts joined with `/`.
pub open spec fn rooted(stack: Seq<Seq<u8>>) -> Seq<u8>
    decreases stack.len(),
{
    if stack.len() == 0 {
        seq![0x2fu8]
    } else if stack.len() == 1 {
        seq![0x2fu8] + stack[0]
    } else {
        rooted(stack.drop_last()) + seq![0x2fu8] + stack.last()
    }
}

/// Why a path could not be normalised.
#[derive(Clone, Copy, Debug, PartialEq, Eq, Structural)]
pub enum LexicalPathError {
    NotAbsolute,
    EscapesRoot,
    NamesRoot,
}

pub open spec fn spec_lexical_absolute(p: Seq<u8>) -> Result<Seq<u8>, LexicalPathError> {
    if p.len() == 0 || p[0] != 0x2fu8 {
        Err(LexicalPathError::NotAbsolute)
    } else {
        match normalize_parts(path_parts(p)) {
            None => Err(LexicalPathError::EscapesRoot),
            Some(stack) => if stack.len() == 0 {
                Err(LexicalPathError::NamesRoot)
            } else {
                Ok(rooted(stack))
            },
        }
    }
}

proof fn lemma_path_parts_nonempty(p: Seq<u8>)
    ensures
        path_parts(p).len() >= 1,
    decreases p.len(),
{
    if p.len() > 0 {
        lemma_path_parts_nonempty(p.drop_last());
    }
}

proof fn lemma_normalize_none_prefix(parts: Seq<Seq<u8>>, k: int)
    requires
        0 <= k <= parts.len(),
        normalize_parts(parts.take(k)) is None,
    ensures
        normalize_parts(parts) is None,
    decreases parts.len(),
{
    if k == parts.len() {
        assert(parts.take(k) =~= parts);
    } else {
        assert(parts.drop_last().take(k) =~= parts.take(k));
        lemma_normalize_none_prefix(parts.drop_last(), k);
    }
}

fn split_path(p: &[u8]) -> (r: Vec<Vec<u8>>)
    ensures
        vec_bytes(r@) == path_parts(p@),
{
    let mut done: Vec<Vec<u8>> = Vec::new();
    let mut current: Vec<u8> = Vec::new();
    let mut i: usize = 0;
    while i < p.len()
        invariant
            i <= p@.len(),
            vec_bytes(done@).push(current@) == path_parts(p@.take(i as int)),
        decreases p@.len() - i,
    {
        proof {
            assert(p@.take(i + 1).drop_last() =~= p@.take(i as int));
            assert(p@.take(i + 1).last() == p@[i as int]);
            lemma_path_parts_nonempty(p@.take(i as int));
        }
        if p[i] == 0x2f {
            let ghost old_done = done@;
            done.push(current);
            current = Vec::new();
            proof {
                assert(vec_bytes(done@) =~= vec_bytes(old_done).push(
                    path_parts(p@.take(i as int)).last(),
                ));
                assert(vec_bytes(done@).push(current@) =~= path_parts(p@.take(i + 1)));
            }
        } else {
            current.push(p[i]);
            proof {
                assert(vec_bytes(done@).push(current@) =~= path_parts(p@.take(i + 1)));
            }
        }
        i += 1;
    }
    assert(p@.take(p@.len() as int) =~= p@);
    let ghost old_done = done@;
    done.push(current);
    proof {
        assert(vec_bytes(done@) =~= vec_bytes(old_done).push(current@));
    }
    done
}

fn join_rooted(stack: &Vec<Vec<u8>>) -> (r: Vec<u8>)
    ensures
        r@ == rooted(vec_bytes(stack@)),
{
    let ghost sv = vec_bytes(stack@);
    let mut out: Vec<u8> = Vec::new();
    out.push(0x2f);
    if stack.len() == 0 {
        proof {
            assert(out@ =~= seq![0x2fu8]);
        }
        return out;
    }
    let mut i: usize = 0;
    while i < stack.len()
        invariant
            i <= stack@.len(),
            stack@.len() > 0,
            sv == vec_bytes(stack@),
            i == 0 ==> out@ == seq![0x2fu8],
            i > 0 ==> out@ == rooted(sv.take(i as int)),
        decreases stack@.len() - i,
    {
        proof {
            assert(sv.take(i + 1).drop_last() =~= sv.take(i as int));
        }
        if i > 0 {
            out.push(0x2f);
        }
        let part = &stack[i];
        let ghost head = out@;
        let mut k: usize = 0;
        while k < part.len()
            invariant
                k <= part@.len(),
                out@ == head + part@.take(k as int),
            decreases part@.len() - k,
        {
            out.push(part[k]);
            proof {
                assert(part@.take(k + 1) =~= part@.take(k as int).push(part@[k as int]));
            }
            k += 1;
        }
        proof {
            assert(part@.take(part@.len() as int) =~= part@);
            if i == 0 {
                assert(sv.take(1) =~= seq![sv[0]]);
                assert(out@ =~= seq![0x2fu8] + sv[0]);
            } else {
                assert(out@ =~= rooted(sv.take(i as int)) + seq![0x2fu8] + sv[i as int]);
            }
        }
        i += 1;
    }
    assert(sv.take(stack@.len() as int) =~= sv);
    out
}

/// The path made absolute without touching the file system.
pub fn lexical_absolute(path: &[u8]) -> (r: Result<Vec<u8>, LexicalPathError>)
    ensures
        r matches Ok(v) ==> spec_lexical_absolute(path@) == Ok::<Seq<u8>, LexicalPathError>(v@),
        r matches Err(e) ==> spec_lexical_absolute(path@) == Err::<Seq<u8>, LexicalPathError>(e),
{
    if path.len() == 0 || path[0] != 0x2f {
        return Err(LexicalPathError::NotAbsolute);
    }
    let parts = split_path(path);
    let ghost pv = vec_bytes(parts@);
    let mut stack: Vec<Vec<u8>> = Vec::new();
    let mut i: usize = 0;
    assert(pv.take(0) =~= Seq::<Seq<u8>>::empty());
    while i < parts.len()
        invariant
            i <= parts@.len(),
            pv == vec_bytes(parts@),
            pv == path_parts(path@),
            path@.len() > 0 && path@[0] == 0x2fu8,
            normalize_parts(pv.take(i as int)) == Some(vec_bytes(stack@)),
        decreases parts@.len() - i,
    {
        proof {
            assert(pv.take(i + 1).drop_last() =~= pv.take(i as int));
            assert(pv.take(i + 1).last() == parts@[i as int]@);
        }
        let part = &parts[i];
        let is_dot = part.len() == 1 && part[0] == 0x2e;
        let is_dot_dot = part.len() == 2 && part[0] == 0x2e && part[1] == 0x2e;
        proof {
            assert(is_dot == (part@ == seq![0x2eu8])) by {
                if part@ == seq![0x2eu8] {
                    assert(part@[0] == 0x2eu8);
                }
                if is_dot {
                    assert(part@ =~= seq![0x2eu8]);
                }
            }
            assert(is_dot_dot == (part@ == seq![0x2eu8, 0x2eu8])) by {
                if part@ == seq![0x2eu8, 0x2eu8] {
                    assert(part@[0] == 0x2eu8 && part@[1] == 0x2eu8);
                }
                if is_dot_dot {
                    assert(part@ =~= seq![0x2eu8, 0x2eu8]);
                }
            }
        }
        if part.len() == 0 || is_dot {
        } else if is_dot_dot {
            if stack.len() == 0 {
                proof {
                    assert(normalize_parts(pv.take(i + 1)) is None);
                    lemma_normalize_none_prefix(pv, i + 1);
                    assert(pv.take(pv.len() as int) =~= pv);
                }
                return Err(LexicalPathError::EscapesRoot);
            }
            let ghost before = stack@;
            stack.pop();
            proof {
                assert(vec_bytes(stack@) =~= vec_bytes(before).drop_last());
            }
        } else {
            let ghost before = stack@;
            stack.push(copy_bytes(part.as_slice()));
            proof {
                assert(vec_bytes(stack@) =~= vec_bytes(before).push(part@));
            }
        }
        i += 1;
    }
    assert(pv.take(parts@.len() as int) =~= pv);
    if stack.len() == 0 {
        return Err(LexicalPathError::NamesRoot);
    }
    Ok(join_rooted(&stack))
}

/// Which output explains a tool's failure: the primary output unless it is
/// blank, then its last bytes up to the cap.
pub open spec fn is_ascii_whitespace_byte(b: u8) -> bool {
    b == 0x20 || b == 0x09 || b == 0x0a || b == 0x0c || b == 0x0d
}

pub open spec fn spec_tool_output_source(primary: Seq<u8>, fallback: Seq<u8>) -> Seq<u8> {
    let bytes = if exists|i: int| 0 <= i < primary.len() && !is_ascii_whitespace_byte(
        #[trigger] primary[i],
    ) {
        primary
    } else {
        fallback
    };
    if bytes.len() > MAX_TOOL_OUTPUT_BYTES {
        bytes.skip(bytes.len() - MAX_TOOL_OUTPUT_BYTES)
    } else {
        bytes
    }
}

/// A tool's output for an error message: the tail of the primary output,
/// or of the fallback when the primary is blank, decoded and trimmed.
pub fn bounded_tool_output(primary: &[u8], fallback: &[u8]) -> (r: String)
    ensures
        r@ == spec_trim(utf8_lossy(spec_tool_output_source(primary@, fallback@))),
{
    let mut blank = true;
    let mut i: usize = 0;
    while i < primary.len()
        invariant
            i <= primary@.len(),
            blank == forall|k: int| 0 <= k < i ==> is_ascii_whitespace_byte(#[trigger] primary@[k]),
        decreases primary@.len() - i,
    {
        let b = primary[i];
        if !(b == 0x20 || b == 0x09 || b == 0x0a || b == 0x0c || b == 0x0d) {
            blank = false;
        }
        i += 1;
    }
    let bytes = if !blank {
        primary
    } else {
        fallback
    };
    let start = if bytes.len() > MAX_TOOL_OUTPUT_BYTES {
        bytes.len() - MAX_TOOL_OUTPUT_BYTES
    } else {
        0
    };
    let tail = vstd::slice::slice_subrange(bytes, start, bytes.len());
    proof {
        if bytes@.len() <= MAX_TOOL_OUTPUT_BYTES {
            assert(tail@ =~= bytes@);
        } else {
            assert(tail@ =~= bytes@.skip(bytes@.len() - MAX_TOOL_OUTPUT_BYTES));
        }
    }
    let text = lossy_string(tail);
    let chars = str_chars(text.as_str());
    let trimmed = trim_chars(chars.as_slice());
    string_from_chars(trimmed.as_slice())
}

/// The message when the compositor acknowledged another request.
pub open spec fn acknowledgement_message(acknowledged: u32, id: u64) -> Seq<char> {
    "compositor acknowledged UI request "@ + decimal_chars(acknowledged as nat) + ", expected "@
        + decimal_chars(id as nat)
}

/// The reply must acknowledge the request that was sent.
pub fn validate_acknowledgement(id: u64, acknowledged_request_id: u32) -> (r: Result<(), CliError>)
    ensures
        r is Ok <==> acknowledged_request_id as u64 == id,
        r matches Err(e) ==> e.message@ == acknowledgement_message(acknowledged_request_id, id),
{
    if acknowledged_request_id as u64 == id {
        return Ok(());
    }
    let mut text = str_chars("compositor acknowledged UI request ");
    push_decimal(acknowledged_request_id as u64, &mut text);
    push_str_chars(&mut text, ", expected ");
    push_decimal(id, &mut text);
    let message = string_from_chars(text.as_slice());
    Err(CliError::new(message.as_str()))
}

pub open spec fn spec_mode_label(mode: Seq<char>) -> Seq<char> {
    if mode == "official_optimized"@ {
        "Official optimized"@
    } else if mode == "custom_optimized"@ {
        "Custom optimized"@
    } else if mode == "live_development"@ {
        "Live development"@
    } else if mode == "unavailable"@ {
        "Unavailable"@
    } else {
        mode
    }
}

/// A runtime mode as shown to people; unknown modes as they are.
pub fn mode_label(mode: &str) -> (r: &str)
    ensures
        r@ == spec_mode_label(mode@),
{
    let m = str_chars(mode);
    if chars_equal_str(m.as_slice(), "official_optimized") {
        "Official optimized"
    } else if chars_equal_str(m.as_slice(), "custom_optimized") {
        "Custom optimized"
    } else if chars_equal_str(m.as_slice(), "live_development") {
        "Live development"
    } else if chars_equal_str(m.as_slice(), "unavailable") {
        "Unavailable"
    } else {
        mode
    }
}

pub open spec fn spec_operation_label(operation: Seq<char>) -> Seq<char> {
    if operation == "idle"@ {
        "Idle"@
    } else if operation == "validating_workspace"@ {
        "Validating workspace"@
    } else if operation == "switching_runtime"@ {
        "Switching runtime"@
    } else if operation == "hot_reloading"@ {
        "Hot reloading"@
    } else if operation == "hot_restarting"@ {
        "Hot restarting"@
    } else if operation == "building_optimized"@ {
        "Building optimized"@
    } else if operation == "reverting"@ {
        "Reverting"@
    } else {
        operation
    }
}

/// A runtime operation as shown to people; unknown ones as they are.
pub fn operation_label(operation: &str) -> (r: &str)
    ensures
        r@ == spec_operation_label(operation@),
{
    let o = str_chars(operation);
    if chars_equal_str(o.as_slice(), "idle") {
        "Idle"
    } else if chars_equal_str(o.as_slice(), "validating_workspace") {
        "Validating workspace"
    } else if chars_equal_str(o.as_slice(), "switching_runtime") {
        "Switching runtime"
    } else if chars_equal_str(o.as_slice(), "hot_reloading") {
        "Hot reloading"
    } else if chars_equal_str(o.as_slice(), "hot_restarting") {
        "Hot restarting"
    } else if chars_equal_str(o.as_slice(), "building_optimized") {
        "Building optimized"
    } else if chars_equal_str(o.as_slice(), "reverting") {
        "Reverting"
    } else {
        operation
    }
}

pub fn yes_no(value: bool) -> (r: &'static str)
    ensures
        r@ == (if value {
            "yes"@
        } else {
            "no"@
        }),
{
    if value {
        "yes"
    } else {
        "no"
    }
}

/// Where a UI action stands after a state report.
#[derive(Clone, Debug)]
pub enum UiActionProgress {
    /// The runtime reported an error, which is the message.
    Failed(String),
    /// The action is complete.
    Done,
    /// The expected mode has not been reached yet.
    Waiting,
}

/// A report with an error fails the action; otherwise it is done when no
/// mode is awaited, or when the awaited mode is active and the runtime is
/// idle.
pub fn ui_action_progress(
    error: &str,
    active_mode: &str,
    operation: &str,
    expected_mode: Option<&str>,
) -> (r: UiActionProgress)
    ensures
        error@.len() > 0 ==> (r matches UiActionProgress::Failed(m) && m@ == error@),
        error@.len() == 0 ==> (r is Done <==> match expected_mode {
            None => true,
            Some(m) => active_mode@ == m@ && operation@ == "idle"@,
        }),
        error@.len() == 0 ==> !(r is Failed),
{
    let e = str_chars(error);
    if e.len() > 0 {
        return UiActionProgress::Failed(error.to_owned());
    }
    match expected_mode {
        None => UiActionProgress::Done,
        Some(m) => {
            let a = str_chars(active_mode);
            let o = str_chars(operation);
            let mc = str_chars(m);
            if crate::text::chars_equal(a.as_slice(), mc.as_slice()) && chars_equal_str(
                o.as_slice(),
                "idle",
            ) {
                UiActionProgress::Done
            } else {
                UiActionProgress::Waiting
            }
        },
    }
}

/// A request that a command sends: its method and, when the caller waits,
/// the runtime mode to wait for.
#[derive(Clone, Copy, Debug)]
pub struct UiRequestPlan {
    pub method: &'static str,
    pub expected_mode: Option<&'static str>,
}

/// The request of a command that changes the UI runtime: the live switch
/// awaits live development or the official build, the other actions the
/// mode that they name; nothing is awaited without `wait`, nor for the
/// workspace and auto-reload settings.
pub fn ui_request_plan(command: &Command, wait: bool) -> (r: Option<UiRequestPlan>)
    ensures
        match command {
            Command::UiLive(enabled) => r matches Some(p) && p.method@ == (if *enabled {
                "ui.live.enable"@
            } else {
                "ui.live.disable"@
            }) && static_option_view(p.expected_mode) == (if wait {
                Some(
                    if *enabled {
                        "live_development"@
                    } else {
                        "official_optimized"@
                    },
                )
            } else {
                None
            }),
            Command::UiAction { method, expected_mode } => r matches Some(p) && p.method
                == *method && p.expected_mode == (if wait {
                *expected_mode
            } else {
                None
            }),
            Command::UiWorkspace(_) => r matches Some(p) && p.method@ == "ui.workspace.set"@
                && p.expected_mode is None,
            Command::UiAutoReload(_) => r matches Some(p) && p.method@ == "ui.auto_reload.set"@
                && p.expected_mode is None,
            _ => r is None,
        },
{
    match command {
        Command::UiLive(enabled) => {
            let method = if *enabled {
                "ui.live.enable"
            } else {
                "ui.live.disable"
            };
            let expected = if *enabled {
                "live_development"
            } else {
                "official_optimized"
            };
            Some(
                UiRequestPlan {
                    method,
                    expected_mode: if wait {
                        Some(expected)
                    } else {
                        None
                    },
                },
            )
        },
        Command::UiAction { method, expected_mode } => Some(
            UiRequestPlan {
                method: *method,
                expected_mode: if wait {
                    *expected_mode
                } else {
                    None
                },
            },
        ),
        Command::UiWorkspace(_) => Some(
            UiRequestPlan { method: "ui.workspace.set", expected_mode: None },
        ),
        Command::UiAutoReload(_) => Some(
            UiRequestPlan { method: "ui.auto_reload.set", expected_mode: None },
        ),
        _ => None,
    }
}

/// The marker file of a version-matched UI source tree.
#[derive(Clone, Debug)]
pub struct UiSourceMarker {
    pub schema_version: u32,
    pub ui_development_api: u32,
    pub flutter_generation: String,
    pub source_ref: String,
    pub source_revision: String,
    pub workspace: String,
}

pub open spec fn is_hex_char(c: char) -> bool {
    ('0' <= c && c <= '9') || ('a' <= c && c <= 'f') || ('A' <= c && c <= 'F')
}

pub open spec fn is_ref_char(c: char) -> bool {
    ('0' <= c && c <= '9') || ('a' <= c && c <= 'z') || ('A' <= c && c <= 'Z') || c == '.' || c
        == '_' || c == '/' || c == '-'
}

/// A full Git object name: forty hexadecimal digits.
pub open spec fn valid_revision(r: Seq<char>) -> bool {
    r.len() == 40 && forall|i: int| 0 <= i < r.len() ==> is_hex_char(#[trigger] r[i])
}

/// A Git ref that cannot be read as an option: at most 255 characters of
/// letters, digits, `.`, `_`, `/` and `-`, not starting with `-`.
pub open spec fn valid_ref(r: Seq<char>) -> bool {
    &&& 0 < r.len() <= 255
    &&& r[0] != '-'
    &&& forall|i: int| 0 <= i < r.len() ==> is_ref_char(#[trigger] r[i])
}

/// The first rule a marker breaks, as its message.
pub open spec fn spec_marker_problem(m: UiSourceMarker) -> Option<Seq<char>> {
    if m.schema_version != 1 {
        Some("unsupported UI source template schema "@ + decimal_chars(m.schema_version as nat))
    } else if m.ui_development_api != 1 || m.flutter_generation@.len() == 0 {
        Some("UI source template marker identifies an unsupported development generation"@)
    } else if !valid_revision(m.source_revision@) {
        Some("UI source template marker contains an invalid Git revision"@)
    } else if !valid_ref(m.source_ref@) {
        Some("UI source template marker contains an invalid Git ref"@)
    } else {
        None
    }
}

fn all_hex(s: &[char]) -> (r: bool)
    ensures
        r == forall|i: int| 0 <= i < s@.len() ==> is_hex_char(#[trigger] s@[i]),
{
    let mut i: usize = 0;
    while i < s.len()
        invariant
            i <= s@.len(),
            forall|k: int| 0 <= k < i ==> is_hex_char(#[trigger] s@[k]),
        decreases s@.len() - i,
    {
        let c = s[i];
        if !(('0' <= c && c <= '9') || ('a' <= c && c <= 'f') || ('A' <= c && c <= 'F')) {
            return false;
        }
        i += 1;
    }
    true
}

fn all_ref_chars(s: &[char]) -> (r: bool)
    ensures
        r == forall|i: int| 0 <= i < s@.len() ==> is_ref_char(#[trigger] s@[i]),
{
    let mut i: usize = 0;
    while i < s.len()
        invariant
            i <= s@.len(),
            forall|k: int| 0 <= k < i ==> is_ref_char(#[trigger] s@[k]),
        decreases s@.len() - i,
    {
        let c = s[i];
        if !(('0' <= c && c <= '9') || ('a' <= c && c <= 'z') || ('A' <= c && c <= 'Z') || c == '.'
            || c == '_' || c == '/' || c == '-') {
            return false;
        }
        i += 1;
    }
    true
}

/// Checks a marker read from a UI source tree.
pub fn validate_source_marker(marker: &UiSourceMarker) -> (r: Result<(), CliError>)
    ensures
        match spec_marker_problem(*marker) {
            None => r is Ok,
            Some(m) => r matches Err(e) && e.message@ == m,
        },
{
    if marker.schema_version != 1 {
        let mut text = str_chars("unsupported UI source template schema ");
        push_decimal(marker.schema_version as u64, &mut text);
        let message = string_from_chars(text.as_slice());
        return Err(CliError::new(message.as_str()));
    }
    let generation = str_chars(marker.flutter_generation.as_str());
    if marker.ui_development_api != 1 || generation.len() == 0 {
        return Err(
            CliError::new(
                "UI source template marker identifies an unsupported development generation",
            ),
        );
    }
    let revision = str_chars(marker.source_revision.as_str());
    if !(revision.len() == 40 && all_hex(revision.as_slice())) {
        return Err(CliError::new("UI source template marker contains an invalid Git revision"));
    }
    let reference = str_chars(marker.source_ref.as_str());
    if reference.len() == 0 || reference.len() > 255 || reference[0] == '-' || !all_ref_chars(
        reference.as_slice(),
    ) {
        return Err(CliError::new("UI source template marker contains an invalid Git ref"));
    }
    Ok(())
}

/// An existing source tree may be reused only for the same development
/// interface and Flutter generation.
pub fn markers_compatible(existing: &UiSourceMarker, expected: &UiSourceMarker) -> (r: bool)
    ensures
        r == (existing.ui_development_api == expected.ui_development_api
            && existing.flutter_generation@ == expected.flutter_generation@),
{
    if existing.ui_development_api != expected.ui_development_api {
        return false;
    }
    let a = str_chars(existing.flutter_generation.as_str());
    let b = str_chars(expected.flutter_generation.as_str());
    crate::text::chars_equal(a.as_slice(), b.as_slice())
}

/// A workspace path inside a source tree: relative, non-empty, and made
/// only of plain names (a `.` is dropped except as the first part, where it
/// is refused, and `..` is refused everywhere).
pub open spec fn spec_safe_relative_path(p: Seq<u8>) -> bool {
    let parts = path_parts(p);
    &&& p.len() > 0
    &&& p[0] != 0x2fu8
    &&& parts[0] != seq![0x2eu8]
    &&& forall|i: int| 0 <= i < parts.len() ==> #[trigger] parts[i] != seq![0x2eu8, 0x2eu8]
}

pub fn safe_relative_path(path: &[u8]) -> (r: bool)
    ensures
        r == spec_safe_relative_path(path@),
{
    if path.len() == 0 || path[0] == 0x2f {
        return false;
    }
    let parts = split_path(path);
    let ghost pv = vec_bytes(parts@);
    proof {
        lemma_path_parts_nonempty(path@);
    }
    let first = &parts[0];
    assert(first@ == pv[0]);
    if first.len() == 1 && first[0] == 0x2e {
        assert(first@ =~= seq![0x2eu8]);
        return false;
    }
    assert(pv[0] != seq![0x2eu8]) by {
        if pv[0] == seq![0x2eu8] {
            assert(first@[0] == 0x2eu8);
        }
    }
    let mut i: usize = 0;
    while i < parts.len()
        invariant
            i <= parts@.len(),
            pv == vec_bytes(parts@),
            pv == path_parts(path@),
            path@.len() > 0 && path@[0] != 0x2fu8,
            pv[0] != seq![0x2eu8],
            forall|k: int| 0 <= k < i ==> #[trigger] pv[k] != seq![0x2eu8, 0x2eu8],
        decreases parts@.len() - i,
    {
        let part = &parts[i];
        assert(part@ == pv[i as int]);
        if part.len() == 2 && part[0] == 0x2e && part[1] == 0x2e {
            assert(part@ =~= seq![0x2eu8, 0x2eu8]);
            return false;
        }
        assert(pv[i as int] != seq![0x2eu8, 0x2eu8]) by {
            if pv[i as int] == seq![0x2eu8, 0x2eu8] {
                assert(part@[0] == 0x2eu8 && part@[1] == 0x2eu8);
            }
        }
        i += 1;
    }
    true
}

/// Version of the control protocol.
pub const PROTOCOL_VERSION: u32 = 1;

/// Largest compositor response read.
pub const MAX_RESPONSE_BYTES: usize = 4194304;

/// The request identifier after `id`: it wraps, skipping zero.
pub fn next_request_id(id: u32) -> (r: u32)
    ensures
        r == if id == u32::MAX {
            1
        } else {
            (id + 1) as u32
        },
{
    if id == u32::MAX {
        1
    } else {
        id + 1
    }
}

/// The envelope fields of a compositor response; the result itself stays
/// with the caller.
#[derive(Clone, Debug)]
pub struct ResponseEnvelope {
    pub version: u32,
    pub id: Option<u64>,
    pub ok: bool,
    pub has_result: bool,
    pub error: Option<(String, String)>,
}

/// How `{:?}` writes an optional identifier.
pub open spec fn optional_id_text(id: Option<u64>) -> Seq<char> {
    match id {
        Some(v) => "Some("@ + decimal_chars(v as nat) + ")"@,
        None => "None"@,
    }
}

/// Why a response to request `id` is refused, in the order checked: a
/// response over the size cap, another protocol version, another
/// identifier, a failure (with its code and message, or a default), a
/// success without a result.
pub open spec fn spec_response_problem(e: ResponseEnvelope, id: u32) -> Option<Seq<char>> {
    if e.version != PROTOCOL_VERSION {
        Some(
            "compositor returned protocol version "@ + decimal_chars(e.version as nat)
                + ", expected 1"@,
        )
    } else if e.id != Some(id as u64) {
        Some(
            "compositor returned response id "@ + optional_id_text(e.id) + ", expected "@
                + decimal_chars(id as nat),
        )
    } else if !e.ok {
        Some(
            match e.error {
                Some((code, message)) => code@ + ": "@ + message@,
                None => "unknown: the compositor rejected the request without details"@,
            },
        )
    } else if !e.has_result {
        Some("successful compositor response has no result"@)
    } else {
        None
    }
}

/// A response longer than the cap is refused before it is parsed.
pub fn check_response_size(len: usize) -> (r: Result<(), CliError>)
    ensures
        r is Ok <==> len <= MAX_RESPONSE_BYTES,
        r matches Err(e) ==> e.message@ == "compositor response exceeds the 4 MiB safety limit"@,
{
    if len > MAX_RESPONSE_BYTES {
        Err(CliError::new("compositor response exceeds the 4 MiB safety limit"))
    } else {
        Ok(())
    }
}

/// Checks the envelope of the response to request `id`.
pub fn check_response(envelope: &ResponseEnvelope, id: u32) -> (r: Result<(), CliError>)
    ensures
        match spec_response_problem(*envelope, id) {
            None => r is Ok,
            Some(m) => r matches Err(e) && e.message@ == m,
        },
{
    if envelope.version != PROTOCOL_VERSION {
        let mut text = str_chars("compositor returned protocol version ");
        push_decimal(envelope.version as u64, &mut text);
        push_str_chars(&mut text, ", expected 1");
        let message = string_from_chars(text.as_slice());
        return Err(CliError::new(message.as_str()));
    }
    let matches = match envelope.id {
        Some(v) => v == id as u64,
        None => false,
    };
    if !matches {
        let mut text = str_chars("compositor returned response id ");
        match envelope.id {
            Some(v) => {
                push_str_chars(&mut text, "Some(");
                push_decimal(v, &mut text);
                push_str_chars(&mut text, ")");
            },
            None => push_str_chars(&mut text, "None"),
        }
        push_str_chars(&mut text, ", expected ");
        push_decimal(id as u64, &mut text);
        let message = string_from_chars(text.as_slice());
        return Err(CliError::new(message.as_str()));
    }
    if !envelope.ok {
        let message = match &envelope.error {
            Some((code, detail)) => {
                let mut text = str_chars(code.as_str());
                push_str_chars(&mut text, ": ");
                push_str_chars(&mut text, detail.as_str());
                string_from_chars(text.as_slice())
            },
            None => "unknown: the compositor rejected the request without details".to_owned(),
        };
        return Err(CliError::new(message.as_str()));
    }
    if !envelope.has_result {
        return Err(CliError::new("successful compositor response has no result"));
    }
    Ok(())
}

/// A part of a normalised path: a non-empty name without separators that
/// is neither `.` nor `..`.
pub open spec fn plain_part(part: Seq<u8>) -> bool {
    &&& part.len() > 0
    &&& part != seq![0x2eu8]
    &&& part != seq![0x2eu8, 0x2eu8]
    &&& !part.contains(0x2fu8)
}

proof fn lemma_parts_have_no_separator(p: Seq<u8>)
    ensures
        forall|i: int| 0 <= i < path_parts(p).len() ==> !(#[trigger] path_parts(p)[i]).contains(0x2fu8),
    decreases p.len(),
{
    if p.len() > 0 {
        lemma_parts_have_no_separator(p.drop_last());
        lemma_path_parts_nonempty(p.drop_last());
        let r = path_parts(p.drop_last());
        if p.last() != 0x2fu8 {
            assert forall|i: int| 0 <= i < path_parts(p).len() implies !(
            #[trigger] path_parts(p)[i]).contains(0x2fu8) by {
                if i == r.len() - 1 {
                    let q = r.last().push(p.last());
                    assert(path_parts(p)[i] == q);
                    if q.contains(0x2fu8) {
                        let k = choose|k: int| 0 <= k < q.len() && q[k] == 0x2fu8;
                        if k < r.last().len() {
                            assert(r.last()[k] == 0x2fu8);
                            assert(r[r.len() - 1].contains(0x2fu8));
                        }
                    }
                } else {
                    assert(path_parts(p)[i] == r[i]);
                }
            }
        } else {
            assert forall|i: int| 0 <= i < path_parts(p).len() implies !(
            #[trigger] path_parts(p)[i]).contains(0x2fu8) by {
                if i < r.len() {
                    assert(path_parts(p)[i] == r[i]);
                } else {
                    assert(path_parts(p)[i] =~= Seq::<u8>::empty());
                }
            }
        }
    }
}

proof fn lemma_normalized_parts_are_plain(parts: Seq<Seq<u8>>)
    requires
        forall|i: int| 0 <= i < parts.len() ==> !(#[trigger] parts[i]).contains(0x2fu8),
    ensures
        normalize_parts(parts) matches Some(stack) ==> forall|i: int|
            0 <= i < stack.len() ==> plain_part(#[trigger] stack[i]),
    decreases parts.len(),
{
    if parts.len() > 0 {
        assert forall|i: int| 0 <= i < parts.drop_last().len() implies !(
        #[trigger] parts.drop_last()[i]).contains(0x2fu8) by {
            assert(parts.drop_last()[i] == parts[i]);
        }
        lemma_normalized_parts_are_plain(parts.drop_last());
        if let Some(stack) = normalize_parts(parts) {
            let prior = normalize_parts(parts.drop_last())->0;
            let part = parts.last();
            assert(!parts[parts.len() - 1].contains(0x2fu8));
            assert forall|i: int| 0 <= i < stack.len() implies plain_part(#[trigger] stack[i]) by {
                if part.len() == 0 || part == seq![0x2eu8] {
                    assert(stack == prior);
                } else if part == seq![0x2eu8, 0x2eu8] {
                    assert(stack == prior.drop_last());
                    assert(stack[i] == prior[i]);
                } else {
                    assert(stack == prior.push(part));
                    if i < prior.len() {
                        assert(stack[i] == prior[i]);
                    }
                }
            }
        }
    }
}

proof fn lemma_parts_of_plain(b: Seq<u8>)
    requires
        !b.contains(0x2fu8),
    ensures
        path_parts(b) == seq![b],
    decreases b.len(),
{
    if b.len() == 0 {
        assert(b =~= Seq::<u8>::empty());
        assert(path_parts(b) =~= seq![b]);
    } else {
        assert(!b.drop_last().contains(0x2fu8)) by {
            if b.drop_last().contains(0x2fu8) {
                let k = choose|k: int| 0 <= k < b.drop_last().len() && b.drop_last()[k] == 0x2fu8;
                assert(b[k] == 0x2fu8);
            }
        }
        lemma_parts_of_plain(b.drop_last());
        assert(b.last() != 0x2fu8) by {
            assert(b[b.len() - 1] == b.last());
        }
        assert(b.drop_last().push(b.last()) =~= b);
        assert(path_parts(b) =~= seq![b]);
    }
}

proof fn lemma_parts_after_separator(a: Seq<u8>, b: Seq<u8>)
    requires
        !b.contains(0x2fu8),
    ensures
        path_parts(a + seq![0x2fu8] + b) == path_parts(a).push(b),
    decreases b.len(),
{
    if b.len() == 0 {
        assert(b =~= Seq::<u8>::empty());
        assert(a + seq![0x2fu8] + b =~= a.push(0x2fu8));
        assert(a.push(0x2fu8).drop_last() =~= a);
        assert(path_parts(a).push(Seq::<u8>::empty()) =~= path_parts(a).push(b));
    } else {
        assert(!b.drop_last().contains(0x2fu8)) by {
            if b.drop_last().contains(0x2fu8) {
                let k = choose|k: int| 0 <= k < b.drop_last().len() && b.drop_last()[k] == 0x2fu8;
                assert(b[k] == 0x2fu8);
            }
        }
        lemma_parts_after_separator(a, b.drop_last());
        let whole = a + seq![0x2fu8] + b;
        assert(whole.drop_last() =~= a + seq![0x2fu8] + b.drop_last());
        assert(whole.last() == b.last());
        assert(b.last() != 0x2fu8) by {
            assert(b[b.len() - 1] == b.last());
        }
        assert(b.drop_last().push(b.last()) =~= b);
        assert(path_parts(whole) =~= path_parts(a).push(b));
    }
}

proof fn lemma_parts_of_rooted(stack: Seq<Seq<u8>>)
    requires
        stack.len() > 0,
        forall|i: int| 0 <= i < stack.len() ==> plain_part(#[trigger] stack[i]),
    ensures
        path_parts(rooted(stack)) == seq![Seq::<u8>::empty()] + stack,
    decreases stack.len(),
{
    if stack.len() == 1 {
        assert(plain_part(stack[0]));
        lemma_parts_after_separator(Seq::empty(), stack[0]);
        assert(Seq::<u8>::empty() + seq![0x2fu8] + stack[0] =~= seq![0x2fu8] + stack[0]);
        assert(path_parts(Seq::<u8>::empty()) =~= seq![Seq::<u8>::empty()]);
        assert(seq![Seq::<u8>::empty()].push(stack[0]) =~= seq![Seq::<u8>::empty()] + stack);
    } else {
        assert forall|i: int| 0 <= i < stack.drop_last().len() implies plain_part(
            #[trigger] stack.drop_last()[i],
        ) by {
            assert(stack.drop_last()[i] == stack[i]);
        }
        lemma_parts_of_rooted(stack.drop_last());
        assert(plain_part(stack[stack.len() - 1]));
        lemma_parts_after_separator(rooted(stack.drop_last()), stack.last());
        assert((seq![Seq::<u8>::empty()] + stack.drop_last()).push(stack.last()) =~= seq![
            Seq::<u8>::empty(),
        ] + stack);
    }
}

proof fn lemma_normalize_rooted_parts(stack: Seq<Seq<u8>>)
    requires
        forall|i: int| 0 <= i < stack.len() ==> plain_part(#[trigger] stack[i]),
    ensures
        normalize_parts(seq![Seq::<u8>::empty()] + stack) == Some(stack),
    decreases stack.len(),
{
    let parts = seq![Seq::<u8>::empty()] + stack;
    if stack.len() == 0 {
        assert(stack =~= Seq::<Seq<u8>>::empty());
        assert(parts =~= seq![Seq::<u8>::empty()]);
        assert(parts.drop_last() =~= Seq::<Seq<u8>>::empty());
        assert(normalize_parts(parts.drop_last()) == Some(Seq::<Seq<u8>>::empty()));
        assert(parts.last() =~= Seq::<u8>::empty());
    } else {
        assert forall|i: int| 0 <= i < stack.drop_last().len() implies plain_part(
            #[trigger] stack.drop_last()[i],
        ) by {
            assert(stack.drop_last()[i] == stack[i]);
        }
        lemma_normalize_rooted_parts(stack.drop_last());
        assert(parts.drop_last() =~= seq![Seq::<u8>::empty()] + stack.drop_last());
        assert(parts.last() == stack.last());
        assert(plain_part(stack[stack.len() - 1]));
        assert(stack.drop_last().push(stack.last()) =~= stack);
        assert(normalize_parts(parts.drop_last()) == Some(stack.drop_last()));
        assert(normalize_parts(parts) == Some(stack.drop_last().push(stack.last())));
    }
}

/// Normalising is idempotent: the normal form of an absolute path is its
/// own normal form.
pub proof fn law_lexical_absolute_is_idempotent(path: Seq<u8>)
    requires
        spec_lexical_absolute(path) is Ok,
    ensures
        spec_lexical_absolute(spec_lexical_absolute(path)->Ok_0) == spec_lexical_absolute(path),
{
    let stack = normalize_parts(path_parts(path))->0;
    lemma_parts_have_no_separator(path);
    lemma_normalized_parts_are_plain(path_parts(path));
    lemma_parts_of_rooted(stack);
    lemma_normalize_rooted_parts(stack);
    let v = rooted(stack);
    assert(path_parts(v) == seq![Seq::<u8>::empty()] + stack);
    assert(v.len() > 0 && v[0] == 0x2fu8) by {
        lemma_rooted_starts_at_root(stack);
    }
}

proof fn lemma_rooted_starts_at_root(stack: Seq<Seq<u8>>)
    ensures
        rooted(stack).len() > 0,
        rooted(stack)[0] == 0x2fu8,
    decreases stack.len(),
{
    if stack.len() > 1 {
        lemma_rooted_starts_at_root(stack.drop_last());
        let prior = rooted(stack.drop_last());
        assert((prior + seq![0x2fu8] + stack.last())[0] == prior[0]);
    } else if stack.len() == 1 {
        assert((seq![0x2fu8] + stack[0])[0] == 0x2fu8);
    }
}

/// The message of a failed tool run: the context, the exit status and, when
/// there is any, the tool's own output.
pub open spec fn spec_tool_failure(context: Seq<char>, status: Seq<char>, details: Seq<char>) -> Seq<
    char,
> {
    context + ": "@ + status + if details.len() == 0 {
        Seq::<char>::empty()
    } else {
        ": "@ + details
    }
}

pub fn tool_failure(context: &str, status: &str, details: &str) -> (r: CliError)
    ensures
        r.message@ == spec_tool_failure(context@, status@, details@),
{
    let mut text = str_chars(context);
    push_str_chars(&mut text, ": ");
    push_str_chars(&mut text, status);
    let d = str_chars(details);
    if d.len() > 0 {
        push_str_chars(&mut text, ": ");
        push_str_chars(&mut text, details);
    } else {
        assert(text@ + Seq::<char>::empty() =~= text@);
    }
    let message = string_from_chars(text.as_slice());
    CliError::new(message.as_str())
}

/// A fresh checkout must resolve to the marker's revision; `head` is what
/// Git printed, compared without surrounding white space.
pub fn verify_checkout_revision(head: &str, revision: &str) -> (r: Result<(), CliError>)
    ensures
        r is Ok <==> spec_trim(head@) == revision@,
        r matches Err(e) ==> e.message@ == "cloned Denial checkout resolved to "@ + spec_trim(head@)
            + ", expected "@ + revision@,
{
    let h = str_chars(head);
    let trimmed = trim_chars(h.as_slice());
    let r = str_chars(revision);
    if crate::text::chars_equal(trimmed.as_slice(), r.as_slice()) {
        return Ok(());
    }
    let mut text = str_chars("cloned Denial checkout resolved to ");
    let shown = string_from_chars(trimmed.as_slice());
    push_str_chars(&mut text, shown.as_str());
    push_str_chars(&mut text, ", expected ");
    push_str_chars(&mut text, revision);
    let message = string_from_chars(text.as_slice());
    Err(CliError::new(message.as_str()))
}

} // verus!
