//! The Flutter embedder's value types: scheduled tasks, compositor backing
//! stores, the runtime mode and renderer of a project, the engine's command
//! line, start-up checks and the result codes of embedder calls.

pub mod budget;

use vstd::prelude::*;
use crate::clipboard::content::contains_byte;
use crate::engine::budget::PlatformMessage;
use crate::text::{
    chars_equal_str, debug_quote, debug_quoted, decimal_chars, lossy_string, push_decimal,
    push_str_chars, str_chars, string_from_chars, utf8_lossy,
};

verus! {

/// Upper bound on the damage rectangles accepted from one engine callback.
pub const MAX_FLUTTER_DAMAGE_RECTS: usize = 4096;

/// Upper bound on the length of a GL procedure name.
pub const MAX_GL_PROC_NAME_BYTES: usize = 1024;

/// Upper bound on a log tag.
pub const MAX_FLUTTER_LOG_TAG_BYTES: usize = 1024;

/// Upper bound on a log message.
pub const MAX_FLUTTER_LOG_MESSAGE_BYTES: usize = 65536;

/// The embedder API's success code.
pub const ENGINE_RESULT_SUCCESS: u32 = 0;

/// A task that the engine asked the platform runner to run at a time.
#[derive(Clone, Copy, Debug, PartialEq, Eq, Structural)]
pub struct ScheduledTask {
    pub runner: usize,
    pub task: u64,
    pub target_time_nanos: u64,
}

/// What the engine asks of the embedder from its callbacks: a task to run
/// on the platform runner, a vsync baton to answer, or a platform message.
#[derive(Debug)]
pub enum EngineEvent {
    PlatformTask(ScheduledTask),
    Vsync(isize),
    PlatformMessage(PlatformMessage),
}

/// A render target requested by the engine's compositor: a framebuffer, its
/// format and an opaque value owned by the handler.
#[derive(Clone, Copy, Debug, PartialEq, Eq, Structural)]
pub struct CompositorBackingStore {
    pub framebuffer: u32,
    pub format: u32,
    pub user_data: usize,
}

/// A frame to present: its framebuffer and the damage the engine reports
/// for the frame and for the buffer. The rectangle type is the embedder
/// ABI's.
#[derive(Clone, Copy)]
pub struct PresentFrame<'a, R> {
    pub framebuffer: u32,
    pub frame_damage: &'a [R],
    pub buffer_damage: &'a [R],
}

/// The size of a backing store that the compositor asks for.
#[derive(Clone, Copy, Debug, PartialEq, Eq, Structural)]
pub struct BackingStoreRequest {
    pub view_id: i64,
    pub width: usize,
    pub height: usize,
}

/// How the project's Dart code runs.
#[derive(Clone, Copy, Debug, PartialEq, Eq, Structural)]
pub enum DartRuntimeMode {
    Aot,
    AotProfile,
    Jit,
}

pub open spec fn spec_runs_aot(mode: DartRuntimeMode) -> bool {
    mode is Aot || mode is AotProfile
}

pub open spec fn spec_exposes_vm_service(mode: DartRuntimeMode) -> bool {
    mode is AotProfile || mode is Jit
}

impl DartRuntimeMode {
    /// Ahead-of-time compiled code: release and profile builds.
    pub fn runs_aot(self) -> (r: bool)
        ensures
            r == spec_runs_aot(self),
    {
        match self {
            DartRuntimeMode::Aot | DartRuntimeMode::AotProfile => true,
            DartRuntimeMode::Jit => false,
        }
    }

    /// Profile and debug builds expose the Dart VM service.
    pub fn exposes_vm_service(self) -> (r: bool)
        ensures
            r == spec_exposes_vm_service(self),
    {
        match self {
            DartRuntimeMode::AotProfile | DartRuntimeMode::Jit => true,
            DartRuntimeMode::Aot => false,
        }
    }
}

/// The renderer used on the OpenGL embedder surface; Impeller by default.
#[derive(Clone, Copy, Debug, PartialEq, Eq, Structural)]
pub enum RendererBackend {
    SkiaGles,
    ImpellerGles,
}

/// The name under which a renderer is written and parsed.
pub open spec fn renderer_label(backend: RendererBackend) -> Seq<char> {
    match backend {
        RendererBackend::SkiaGles => "skia"@,
        RendererBackend::ImpellerGles => "impeller"@,
    }
}

impl Default for RendererBackend {
    fn default() -> (r: Self)
        ensures
            r == RendererBackend::ImpellerGles,
    {
        RendererBackend::ImpellerGles
    }
}

impl RendererBackend {
    /// The accepted spellings of a renderer, for messages.
    pub const VALUES: &'static str = "skia or impeller";

    pub fn uses_impeller(self) -> (r: bool)
        ensures
            r == (self == RendererBackend::ImpellerGles),
    {
        match self {
            RendererBackend::ImpellerGles => true,
            RendererBackend::SkiaGles => false,
        }
    }

    /// The renderer's name: `skia` or `impeller`.
    pub fn label(self) -> (r: &'static str)
        ensures
            r@ == renderer_label(self),
    {
        match self {
            RendererBackend::SkiaGles => "skia",
            RendererBackend::ImpellerGles => "impeller",
        }
    }

    /// Reads a renderer's name; any other text is refused and kept in the
    /// error.
    pub fn parse(value: &str) -> (r: Result<RendererBackend, ParseRendererBackendError>)
        ensures
            r == Ok::<RendererBackend, ParseRendererBackendError>(RendererBackend::SkiaGles)
                <==> value@ == "skia"@,
            r == Ok::<RendererBackend, ParseRendererBackendError>(RendererBackend::ImpellerGles)
                <==> value@ == "impeller"@,
            r matches Err(e) ==> e.rejected() == value@ && value@ != "skia"@ && value@
                != "impeller"@,
    {
        proof {
            reveal_strlit("skia");
            reveal_strlit("impeller");
            assert("skia"@.len() != "impeller"@.len());
        }
        let chars = str_chars(value);
        if chars_equal_str(chars.as_slice(), "skia") {
            Ok(RendererBackend::SkiaGles)
        } else if chars_equal_str(chars.as_slice(), "impeller") {
            Ok(RendererBackend::ImpellerGles)
        } else {
            proof {
                if value@ == "skia"@ || value@ == "impeller"@ {
                    assert(chars@ == value@);
                }
            }
            Err(ParseRendererBackendError(value.to_owned()))
        }
    }
}

impl std::str::FromStr for RendererBackend {
    type Err = ParseRendererBackendError;

    fn from_str(value: &str) -> (r: Result<RendererBackend, ParseRendererBackendError>)
        ensures
            r == Ok::<RendererBackend, ParseRendererBackendError>(RendererBackend::SkiaGles)
                <==> value@ == "skia"@,
            r == Ok::<RendererBackend, ParseRendererBackendError>(RendererBackend::ImpellerGles)
                <==> value@ == "impeller"@,
            r matches Err(e) ==> e.rejected() == value@ && value@ != "skia"@ && value@
                != "impeller"@,
    {
        RendererBackend::parse(value)
    }
}

/// A renderer name that is neither `skia` nor `impeller`.
#[derive(Clone, Debug)]
pub struct ParseRendererBackendError(String);

/// The message of a refused renderer name: the name as Rust's debug
/// formatting quotes it, then the accepted values.
pub open spec fn parse_error_message(quoted: Seq<char>) -> Seq<char> {
    "unknown Flutter renderer "@ + quoted + "; expected "@ + "skia or impeller"@
}

impl ParseRendererBackendError {
    /// The refused text.
    pub closed spec fn rejected(&self) -> Seq<char> {
        self.0@
    }

    pub fn value(&self) -> (r: &str)
        ensures
            r@ == self.rejected(),
    {
        self.0.as_str()
    }

    pub fn message(&self) -> (r: String)
        ensures
            r@ == parse_error_message(debug_quoted(self.rejected())),
    {
        let quoted = debug_quote(self.0.as_str());
        let mut chars = str_chars("unknown Flutter renderer ");
        let q = str_chars(quoted.as_str());
        let mut k: usize = 0;
        while k < q.len()
            invariant
                k <= q@.len(),
                chars@ == "unknown Flutter renderer "@ + q@.take(k as int),
            decreases q@.len() - k,
        {
            chars.push(q[k]);
            proof {
                assert(q@.take(k + 1) =~= q@.take(k as int).push(q@[k as int]));
            }
            k += 1;
        }
        assert(q@.take(q@.len() as int) =~= q@);
        let tail = str_chars("; expected ");
        let values = str_chars(RendererBackend::VALUES);
        let mut rest = tail;
        let mut j: usize = 0;
        while j < values.len()
            invariant
                j <= values@.len(),
                rest@ == "; expected "@ + values@.take(j as int),
            decreases values@.len() - j,
        {
            rest.push(values[j]);
            proof {
                assert(values@.take(j + 1) =~= values@.take(j as int).push(values@[j as int]));
            }
            j += 1;
        }
        assert(values@.take(values@.len() as int) =~= values@);
        let mut i: usize = 0;
        let ghost head = chars@;
        while i < rest.len()
            invariant
                i <= rest@.len(),
                chars@ == head + rest@.take(i as int),
            decreases rest@.len() - i,
        {
            chars.push(rest[i]);
            proof {
                assert(rest@.take(i + 1) =~= rest@.take(i as int).push(rest@[i as int]));
            }
            i += 1;
        }
        assert(rest@.take(rest@.len() as int) =~= rest@);
        assert(chars@ =~= parse_error_message(quoted@));
        string_from_chars(chars.as_slice())
    }
}

/// A Flutter project as the engine is started with it: the engine library,
/// the asset and ICU data paths, how Dart runs, the application library for
/// AOT modes, the renderer and an optional resource-cache cap (zero keeps the
/// engine's own limit).
#[derive(Clone, Debug)]
pub struct EngineProject {
    pub engine_library: String,
    pub assets: String,
    pub icu_data: String,
    pub runtime: DartRuntimeMode,
    pub aot_library: Option<String>,
    pub renderer_backend: RendererBackend,
    pub resource_cache_max_bytes_threshold: usize,
}

/// The switches that enable Impeller on the embedder surface.
pub open spec fn impeller_switches() -> Seq<Seq<char>> {
    seq!["--enable-impeller=true"@, "--denial-gl-fbo-zero-is-no-target"@]
}

/// The switches that enable profiling through a private VM service.
pub open spec fn vm_service_switches() -> Seq<Seq<char>> {
    seq![
        "--enable-dart-profiling"@,
        "--vm-service-host=127.0.0.1"@,
        "--vm-service-port=0"@,
        "--disable-vm-service-publication"@,
    ]
}

/// The engine's argument vector for a project: the program name, Impeller's
/// switches, the cache cap when set, checked mode for JIT, and the VM
/// service switches for modes that expose it.
pub open spec fn command_line(p: EngineProject) -> Seq<Seq<char>> {
    let base = seq!["deniald"@];
    let renderer = if p.renderer_backend == RendererBackend::ImpellerGles {
        base + impeller_switches()
    } else {
        base
    };
    let cache = if p.resource_cache_max_bytes_threshold != 0 {
        renderer.push(
            "--resource-cache-max-bytes-threshold="@ + decimal_chars(
                p.resource_cache_max_bytes_threshold as nat,
            ),
        )
    } else {
        renderer
    };
    let checked = if p.runtime == DartRuntimeMode::Jit {
        cache.push("--enable-checked-mode"@)
    } else {
        cache
    };
    if spec_exposes_vm_service(p.runtime) {
        checked + vm_service_switches()
    } else {
        checked
    }
}

pub open spec fn string_views(v: Seq<String>) -> Seq<Seq<char>> {
    v.map_values(|s: String| s@)
}

fn push_arg(args: &mut Vec<String>, arg: &str)
    ensures
        string_views(final(args)@) == string_views(old(args)@).push(arg@),
{
    args.push(arg.to_owned());
    assert(string_views(final(args)@) =~= string_views(old(args)@).push(arg@));
}

pub fn engine_command_line(project: &EngineProject) -> (r: Vec<String>)
    ensures
        string_views(r@) == command_line(*project),
{
    let mut args: Vec<String> = Vec::new();
    push_arg(&mut args, "deniald");
    assert(string_views(args@) =~= seq!["deniald"@]);
    if project.renderer_backend.uses_impeller() {
        push_arg(&mut args, "--enable-impeller=true");
        push_arg(&mut args, "--denial-gl-fbo-zero-is-no-target");
        assert(string_views(args@) =~= seq!["deniald"@] + impeller_switches());
    }
    if project.resource_cache_max_bytes_threshold != 0 {
        let mut chars = str_chars("--resource-cache-max-bytes-threshold=");
        push_decimal(project.resource_cache_max_bytes_threshold as u64, &mut chars);
        let arg = string_from_chars(chars.as_slice());
        push_arg(&mut args, arg.as_str());
    }
    if project.runtime == DartRuntimeMode::Jit {
        push_arg(&mut args, "--enable-checked-mode");
    }
    if project.runtime.exposes_vm_service() {
        let ghost before = string_views(args@);
        push_arg(&mut args, "--enable-dart-profiling");
        push_arg(&mut args, "--vm-service-host=127.0.0.1");
        push_arg(&mut args, "--vm-service-port=0");
        push_arg(&mut args, "--disable-vm-service-publication");
        assert(string_views(args@) =~= before + vm_service_switches());
    }
    args
}

/// Why an embedder call failed.
#[derive(Clone, Debug, PartialEq, Eq)]
pub enum EngineError {
    PathContainsNul(String),
    LocaleContainsNul(&'static str),
    Call { operation: &'static str, result: u32 },
    NullHandle(&'static str),
    RenderThreadShutdown,
}

/// The name of a runtime mode as `{:?}` writes it.
pub open spec fn runtime_mode_name(mode: DartRuntimeMode) -> Seq<char> {
    match mode {
        DartRuntimeMode::Aot => "Aot"@,
        DartRuntimeMode::AotProfile => "AotProfile"@,
        DartRuntimeMode::Jit => "Jit"@,
    }
}

/// What an engine error says.
pub open spec fn engine_error_message(e: EngineError) -> Seq<char> {
    match e {
        EngineError::PathContainsNul(path) => "path contains a NUL byte: "@ + path@,
        EngineError::LocaleContainsNul(field) => "Flutter locale "@ + field@
            + " contains a NUL byte"@,
        EngineError::Call { operation, result } => "Flutter "@ + operation@
            + " failed with result "@ + decimal_chars(result as nat),
        EngineError::NullHandle(operation) => "Flutter "@ + operation@
            + " returned a null handle"@,
        EngineError::RenderThreadShutdown => "Flutter render-thread shutdown cleanup failed"@,
    }
}

/// What a start-up error says.
pub open spec fn host_error_message(e: HostError) -> Seq<char> {
    match e {
        HostError::Engine(inner) => engine_error_message(inner),
        HostError::PathContainsNul { field, path } => "Flutter "@ + field@
            + " path contains a NUL: "@ + path@,
        HostError::RuntimeModeMismatch { project, engine_runs_aot } => "Flutter project requests "@
            + runtime_mode_name(project) + ", but the engine reports "@ + if engine_runs_aot {
            "AOT"@
        } else {
            "JIT"@
        },
        HostError::MissingAotLibrary => "AOT Flutter project has no application library"@,
    }
}

fn concat3(a: &str, b: &str, c: &str) -> (r: String)
    ensures
        r@ == a@ + b@ + c@,
{
    let mut out = str_chars(a);
    push_str_chars(&mut out, b);
    push_str_chars(&mut out, c);
    string_from_chars(out.as_slice())
}

impl EngineError {
    pub fn message(&self) -> (r: String)
        ensures
            r@ == engine_error_message(*self),
    {
        match self {
            EngineError::PathContainsNul(path) => {
                let mut out = str_chars("path contains a NUL byte: ");
                push_str_chars(&mut out, path.as_str());
                string_from_chars(out.as_slice())
            },
            EngineError::LocaleContainsNul(field) => {
                concat3("Flutter locale ", field, " contains a NUL byte")
            },
            EngineError::Call { operation, result } => {
                let mut out = str_chars("Flutter ");
                push_str_chars(&mut out, operation);
                push_str_chars(&mut out, " failed with result ");
                push_decimal(*result as u64, &mut out);
                string_from_chars(out.as_slice())
            },
            EngineError::NullHandle(operation) => {
                concat3("Flutter ", operation, " returned a null handle")
            },
            EngineError::RenderThreadShutdown => {
                "Flutter render-thread shutdown cleanup failed".to_owned()
            },
        }
    }
}

impl HostError {
    pub fn message(&self) -> (r: String)
        ensures
            r@ == host_error_message(*self),
    {
        match self {
            HostError::Engine(inner) => inner.message(),
            HostError::PathContainsNul { field, path } => {
                let mut out = str_chars("Flutter ");
                push_str_chars(&mut out, field);
                push_str_chars(&mut out, " path contains a NUL: ");
                push_str_chars(&mut out, path.as_str());
                string_from_chars(out.as_slice())
            },
            HostError::RuntimeModeMismatch { project, engine_runs_aot } => {
                let mode = match project {
                    DartRuntimeMode::Aot => "Aot",
                    DartRuntimeMode::AotProfile => "AotProfile",
                    DartRuntimeMode::Jit => "Jit",
                };
                let engine = if *engine_runs_aot {
                    "AOT"
                } else {
                    "JIT"
                };
                let mut out = str_chars("Flutter project requests ");
                push_str_chars(&mut out, mode);
                push_str_chars(&mut out, ", but the engine reports ");
                push_str_chars(&mut out, engine);
                string_from_chars(out.as_slice())
            },
            HostError::MissingAotLibrary => {
                "AOT Flutter project has no application library".to_owned()
            },
        }
    }
}

/// The first required embedder procedure that the engine's proc table lacks,
/// by its place in the required order (`CreateAOTData`, `CollectAOTData`,
/// `Run`, `Shutdown`, `SendWindowMetricsEvent`, `SendPointerEvent`,
/// `SendKeyEvent`, `SendPlatformMessage`, `SendPlatformMessageResponse`,
/// `RegisterExternalTexture`, `UnregisterExternalTexture`,
/// `MarkExternalTextureFrameAvailable`, `OnVsync`, `PostRenderThreadTask`,
/// `GetCurrentTime`, `RunTask`, `UpdateLocales`, `RunsAOTCompiledDartCode`,
/// `NotifyDisplayUpdate`); `present[i]` says whether the `i`-th is there.
/// `None` when all are present.
pub fn first_missing_proc(present: &[bool]) -> (r: Option<usize>)
    ensures
        match r {
            Some(i) => i < present@.len() && !present@[i as int] && forall|j: int|
                0 <= j < i ==> #[trigger] present@[j],
            None => forall|j: int| 0 <= j < present@.len() ==> #[trigger] present@[j],
        },
{
    let mut i: usize = 0;
    while i < present.len()
        invariant
            i <= present@.len(),
            forall|j: int| 0 <= j < i ==> #[trigger] present@[j],
        decreases present@.len() - i,
    {
        if !present[i] {
            return Some(i);
        }
        i += 1;
    }
    None
}

/// The frame window of a vsync answered `interval_nanos` after `start`:
/// the interval saturates to `u64`, and so does the target.
pub fn vsync_after_window(start: u64, interval_nanos: u128) -> (r: (u64, u64))
    ensures
        r.0 == start,
        r.1 == if start + (if interval_nanos > u64::MAX {
            u64::MAX as int
        } else {
            interval_nanos as int
        }) > u64::MAX {
            u64::MAX as int
        } else {
            start + (if interval_nanos > u64::MAX {
                u64::MAX as int
            } else {
                interval_nanos as int
            })
        },
{
    let interval: u64 = if interval_nanos > u64::MAX as u128 {
        u64::MAX
    } else {
        interval_nanos as u64
    };
    (start, start.saturating_add(interval))
}

/// Maps an embedder result code to `Ok` on success and to a `Call` error
/// that names the operation otherwise.
pub fn check_result(operation: &'static str, result: u32) -> (r: Result<(), EngineError>)
    ensures
        r is Ok <==> result == ENGINE_RESULT_SUCCESS,
        result != ENGINE_RESULT_SUCCESS ==> r == Err::<(), EngineError>(
            EngineError::Call { operation, result },
        ),
{
    if result == ENGINE_RESULT_SUCCESS {
        Ok(())
    } else {
        Err(EngineError::Call { operation, result })
    }
}

/// Why an engine could not be started from a project.
#[derive(Clone, Debug, PartialEq, Eq)]
pub enum HostError {
    Engine(EngineError),
    PathContainsNul { field: &'static str, path: String },
    RuntimeModeMismatch { project: DartRuntimeMode, engine_runs_aot: bool },
    MissingAotLibrary,
}

/// The text holds a NUL byte, which a C string cannot carry.
pub open spec fn has_nul(s: Seq<char>) -> bool {
    vstd::utf8::encode_utf8(s).contains(0u8)
}

pub fn contains_nul(s: &str) -> (r: bool)
    ensures
        r == has_nul(s@),
{
    contains_byte(s.as_bytes(), 0)
}

/// The engine's mode must match the project's, and an AOT project names its
/// application library, which is returned to be loaded.
pub fn runtime_preflight(project: &EngineProject, engine_runs_aot: bool) -> (r: Result<
    Option<String>,
    HostError,
>)
    ensures
        engine_runs_aot != spec_runs_aot(project.runtime) ==> r == Err::<Option<String>, HostError>(
            HostError::RuntimeModeMismatch { project: project.runtime, engine_runs_aot },
        ),
        engine_runs_aot == spec_runs_aot(project.runtime) ==> {
            &&& (project.runtime is Jit ==> r == Ok::<Option<String>, HostError>(None))
            &&& (spec_runs_aot(project.runtime) && project.aot_library is None ==> r == Err::<
                Option<String>,
                HostError,
            >(HostError::MissingAotLibrary))
            &&& (spec_runs_aot(project.runtime) && project.aot_library is Some ==> r == Ok::<
                Option<String>,
                HostError,
            >(project.aot_library))
        },
{
    if engine_runs_aot != project.runtime.runs_aot() {
        return Err(HostError::RuntimeModeMismatch { project: project.runtime, engine_runs_aot });
    }
    match project.runtime {
        DartRuntimeMode::Jit => Ok(None),
        _ => match &project.aot_library {
            Some(path) => Ok(Some(path.clone())),
            None => Err(HostError::MissingAotLibrary),
        },
    }
}

/// The asset and ICU paths must be valid C strings; the assets are checked
/// first.
pub fn check_project_paths(project: &EngineProject) -> (r: Result<(), HostError>)
    ensures
        r is Ok <==> !has_nul(project.assets@) && !has_nul(project.icu_data@),
        has_nul(project.assets@) ==> r == Err::<(), HostError>(
            HostError::PathContainsNul { field: "assets", path: project.assets },
        ),
        !has_nul(project.assets@) && has_nul(project.icu_data@) ==> r == Err::<(), HostError>(
            HostError::PathContainsNul { field: "ICU", path: project.icu_data },
        ),
{
    if contains_nul(project.assets.as_str()) {
        return Err(HostError::PathContainsNul { field: "assets", path: project.assets.clone() });
    }
    if contains_nul(project.icu_data.as_str()) {
        return Err(HostError::PathContainsNul { field: "ICU", path: project.icu_data.clone() });
    }
    Ok(())
}

/// A locale handed to the engine: a language code and optional country,
/// script and variant codes, none of which holds a NUL byte.
#[derive(Clone, Debug)]
pub struct EngineLocale {
    language_code: String,
    country_code: Option<String>,
    script_code: Option<String>,
    variant_code: Option<String>,
}

pub open spec fn optional_has_nul(s: Option<&str>) -> bool {
    match s {
        Some(v) => has_nul(v@),
        None => false,
    }
}

pub open spec fn optional_view(s: Option<&str>) -> Option<Seq<char>> {
    match s {
        Some(v) => Some(v@),
        None => None,
    }
}

pub open spec fn string_option_view(s: Option<String>) -> Option<Seq<char>> {
    match s {
        Some(v) => Some(v@),
        None => None,
    }
}

fn owned_code(field: &'static str, value: &str) -> (r: Result<String, EngineError>)
    ensures
        r is Err <==> has_nul(value@),
        r matches Ok(s) ==> s@ == value@,
        r matches Err(e) ==> e == EngineError::LocaleContainsNul(field),
{
    if contains_nul(value) {
        Err(EngineError::LocaleContainsNul(field))
    } else {
        Ok(value.to_owned())
    }
}

fn owned_optional_code(field: &'static str, value: Option<&str>) -> (r: Result<
    Option<String>,
    EngineError,
>)
    ensures
        r is Err <==> optional_has_nul(value),
        r matches Ok(s) ==> string_option_view(s) == optional_view(value),
        r matches Err(e) ==> e == EngineError::LocaleContainsNul(field),
{
    match value {
        Some(v) => match owned_code(field, v) {
            Ok(s) => Ok(Some(s)),
            Err(e) => Err(e),
        },
        None => Ok(None),
    }
}

impl EngineLocale {
    pub closed spec fn language_view(&self) -> Seq<char> {
        self.language_code@
    }

    pub closed spec fn country_view(&self) -> Option<Seq<char>> {
        string_option_view(self.country_code)
    }

    pub closed spec fn script_view(&self) -> Option<Seq<char>> {
        string_option_view(self.script_code)
    }

    pub closed spec fn variant_view(&self) -> Option<Seq<char>> {
        string_option_view(self.variant_code)
    }

    /// Builds a locale; the first code that holds a NUL byte, in the order
    /// language, country, script, variant, is refused by name.
    pub fn new(
        language_code: &str,
        country_code: Option<&str>,
        script_code: Option<&str>,
        variant_code: Option<&str>,
    ) -> (r: Result<EngineLocale, EngineError>)
        ensures
            r is Ok <==> !has_nul(language_code@) && !optional_has_nul(country_code)
                && !optional_has_nul(script_code) && !optional_has_nul(variant_code),
            r matches Ok(l) ==> l.language_view() == language_code@ && l.country_view()
                == optional_view(country_code) && l.script_view() == optional_view(script_code)
                && l.variant_view() == optional_view(variant_code),
            has_nul(language_code@) ==> r == Err::<EngineLocale, EngineError>(
                EngineError::LocaleContainsNul("language code"),
            ),
            !has_nul(language_code@) && optional_has_nul(country_code) ==> r == Err::<
                EngineLocale,
                EngineError,
            >(EngineError::LocaleContainsNul("country code")),
            !has_nul(language_code@) && !optional_has_nul(country_code) && optional_has_nul(
                script_code,
            ) ==> r == Err::<EngineLocale, EngineError>(
                EngineError::LocaleContainsNul("script code"),
            ),
            !has_nul(language_code@) && !optional_has_nul(country_code) && !optional_has_nul(
                script_code,
            ) && optional_has_nul(variant_code) ==> r == Err::<EngineLocale, EngineError>(
                EngineError::LocaleContainsNul("variant code"),
            ),
    {
        let language_code = match owned_code("language code", language_code) {
            Ok(s) => s,
            Err(e) => return Err(e),
        };
        let country_code = match owned_optional_code("country code", country_code) {
            Ok(s) => s,
            Err(e) => return Err(e),
        };
        let script_code = match owned_optional_code("script code", script_code) {
            Ok(s) => s,
            Err(e) => return Err(e),
        };
        let variant_code = match owned_optional_code("variant code", variant_code) {
            Ok(s) => s,
            Err(e) => return Err(e),
        };
        Ok(EngineLocale { language_code, country_code, script_code, variant_code })
    }

    pub fn language_code(&self) -> (r: &str)
        ensures
            r@ == self.language_view(),
    {
        self.language_code.as_str()
    }

    pub fn country_code(&self) -> (r: Option<&str>)
        ensures
            optional_view(r) == self.country_view(),
    {
        match &self.country_code {
            Some(s) => Some(s.as_str()),
            None => None,
        }
    }

    pub fn script_code(&self) -> (r: Option<&str>)
        ensures
            optional_view(r) == self.script_view(),
    {
        match &self.script_code {
            Some(s) => Some(s.as_str()),
            None => None,
        }
    }

    pub fn variant_code(&self) -> (r: Option<&str>)
        ensures
            optional_view(r) == self.variant_view(),
    {
        match &self.variant_code {
            Some(s) => Some(s.as_str()),
            None => None,
        }
    }
}

/// Reusable storage for the records handed to the engine when render
/// outputs are replaced; the record type is the embedder ABI's.
#[derive(Debug)]
pub struct RenderOutputFfiScratch<T> {
    outputs: Vec<T>,
}

impl<T> View for RenderOutputFfiScratch<T> {
    type V = Seq<T>;

    closed spec fn view(&self) -> Seq<T> {
        self.outputs@
    }
}

impl<T> Default for RenderOutputFfiScratch<T> {
    fn default() -> (r: Self)
        ensures
            r@ == Seq::<T>::empty(),
    {
        RenderOutputFfiScratch { outputs: Vec::new() }
    }
}

impl<T: Copy> RenderOutputFfiScratch<T> {
    /// Empty storage with room reserved for `capacity` records.
    pub fn with_capacity(capacity: usize) -> (r: Self)
        ensures
            r@ == Seq::<T>::empty(),
    {
        RenderOutputFfiScratch { outputs: Vec::with_capacity(capacity) }
    }

    /// Replaces the held records with `records`, keeping the allocation.
    pub fn refill(&mut self, records: &[T])
        ensures
            final(self)@ == records@,
    {
        self.outputs.clear();
        let mut i: usize = 0;
        while i < records.len()
            invariant
                i <= records@.len(),
                self.outputs@ == records@.take(i as int),
            decreases records@.len() - i,
        {
            self.outputs.push(records[i]);
            proof {
                assert(records@.take(i + 1) =~= records@.take(i as int).push(records@[i as int]));
            }
            i += 1;
        }
        assert(records@.take(records@.len() as int) =~= records@);
    }

    pub fn records(&self) -> (r: &[T])
        ensures
            r@ == self@,
    {
        self.outputs.as_slice()
    }
}

/// The store the handler supplied, if it names a framebuffer; none makes
/// the engine skip the raster pass.
pub fn usable_backing_store(store: Option<CompositorBackingStore>) -> (r: Option<
    CompositorBackingStore,
>)
    ensures
        r == match store {
            Some(s) => if s.framebuffer != 0 {
                Some(s)
            } else {
                None
            },
            None => None,
        },
{
    match store {
        Some(s) => if s.framebuffer != 0 {
            Some(s)
        } else {
            None
        },
        None => None,
    }
}

/// How many damage rectangles an engine array may be read as: none when
/// the record is too small, the array is null, misaligned or over the cap;
/// an empty array needs no pointer.
pub fn damage_rect_count(struct_size_ok: bool, count: usize, is_null: bool, aligned: bool) -> (r:
    Option<usize>)
    ensures
        !struct_size_ok ==> r is None,
        struct_size_ok && count == 0 ==> r == Some(0usize),
        struct_size_ok && count != 0 ==> (r is Some <==> !is_null && count
            <= MAX_FLUTTER_DAMAGE_RECTS && aligned),
        r matches Some(n) ==> n == count,
{
    if !struct_size_ok {
        return None;
    }
    if count == 0 {
        return Some(0);
    }
    if is_null || count > MAX_FLUTTER_DAMAGE_RECTS || !aligned {
        return None;
    }
    Some(count)
}

/// What the render callback does about the idle marker that closes a
/// raster pass.
#[derive(Clone, Copy, Debug, PartialEq, Eq, Structural)]
pub enum SentinelStep {
    /// A marker is already queued.
    AlreadyQueued,
    /// No engine handle is published yet; nothing is queued.
    NoEngine,
    /// Post the marker to the render thread.
    Post,
}

/// At most one idle marker is queued on the render thread at a time.
#[derive(Debug)]
pub struct RasterSentinel {
    pub pending: bool,
}

impl RasterSentinel {
    pub fn new() -> (r: Self)
        ensures
            !r.pending,
    {
        RasterSentinel { pending: false }
    }

    /// Decides whether to queue a marker for the engine `engine_handle`
    /// (zero while none is published).
    pub fn request(&mut self, engine_handle: usize) -> (r: SentinelStep)
        ensures
            old(self).pending ==> r == SentinelStep::AlreadyQueued && final(self).pending,
            !old(self).pending && engine_handle == 0 ==> r == SentinelStep::NoEngine
                && !final(self).pending,
            !old(self).pending && engine_handle != 0 ==> r == SentinelStep::Post
                && final(self).pending,
    {
        if self.pending {
            return SentinelStep::AlreadyQueued;
        }
        if engine_handle == 0 {
            return SentinelStep::NoEngine;
        }
        self.pending = true;
        SentinelStep::Post
    }

    /// The marker ran, or could not be posted (the caller then reports the
    /// raster idle itself): another may be queued.
    pub fn settle(&mut self)
        ensures
            !final(self).pending,
    {
        self.pending = false;
    }
}

/// The text of a log tag: empty when the engine passed none or one over
/// the cap, else its bytes decoded with replacement.
pub fn log_tag_text(tag: Option<&[u8]>) -> (r: String)
    ensures
        r@ == match tag {
            Some(t) => utf8_lossy(t@),
            None => Seq::<char>::empty(),
        },
{
    match tag {
        Some(t) => lossy_string(t),
        None => String::new(),
    }
}

/// The text of a log message: empty when the engine passed none, a marker
/// when it was over the cap, else its bytes decoded with replacement.
pub fn log_message_text(message: Option<Option<&[u8]>>) -> (r: String)
    ensures
        r@ == match message {
            None => Seq::<char>::empty(),
            Some(None) => "<oversized Flutter log message>"@,
            Some(Some(m)) => utf8_lossy(m@),
        },
{
    match message {
        None => String::new(),
        Some(None) => "<oversized Flutter log message>".to_owned(),
        Some(Some(m)) => lossy_string(m),
    }
}

/// The line an engine log message is written as.
pub fn log_line(tag: &str, message: &str) -> (r: String)
    ensures
        r@ == if tag@.len() == 0 {
            "flutter: "@ + message@
        } else {
            "flutter["@ + tag@ + "]: "@ + message@
        },
{
    let t = str_chars(tag);
    let mut out = if t.len() == 0 {
        str_chars("flutter: ")
    } else {
        let mut out = str_chars("flutter[");
        push_str_chars(&mut out, tag);
        push_str_chars(&mut out, "]: ");
        out
    };
    push_str_chars(&mut out, message);
    string_from_chars(out.as_slice())
}

/// Calls `std::mem::forget`: `owner` is never dropped.
#[verifier::external_body]
fn leak<T>(owner: T) {
    std::mem::forget(owner);
}

/// After a shutdown attempt: on failure the engine may still use what
/// `owner` holds, so it is leaked rather than dropped; the result is handed
/// back unchanged.
pub fn release_or_leak<T, E>(owner: T, result: Result<(), E>) -> (r: Result<(), E>)
    ensures
        r == result,
{
    if result.is_err() {
        leak(owner);
    }
    result
}

} // verus!
