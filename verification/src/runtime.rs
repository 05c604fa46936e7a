//! Platform-side policy of the Flutter runtime: the queue of engine tasks,
//! vsync timestamps, small channel decoders, the layout of an application
//! bundle and the engine fingerprint.

pub mod locale;
pub mod leases;

use sha2::Digest;
use vstd::prelude::*;
use crate::clipboard::protocol::{read_le64, spec_le64};
use crate::text::{decimal_chars, push_decimal};
use crate::engine::{DartRuntimeMode, EngineProject, RendererBackend, ScheduledTask};

verus! {

/// Longest wait before queued engine tasks are looked at again.
pub const PLATFORM_TASK_MAX_DISPATCH_TIMEOUT_NANOS: u64 = 100000000;

/// The cap placed on the engine's resource cache.
pub const FLUTTER_RESOURCE_CACHE_MAX_BYTES_THRESHOLD: usize = 268435456;

/// An engine task waiting for its target time, with what it holds and its
/// arrival number.
#[derive(Debug)]
pub struct QueuedPlatformTask<P> {
    pub task: ScheduledTask,
    pub permit: P,
    pub order: u64,
}

/// `a` runs before `b`: an earlier target time, or the same time and an
/// earlier arrival.
pub open spec fn runs_before<P>(a: QueuedPlatformTask<P>, b: QueuedPlatformTask<P>) -> bool {
    a.task.target_time_nanos < b.task.target_time_nanos || (a.task.target_time_nanos
        == b.task.target_time_nanos && a.order < b.order)
}

/// Entry `i` is the one that runs first.
pub open spec fn is_next<P>(s: Seq<QueuedPlatformTask<P>>, i: int) -> bool {
    0 <= i < s.len() && forall|j: int| 0 <= j < s.len() ==> !runs_before(#[trigger] s[j], s[i])
}

/// Engine tasks ordered by target time and then by arrival.
pub struct PlatformTaskQueue<P> {
    tasks: Vec<QueuedPlatformTask<P>>,
    next_order: u64,
}

impl<P> View for PlatformTaskQueue<P> {
    type V = Seq<QueuedPlatformTask<P>>;

    closed spec fn view(&self) -> Seq<QueuedPlatformTask<P>> {
        self.tasks@
    }
}

impl<P> PlatformTaskQueue<P> {
    /// Arrival numbers are distinct and below the next one to hand out.
    pub closed spec fn wf(&self) -> bool {
        &&& forall|i: int| 0 <= i < self.tasks@.len() ==> (#[trigger] self.tasks@[i]).order
            < self.next_order
        &&& forall|i: int, j: int|
            0 <= i < self.tasks@.len() && 0 <= j < self.tasks@.len() && i != j ==> (
            #[trigger] self.tasks@[i]).order != (#[trigger] self.tasks@[j]).order
    }

    pub closed spec fn spec_next_order(&self) -> u64 {
        self.next_order
    }

    pub fn new() -> (r: Self)
        ensures
            r.wf(),
            r@ == Seq::<QueuedPlatformTask<P>>::empty(),
            r.spec_next_order() == 0,
    {
        PlatformTaskQueue { tasks: Vec::new(), next_order: 0 }
    }

    pub fn len(&self) -> (r: usize)
        ensures
            r == self@.len(),
    {
        self.tasks.len()
    }

    /// The arrival number the next task gets.
    pub fn next_order(&self) -> (r: u64)
        ensures
            r == self.spec_next_order(),
    {
        self.next_order
    }

    /// Queues a task behind every earlier arrival.
    pub fn push(&mut self, task: ScheduledTask, permit: P)
        requires
            old(self).wf(),
            old(self).spec_next_order() < u64::MAX,
        ensures
            final(self).wf(),
            final(self)@ == old(self)@.push(
                QueuedPlatformTask { task, permit, order: old(self).spec_next_order() },
            ),
            final(self).spec_next_order() == old(self).spec_next_order() + 1,
    {
        let order = self.next_order;
        self.tasks.push(QueuedPlatformTask { task, permit, order });
        self.next_order = order + 1;
    }

    /// The index of the task that runs first.
    fn next_index(&self) -> (r: usize)
        requires
            self.wf(),
            self@.len() > 0,
        ensures
            is_next(self@, r as int),
    {
        let mut best: usize = 0;
        let mut i: usize = 1;
        while i < self.tasks.len()
            invariant
                self.wf(),
                1 <= i <= self.tasks@.len(),
                best < i,
                forall|j: int| 0 <= j < i ==> !runs_before(#[trigger] self.tasks@[j], self.tasks@[best as int]),
            decreases self.tasks@.len() - i,
        {
            let a = self.tasks[i].task.target_time_nanos;
            let b = self.tasks[best].task.target_time_nanos;
            if a < b || (a == b && self.tasks[i].order < self.tasks[best].order) {
                proof {
                    assert forall|j: int| 0 <= j < i + 1 implies !runs_before(
                        #[trigger] self.tasks@[j],
                        self.tasks@[i as int],
                    ) by {
                        if j < i {
                            assert(!runs_before(self.tasks@[j], self.tasks@[best as int]));
                            if j != best {
                                assert(self.tasks@[j].order != self.tasks@[best as int].order);
                            }
                        }
                    }
                }
                best = i;
            }
            i += 1;
        }
        best
    }

    /// Nanoseconds until the first task is due, never more than the
    /// dispatch cap; the cap when nothing is queued.
    pub fn dispatch_timeout(&self, now: u64) -> (r: u64)
        requires
            self.wf(),
        ensures
            self@.len() == 0 ==> r == PLATFORM_TASK_MAX_DISPATCH_TIMEOUT_NANOS,
            forall|i: int|
                is_next(self@, i) ==> r == (if self@[i].task.target_time_nanos > now {
                    if self@[i].task.target_time_nanos - now
                        < PLATFORM_TASK_MAX_DISPATCH_TIMEOUT_NANOS {
                        (self@[i].task.target_time_nanos - now) as u64
                    } else {
                        PLATFORM_TASK_MAX_DISPATCH_TIMEOUT_NANOS
                    }
                } else {
                    0
                }),
    {
        if self.tasks.len() == 0 {
            return PLATFORM_TASK_MAX_DISPATCH_TIMEOUT_NANOS;
        }
        let i = self.next_index();
        proof {
            assert forall|k: int| is_next(self@, k) implies k == i by {
                lemma_next_unique(self, k, i as int);
            }
        }
        let wait = self.tasks[i].task.target_time_nanos.saturating_sub(now);
        if wait < PLATFORM_TASK_MAX_DISPATCH_TIMEOUT_NANOS {
            wait
        } else {
            PLATFORM_TASK_MAX_DISPATCH_TIMEOUT_NANOS
        }
    }

    /// Removes and returns the first task when its target time has come.
    pub fn take_next_due(&mut self, now: u64) -> (r: Option<QueuedPlatformTask<P>>)
        requires
            old(self).wf(),
        ensures
            final(self).wf(),
            final(self).spec_next_order() == old(self).spec_next_order(),
            r is None ==> final(self)@ == old(self)@ && forall|i: int|
                is_next(old(self)@, i) ==> old(self)@[i].task.target_time_nanos > now,
            r matches Some(t) ==> exists|i: int|
                is_next(old(self)@, i) && t == old(self)@[i] && final(self)@ == old(self)@.remove(
                    i,
                ) && t.task.target_time_nanos <= now,
            forall|i: int|
                is_next(old(self)@, i) && old(self)@[i].task.target_time_nanos <= now ==> r is Some,
    {
        if self.tasks.len() == 0 {
            return None;
        }
        let i = self.next_index();
        proof {
            assert forall|k: int| is_next(old(self)@, k) implies k == i by {
                lemma_next_unique(old(self), k, i as int);
            }
        }
        if self.tasks[i].task.target_time_nanos > now {
            return None;
        }
        let ghost before = self.tasks@;
        let t = self.tasks.remove(i);
        proof {
            assert forall|a: int, b: int|
                0 <= a < self.tasks@.len() && 0 <= b < self.tasks@.len() && a != b implies (
            #[trigger] self.tasks@[a]).order != (#[trigger] self.tasks@[b]).order by {
                let a2 = if a < i { a } else { a + 1 };
                let b2 = if b < i { b } else { b + 1 };
                assert(self.tasks@[a] == before[a2]);
                assert(self.tasks@[b] == before[b2]);
            }
            assert forall|a: int| 0 <= a < self.tasks@.len() implies (#[trigger] self.tasks@[
                a]).order < self.next_order by {
                let a2 = if a < i { a } else { a + 1 };
                assert(self.tasks@[a] == before[a2]);
            }
        }
        Some(t)
    }
}

/// Tasks run earliest deadline first, and tasks with the same deadline in
/// the order they arrived: a task is never next while another queued task
/// runs before it.
pub proof fn law_tasks_run_by_deadline_then_arrival<P>(q: &PlatformTaskQueue<P>, i: int, j: int)
    requires
        q.wf(),
        0 <= i < q@.len(),
        0 <= j < q@.len(),
        q@[i].task.target_time_nanos < q@[j].task.target_time_nanos || (
        q@[i].task.target_time_nanos == q@[j].task.target_time_nanos && q@[i].order < q@[j].order),
    ensures
        !is_next(q@, j),
{
    assert(runs_before(q@[i], q@[j]));
}

/// At most one entry runs first.
proof fn lemma_next_unique<P>(q: &PlatformTaskQueue<P>, a: int, b: int)
    requires
        q.wf(),
        is_next(q@, a),
        is_next(q@, b),
    ensures
        a == b,
{
    if a != b {
        assert(!runs_before(q@[a], q@[b]));
        assert(!runs_before(q@[b], q@[a]));
        assert(q@[a].order != q@[b].order);
    }
}

/// Frame start and target for a vsync observed `observation_delay` after
/// the frame began, targeting `target_after_deadline` later; saturating.
pub fn timeline_vsync_timestamps(
    engine_now_nanos: u64,
    observation_delay_nanos: u128,
    target_after_deadline_nanos: u128,
) -> (r: (u64, u64))
    ensures
        ({
            let delay: int = if observation_delay_nanos > u64::MAX {
                u64::MAX as int
            } else {
                observation_delay_nanos as int
            };
            let after: int = if target_after_deadline_nanos > u64::MAX {
                u64::MAX as int
            } else {
                target_after_deadline_nanos as int
            };
            let start: int = if engine_now_nanos >= delay {
                engine_now_nanos - delay
            } else {
                0
            };
            &&& r.0 == start
            &&& r.1 == if start + after > u64::MAX {
                u64::MAX as int
            } else {
                start + after
            }
        }),
{
    let delay: u64 = if observation_delay_nanos > u64::MAX as u128 {
        u64::MAX
    } else {
        observation_delay_nanos as u64
    };
    let after: u64 = if target_after_deadline_nanos > u64::MAX as u128 {
        u64::MAX
    } else {
        target_after_deadline_nanos as u64
    };
    let start = engine_now_nanos.saturating_sub(delay);
    (start, start.saturating_add(after))
}

/// A positive identifier sent as exactly eight little-endian bytes.
pub open spec fn spec_positive_id(d: Seq<u8>) -> Option<u64> {
    if d.len() == 8 && spec_le64(d, 0) > 0 {
        Some(spec_le64(d, 0) as u64)
    } else {
        None
    }
}

fn positive_id(data: &[u8]) -> (r: Option<u64>)
    ensures
        r == spec_positive_id(data@),
{
    if data.len() != 8 {
        return None;
    }
    let v = read_le64(data, 0);
    if v > 0 {
        Some(v)
    } else {
        None
    }
}

/// The window whose close animation finished.
pub fn decode_window_close_complete(data: &[u8]) -> (r: Option<u64>)
    ensures
        r == spec_positive_id(data@),
{
    positive_id(data)
}

/// The cursor epoch that was presented.
pub fn decode_cursor_presented(data: &[u8]) -> (r: Option<u64>)
    ensures
        r == spec_positive_id(data@),
{
    positive_id(data)
}

/// What was found in an application bundle: the engine library and the
/// application library (each the first candidate that is a file), whether
/// the JIT kernel, the assets and the ICU data are present, and their paths.
#[derive(Clone, Debug)]
pub struct BundleLayout {
    pub engine_library: Option<String>,
    pub app_library: Option<String>,
    pub kernel_blob: String,
    pub kernel_blob_present: bool,
    pub assets: String,
    pub assets_present: bool,
    pub icu_data: String,
    pub icu_data_present: bool,
}

/// What is missing from a bundle, with the path that was looked for where
/// there is one.
#[derive(Clone, Debug, PartialEq, Eq)]
pub enum BundleError {
    MissingEngineLibrary,
    MissingAppLibrary,
    MissingKernel(String),
    MissingAssets(String),
    MissingIcuData(String),
}

/// The project of a bundle, or the first thing missing from it: the engine
/// library, then the application library for AOT or the kernel for JIT,
/// then the assets, then the ICU data.
pub open spec fn spec_project_from_bundle(
    layout: BundleLayout,
    runtime: DartRuntimeMode,
    renderer_backend: RendererBackend,
) -> Result<EngineProject, BundleError> {
    if layout.engine_library is None {
        Err(BundleError::MissingEngineLibrary)
    } else if runtime != DartRuntimeMode::Jit && layout.app_library is None {
        Err(BundleError::MissingAppLibrary)
    } else if runtime == DartRuntimeMode::Jit && !layout.kernel_blob_present {
        Err(BundleError::MissingKernel(layout.kernel_blob))
    } else if !layout.assets_present {
        Err(BundleError::MissingAssets(layout.assets))
    } else if !layout.icu_data_present {
        Err(BundleError::MissingIcuData(layout.icu_data))
    } else {
        Ok(
            EngineProject {
                engine_library: layout.engine_library.unwrap(),
                assets: layout.assets,
                icu_data: layout.icu_data,
                runtime,
                aot_library: if runtime == DartRuntimeMode::Jit {
                    None
                } else {
                    layout.app_library
                },
                renderer_backend,
                resource_cache_max_bytes_threshold: FLUTTER_RESOURCE_CACHE_MAX_BYTES_THRESHOLD,
            },
        )
    }
}

pub fn project_from_bundle(
    layout: BundleLayout,
    runtime: DartRuntimeMode,
    renderer_backend: RendererBackend,
) -> (r: Result<EngineProject, BundleError>)
    ensures
        r == spec_project_from_bundle(layout, runtime, renderer_backend),
{
    let BundleLayout {
        engine_library,
        app_library,
        kernel_blob,
        kernel_blob_present,
        assets,
        assets_present,
        icu_data,
        icu_data_present,
    } = layout;
    let engine_library = match engine_library {
        Some(path) => path,
        None => return Err(BundleError::MissingEngineLibrary),
    };
    let aot_library = match runtime {
        DartRuntimeMode::Jit => {
            if !kernel_blob_present {
                return Err(BundleError::MissingKernel(kernel_blob));
            }
            None
        },
        _ => match app_library {
            Some(path) => Some(path),
            None => return Err(BundleError::MissingAppLibrary),
        },
    };
    if !assets_present {
        return Err(BundleError::MissingAssets(assets));
    }
    if !icu_data_present {
        return Err(BundleError::MissingIcuData(icu_data));
    }
    Ok(
        EngineProject {
            engine_library,
            assets,
            icu_data,
            runtime,
            aot_library,
            renderer_backend,
            resource_cache_max_bytes_threshold: FLUTTER_RESOURCE_CACHE_MAX_BYTES_THRESHOLD,
        },
    )
}

/// The SHA-256 digest of some bytes.
pub uninterp spec fn sha256_digest(data: Seq<u8>) -> Seq<u8>;

/// Calls `sha2::Sha256::digest`: the SHA-256 digest of `data`.
#[verifier::external_body]
fn sha256(data: &[u8]) -> (r: [u8; 32])
    ensures
        r@ == sha256_digest(data@),
{
    sha2::Sha256::digest(data).into()
}

/// The fingerprint of an engine library: the SHA-256 digest of its bytes.
pub fn engine_fingerprint(engine_library: &[u8]) -> (r: [u8; 32])
    ensures
        r@ == sha256_digest(engine_library@),
{
    sha256(engine_library)
}

/// How `Display` writes a signed integer.
pub open spec fn signed_decimal(n: int) -> Seq<char> {
    if n < 0 {
        seq!['-'] + decimal_chars((-n) as nat)
    } else {
        decimal_chars(n as nat)
    }
}

fn push_signed(n: i32, out: &mut Vec<char>)
    ensures
        final(out)@ == old(out)@ + signed_decimal(n as int),
{
    if n < 0 {
        out.push('-');
        let magnitude: u64 = (-(n as i64)) as u64;
        push_decimal(magnitude, out);
        assert(final(out)@ =~= old(out)@ + signed_decimal(n as int));
    } else {
        push_decimal(n as u64, out);
    }
}

/// The flutter/keyevent message for one key, in the GLFW key map: key code
/// (also the scan code), modifiers, down or up, and the Unicode scalar
/// value when there is one.
pub open spec fn key_event_text(keycode: i32, pressed: bool, modifiers: u32, unicode: u32) -> Seq<
    char,
> {
    let head = "{\"keyCode\":"@ + signed_decimal(keycode as int)
        + ",\"keymap\":\"linux\",\"toolkit\":\"glfw\",\"scanCode\":"@ + signed_decimal(
        keycode as int,
    ) + ",\"modifiers\":"@ + decimal_chars(modifiers as nat) + ",\"type\":\""@ + (if pressed {
        "keydown"@
    } else {
        "keyup"@
    }) + "\""@;
    if unicode == 0 {
        head + "}"@
    } else {
        head + ",\"unicodeScalarValues\":"@ + decimal_chars(unicode as nat) + "}"@
    }
}

/// Writes the key-event message into `output`, replacing what it held.
pub fn encode_key_event(keycode: i32, pressed: bool, modifiers: u32, unicode: u32, output: &mut Vec<
    u8,
>)
    ensures
        final(output)@ == vstd::utf8::encode_utf8(key_event_text(keycode, pressed, modifiers, unicode)),
{
    let mut text: Vec<char> = Vec::new();
    crate::text::push_str_chars(&mut text, "{\"keyCode\":");
    push_signed(keycode, &mut text);
    crate::text::push_str_chars(
        &mut text,
        ",\"keymap\":\"linux\",\"toolkit\":\"glfw\",\"scanCode\":",
    );
    push_signed(keycode, &mut text);
    crate::text::push_str_chars(&mut text, ",\"modifiers\":");
    push_decimal(modifiers as u64, &mut text);
    crate::text::push_str_chars(&mut text, ",\"type\":\"");
    crate::text::push_str_chars(&mut text, if pressed {
        "keydown"
    } else {
        "keyup"
    });
    crate::text::push_str_chars(&mut text, "\"");
    if unicode != 0 {
        crate::text::push_str_chars(&mut text, ",\"unicodeScalarValues\":");
        push_decimal(unicode as u64, &mut text);
    }
    crate::text::push_str_chars(&mut text, "}");
    let encoded = crate::text::string_from_chars(text.as_slice());
    output.clear();
    let bytes = encoded.as_str().as_bytes();
    let mut i: usize = 0;
    while i < bytes.len()
        invariant
            i <= bytes@.len(),
            output@ == bytes@.take(i as int),
        decreases bytes@.len() - i,
    {
        output.push(bytes[i]);
        proof {
            assert(bytes@.take(i + 1) =~= bytes@.take(i as int).push(bytes@[i as int]));
        }
        i += 1;
    }
    assert(bytes@.take(bytes@.len() as int) =~= bytes@);
    assert(text@ =~= key_event_text(keycode, pressed, modifiers, unicode));
}

/// An identifier message is accepted exactly when it is eight bytes whose
/// little-endian value is not zero, and it gives that value.
pub proof fn law_identifier_messages(d: Seq<u8>)
    ensures
        d.len() != 8 ==> spec_positive_id(d) is None,
        d.len() == 8 ==> {
            let v: int = d[0] + d[1] * 0x100 + d[2] * 0x10000 + d[3] * 0x1000000 + d[4]
                * 0x100000000 + d[5] * 0x10000000000 + d[6] * 0x1000000000000 + d[7]
                * 0x100000000000000;
            &&& v == 0 ==> spec_positive_id(d) is None
            &&& v != 0 ==> spec_positive_id(d) == Some(v as u64)
        },
{
}

/// A bundle gives a project exactly when it has the engine library, the
/// code its runtime mode runs (the application library ahead of time, the
/// kernel blob for JIT), the assets and the ICU data. The project then
/// uses those paths, and only ahead-of-time modes carry the application
/// library.
pub proof fn law_bundle_needs_every_part(
    layout: BundleLayout,
    runtime: DartRuntimeMode,
    renderer_backend: RendererBackend,
)
    ensures
        spec_project_from_bundle(layout, runtime, renderer_backend) is Ok <==> (
        layout.engine_library is Some && (if runtime == DartRuntimeMode::Jit {
            layout.kernel_blob_present
        } else {
            layout.app_library is Some
        }) && layout.assets_present && layout.icu_data_present),
        spec_project_from_bundle(layout, runtime, renderer_backend) matches Ok(p) ==> {
            &&& Some(p.engine_library) == layout.engine_library
            &&& p.assets == layout.assets
            &&& p.icu_data == layout.icu_data
            &&& p.runtime == runtime
            &&& p.renderer_backend == renderer_backend
            &&& (runtime == DartRuntimeMode::Jit <==> p.aot_library is None)
            &&& runtime != DartRuntimeMode::Jit ==> p.aot_library == layout.app_library
        },
{
}

} // verus!
