//! Where the UI development tool finds the Flutter SDK, engines, bundles
//! and caches: environment overrides, the installed package and per-user
//! cache directories. Paths are the raw bytes of Unix paths.

use vstd::prelude::*;
use vstd::utf8::encode_utf8;
use crate::ui_tool::{not_absolute_message, require_absolute, ToolError};

verus! {

/// The installed development package.
pub const SYSTEM_ROOT: &'static str = "/usr/lib/denial/ui-development";

pub open spec fn is_absolute(p: Seq<u8>) -> bool {
    p.len() > 0 && p[0] == 0x2fu8
}

/// `Path::join`: an absolute part replaces the base; otherwise the part
/// follows the base after one separator.
pub open spec fn joined(base: Seq<u8>, part: Seq<u8>) -> Seq<u8> {
    if is_absolute(part) || base.len() == 0 {
        part
    } else if base.last() == 0x2fu8 {
        base + part
    } else {
        base + seq![0x2fu8] + part
    }
}

fn append(out: &mut Vec<u8>, bytes: &[u8])
    ensures
        final(out)@ == old(out)@ + bytes@,
{
    let mut i: usize = 0;
    while i < bytes.len()
        invariant
            i <= bytes@.len(),
            out@ == old(out)@ + bytes@.take(i as int),
        decreases bytes@.len() - i,
    {
        out.push(bytes[i]);
        proof {
            assert(bytes@.take(i + 1) =~= bytes@.take(i as int).push(bytes@[i as int]));
        }
        i += 1;
    }
    assert(bytes@.take(bytes@.len() as int) =~= bytes@);
}

pub fn join_path(base: &[u8], part: &[u8]) -> (r: Vec<u8>)
    ensures
        r@ == joined(base@, part@),
{
    let mut out: Vec<u8> = Vec::new();
    if (part.len() > 0 && part[0] == 0x2f) || base.len() == 0 {
        append(&mut out, part);
        return out;
    }
    append(&mut out, base);
    if base[base.len() - 1] != 0x2f {
        out.push(0x2f);
    }
    append(&mut out, part);
    out
}

/// Joins a path with a relative literal.
pub fn join_literal(base: &[u8], part: &str) -> (r: Vec<u8>)
    ensures
        r@ == joined(base@, encode_utf8(part@)),
{
    join_path(base, part.as_bytes())
}

/// A per-user directory: the XDG variable when it is absolute, else
/// `fallback` below an absolute home.
pub open spec fn spec_user_directory(
    xdg: Option<Seq<u8>>,
    home: Option<Seq<u8>>,
    fallback: Seq<char>,
) -> Option<Seq<u8>> {
    match xdg {
        Some(x) if is_absolute(x) => Some(x),
        _ => match home {
            Some(h) if is_absolute(h) => Some(joined(h, encode_utf8(fallback))),
            _ => None,
        },
    }
}

pub open spec fn bytes_option(o: Option<&[u8]>) -> Option<Seq<u8>> {
    match o {
        Some(b) => Some(b@),
        None => None,
    }
}

pub open spec fn vec_option(o: Option<Vec<u8>>) -> Option<Seq<u8>> {
    match o {
        Some(b) => Some(b@),
        None => None,
    }
}

fn absolute(p: &[u8]) -> (r: bool)
    ensures
        r == is_absolute(p@),
{
    p.len() > 0 && p[0] == 0x2f
}

/// The user's cache (`fallback` `.cache`) or configuration (`.config`)
/// directory.
pub fn user_directory(xdg: Option<&[u8]>, home: Option<&[u8]>, fallback: &str) -> (r: Option<
    Vec<u8>,
>)
    ensures
        vec_option(r) == spec_user_directory(bytes_option(xdg), bytes_option(home), fallback@),
{
    if let Some(x) = xdg {
        if absolute(x) {
            return Some(vstd::slice::slice_to_vec(x));
        }
    }
    match home {
        Some(h) => if absolute(h) {
            Some(join_literal(h, fallback))
        } else {
            None
        },
        None => None,
    }
}

/// The VM-service endpoint file in an absolute runtime directory.
pub fn vm_service_path(runtime_dir: Option<&[u8]>) -> (r: Option<Vec<u8>>)
    ensures
        vec_option(r) == match bytes_option(runtime_dir) {
            Some(d) if is_absolute(d) => Some(
                joined(d, encode_utf8("denial/flutter-vm-service.json"@)),
            ),
            _ => None,
        },
{
    match runtime_dir {
        Some(d) => if absolute(d) {
            Some(join_literal(d, "denial/flutter-vm-service.json"))
        } else {
            None
        },
        None => None,
    }
}

/// Non-empty environment overrides of the development paths.
#[derive(Clone, Debug)]
pub struct DevelopmentOverrides {
    pub development_root: Option<Vec<u8>>,
    pub flutter_sdk_root: Option<Vec<u8>>,
    pub debug_engine: Option<Vec<u8>>,
    pub profile_engine: Option<Vec<u8>>,
    pub build_root: Option<Vec<u8>>,
    pub debug_bundle: Option<Vec<u8>>,
    pub profile_bundle: Option<Vec<u8>>,
    pub pub_cache: Option<Vec<u8>>,
}

/// Where everything is.
#[derive(Clone, Debug)]
pub struct DevelopmentPaths {
    pub root: Vec<u8>,
    pub flutter_root: Vec<u8>,
    pub flutter_launcher: Vec<u8>,
    pub flutter_tool_runtime: Vec<u8>,
    pub flutter_tool: Vec<u8>,
    pub engine: Vec<u8>,
    pub profile_engine: Vec<u8>,
    pub icu: Vec<u8>,
    pub build_root: Vec<u8>,
    pub bundle: Vec<u8>,
    pub profile_bundle: Vec<u8>,
    pub pub_cache_seed: Vec<u8>,
    pub pub_cache: Vec<u8>,
}

pub open spec fn or_default(o: Option<Vec<u8>>, default: Seq<u8>) -> Seq<u8> {
    match o {
        Some(v) => v@,
        None => default,
    }
}

pub open spec fn lit(s: Seq<char>) -> Seq<u8> {
    encode_utf8(s)
}

/// The development root: the override or the installed package.
pub open spec fn spec_development_root(o: DevelopmentOverrides) -> Seq<u8> {
    or_default(o.development_root, lit(SYSTEM_ROOT@))
}

pub fn development_root(overrides: &DevelopmentOverrides) -> (r: Vec<u8>)
    ensures
        r@ == spec_development_root(*overrides),
{
    match &overrides.development_root {
        Some(v) => vstd::slice::slice_to_vec(v.as_slice()),
        None => vstd::slice::slice_to_vec(SYSTEM_ROOT.as_bytes()),
    }
}

/// The paths as values.
pub struct PathsModel {
    pub root: Seq<u8>,
    pub flutter_root: Seq<u8>,
    pub engine: Seq<u8>,
    pub profile_engine: Seq<u8>,
    pub icu: Seq<u8>,
    pub build_root: Seq<u8>,
    pub bundle: Seq<u8>,
    pub profile_bundle: Seq<u8>,
    pub pub_cache_seed: Seq<u8>,
    pub pub_cache: Seq<u8>,
}

/// Each path from its override, else from the installed package when the
/// package holds the Flutter tool, else from the user's cache.
pub open spec fn spec_paths(
    cache: Seq<u8>,
    o: DevelopmentOverrides,
    installed: bool,
    packaged_icu_present: bool,
) -> PathsModel {
    let root = spec_development_root(o);
    let flutter_root = or_default(
        o.flutter_sdk_root,
        if installed {
            joined(root, lit("flutter"@))
        } else {
            joined(cache, lit("pc-dependencies/flutter"@))
        },
    );
    let build_root = or_default(o.build_root, joined(cache, lit("ui-development"@)));
    PathsModel {
        root,
        flutter_root,
        engine: or_default(
            o.debug_engine,
            if installed {
                joined(root, lit("lib/libflutter_engine.so"@))
            } else {
                joined(cache, lit("flutter-engine/linux-x64-debug/libflutter_engine.so"@))
            },
        ),
        profile_engine: or_default(
            o.profile_engine,
            if installed {
                joined(root, lit("profile/lib/libflutter_engine.so"@))
            } else {
                joined(cache, lit("flutter-engine/linux-x64-profile/libflutter_engine.so"@))
            },
        ),
        icu: if installed && packaged_icu_present {
            joined(root, lit("data/icudtl.dat"@))
        } else {
            joined(flutter_root, lit("bin/cache/artifacts/engine/linux-x64/icudtl.dat"@))
        },
        build_root,
        bundle: or_default(o.debug_bundle, joined(build_root, lit("debug/bundle"@))),
        profile_bundle: or_default(o.profile_bundle, joined(build_root, lit("profile/bundle"@))),
        pub_cache_seed: joined(root, lit("pub-cache"@)),
        pub_cache: or_default(o.pub_cache, joined(build_root, lit("pub-cache"@))),
    }
}

/// The first path that is not absolute, with its label, in the order
/// checked.
pub open spec fn first_relative(p: PathsModel) -> Option<(Seq<char>, Seq<u8>)> {
    if !is_absolute(p.root) {
        Some(("development root"@, p.root))
    } else if !is_absolute(p.flutter_root) {
        Some(("Flutter SDK"@, p.flutter_root))
    } else if !is_absolute(p.engine) {
        Some(("debug engine"@, p.engine))
    } else if !is_absolute(p.profile_engine) {
        Some(("profile engine"@, p.profile_engine))
    } else if !is_absolute(p.build_root) {
        Some(("build root"@, p.build_root))
    } else if !is_absolute(p.bundle) {
        Some(("debug bundle"@, p.bundle))
    } else if !is_absolute(p.profile_bundle) {
        Some(("profile bundle"@, p.profile_bundle))
    } else if !is_absolute(p.pub_cache_seed) {
        Some(("packaged Pub cache seed"@, p.pub_cache_seed))
    } else if !is_absolute(p.pub_cache) {
        Some(("user Pub cache"@, p.pub_cache))
    } else {
        None
    }
}

fn chosen(o: &Option<Vec<u8>>, default: Vec<u8>) -> (r: Vec<u8>)
    ensures
        r@ == or_default(*o, default@),
{
    match o {
        Some(v) => vstd::slice::slice_to_vec(v.as_slice()),
        None => default,
    }
}

fn check(label: &str, path: &Vec<u8>) -> (r: Result<(), ToolError>)
    ensures
        r is Ok <==> is_absolute(path@),
        r matches Err(e) ==> !e.usage && e.message@ == not_absolute_message(label@, path@),
{
    require_absolute(label, path.as_slice())
}

/// Resolves every development path. `cache_home` is the user's cache
/// directory, `root` the development root, `installed` whether the root
/// holds the Flutter tool and `packaged_icu_present` whether it holds the
/// ICU data.
pub fn resolve_development_paths(
    cache_home: Option<&[u8]>,
    overrides: &DevelopmentOverrides,
    installed: bool,
    packaged_icu_present: bool,
) -> (r: Result<DevelopmentPaths, ToolError>)
    ensures
        cache_home is None ==> (r matches Err(e) && !e.usage && e.message@
            == "HOME or an absolute XDG_CACHE_HOME is required"@),
        cache_home matches Some(c) ==> ({
            let m = spec_paths(
                joined(c@, lit("denial"@)),
                *overrides,
                installed,
                packaged_icu_present,
            );
            match first_relative(m) {
                Some((label, path)) => r matches Err(e) && !e.usage && e.message@
                    == not_absolute_message(label, path),
                None => r matches Ok(p) && {
                    &&& p.root@ == m.root
                    &&& p.flutter_root@ == m.flutter_root
                    &&& p.engine@ == m.engine
                    &&& p.profile_engine@ == m.profile_engine
                    &&& p.icu@ == m.icu
                    &&& p.build_root@ == m.build_root
                    &&& p.bundle@ == m.bundle
                    &&& p.profile_bundle@ == m.profile_bundle
                    &&& p.pub_cache_seed@ == m.pub_cache_seed
                    &&& p.pub_cache@ == m.pub_cache
                    &&& p.flutter_launcher@ == joined(m.flutter_root, lit("bin/flutter"@))
                    &&& p.flutter_tool_runtime@ == joined(
                        m.flutter_root,
                        lit("bin/cache/dart-sdk/bin/dartaotruntime"@),
                    )
                    &&& p.flutter_tool@ == joined(
                        m.flutter_root,
                        lit("bin/cache/flutter_tools.snapshot"@),
                    )
                },
            }
        }),
{
    let cache_base = match cache_home {
        Some(c) => c,
        None => return Err(ToolError::new("HOME or an absolute XDG_CACHE_HOME is required")),
    };
    let cache = join_literal(cache_base, "denial");
    let root = development_root(overrides);
    let flutter_root = chosen(
        &overrides.flutter_sdk_root,
        if installed {
            join_literal(root.as_slice(), "flutter")
        } else {
            join_literal(cache.as_slice(), "pc-dependencies/flutter")
        },
    );
    let engine = chosen(
        &overrides.debug_engine,
        if installed {
            join_literal(root.as_slice(), "lib/libflutter_engine.so")
        } else {
            join_literal(cache.as_slice(), "flutter-engine/linux-x64-debug/libflutter_engine.so")
        },
    );
    let profile_engine = chosen(
        &overrides.profile_engine,
        if installed {
            join_literal(root.as_slice(), "profile/lib/libflutter_engine.so")
        } else {
            join_literal(
                cache.as_slice(),
                "flutter-engine/linux-x64-profile/libflutter_engine.so",
            )
        },
    );
    let icu = if installed && packaged_icu_present {
        join_literal(root.as_slice(), "data/icudtl.dat")
    } else {
        join_literal(flutter_root.as_slice(), "bin/cache/artifacts/engine/linux-x64/icudtl.dat")
    };
    let build_root = chosen(&overrides.build_root, join_literal(cache.as_slice(), "ui-development"));
    let bundle = chosen(&overrides.debug_bundle, join_literal(build_root.as_slice(), "debug/bundle"));
    let profile_bundle = chosen(
        &overrides.profile_bundle,
        join_literal(build_root.as_slice(), "profile/bundle"),
    );
    let pub_cache_seed = join_literal(root.as_slice(), "pub-cache");
    let pub_cache = chosen(&overrides.pub_cache, join_literal(build_root.as_slice(), "pub-cache"));
    match check("development root", &root) {
        Ok(()) => {},
        Err(e) => return Err(e),
    }
    match check("Flutter SDK", &flutter_root) {
        Ok(()) => {},
        Err(e) => return Err(e),
    }
    match check("debug engine", &engine) {
        Ok(()) => {},
        Err(e) => return Err(e),
    }
    match check("profile engine", &profile_engine) {
        Ok(()) => {},
        Err(e) => return Err(e),
    }
    match check("build root", &build_root) {
        Ok(()) => {},
        Err(e) => return Err(e),
    }
    match check("debug bundle", &bundle) {
        Ok(()) => {},
        Err(e) => return Err(e),
    }
    match check("profile bundle", &profile_bundle) {
        Ok(()) => {},
        Err(e) => return Err(e),
    }
    match check("packaged Pub cache seed", &pub_cache_seed) {
        Ok(()) => {},
        Err(e) => return Err(e),
    }
    match check("user Pub cache", &pub_cache) {
        Ok(()) => {},
        Err(e) => return Err(e),
    }
    let flutter_tool_runtime = join_literal(
        flutter_root.as_slice(),
        "bin/cache/dart-sdk/bin/dartaotruntime",
    );
    let flutter_launcher = join_literal(flutter_root.as_slice(), "bin/flutter");
    let flutter_tool = join_literal(flutter_root.as_slice(), "bin/cache/flutter_tools.snapshot");
    Ok(
        DevelopmentPaths {
            root,
            flutter_root,
            flutter_launcher,
            flutter_tool_runtime,
            flutter_tool,
            engine,
            profile_engine,
            icu,
            build_root,
            bundle,
            profile_bundle,
            pub_cache_seed,
            pub_cache,
        },
    )
}

} // verus!
