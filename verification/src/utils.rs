//! Where the files of the sessions go.
use vstd::prelude::*;

verus! {

/// The directory under the runtime directory that holds the sessions' files.
pub const SOCKET_DIR_NAME: &'static str = "shmon";

/// A place for the files of running programs.
#[derive(Debug, Clone, Copy, PartialEq, Eq, Structural)]
pub enum RuntimeRoot {
    /// The user's runtime directory.
    Runtime,
    /// The user's cache directory.
    Cache,
    /// The directory for temporary files.
    Temp,
}

/// No place was found.
#[derive(Debug, Clone, Copy, PartialEq, Eq, Structural)]
pub struct NoRuntimeDir;

impl NoRuntimeDir {
    /// The error as a human-readable message.
    pub fn message(&self) -> (text: String)
        ensures
            text@ == "Could not determine runtime directory (XDG_RUNTIME_DIR or /tmp)"@,
    {
        "Could not determine runtime directory (XDG_RUNTIME_DIR or /tmp)".to_owned()
    }
}

/// Tells whether a place is known and there. `Some` says that it is known, and
/// whether it exists.
pub open spec fn is_usable(place: Option<bool>) -> bool {
    place == Some(true)
}

fn usable(place: Option<bool>) -> (r: bool)
    ensures
        r == is_usable(place),
{
    match place {
        Some(exists) => exists,
        None => false,
    }
}

/// Picks the first place that is known and exists: the runtime directory, then
/// the cache directory, then the one for temporary files.
pub fn pick_runtime_root(
    runtime: Option<bool>,
    cache: Option<bool>,
    temp: Option<bool>,
) -> (r: Result<RuntimeRoot, NoRuntimeDir>)
    ensures
        r == (if is_usable(runtime) {
            Ok::<RuntimeRoot, NoRuntimeDir>(RuntimeRoot::Runtime)
        } else if is_usable(cache) {
            Ok(RuntimeRoot::Cache)
        } else if is_usable(temp) {
            Ok(RuntimeRoot::Temp)
        } else {
            Err(NoRuntimeDir)
        }),
{
    if usable(runtime) {
        Ok(RuntimeRoot::Runtime)
    } else if usable(cache) {
        Ok(RuntimeRoot::Cache)
    } else if usable(temp) {
        Ok(RuntimeRoot::Temp)
    } else {
        Err(NoRuntimeDir)
    }
}

/// The place that is picked is known and exists, no place before it does, and
/// none is picked only if none exists.
pub proof fn law_first_usable_place_is_picked(
    runtime: Option<bool>,
    cache: Option<bool>,
    temp: Option<bool>,
    r: Result<RuntimeRoot, NoRuntimeDir>,
)
    requires
        call_ensures(pick_runtime_root, (runtime, cache, temp), r),
    ensures
        r == Ok::<RuntimeRoot, NoRuntimeDir>(RuntimeRoot::Runtime) <==> runtime is Some
            && runtime->0,
        r == Ok::<RuntimeRoot, NoRuntimeDir>(RuntimeRoot::Cache) <==> !(runtime is Some
            && runtime->0) && cache is Some && cache->0,
        r == Ok::<RuntimeRoot, NoRuntimeDir>(RuntimeRoot::Temp) <==> !(runtime is Some
            && runtime->0) && !(cache is Some && cache->0) && temp is Some && temp->0,
        r is Err <==> !(runtime is Some && runtime->0) && !(cache is Some && cache->0) && !(temp
            is Some && temp->0),
{
}

} // verus!
