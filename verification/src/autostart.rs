//! Start with Windows and always run elevated: which registry values are
//! written, and what the registry's status codes mean.
use vstd::prelude::*;

use crate::text::{push_str, to_string};

verus! {

/// The name of the value under the Run key.
pub const APP_NAME: &'static str = "KeyTweak";
/// The key (under the current user) whose values Windows starts at logon.
pub const RUN_KEY_PATH: &'static str = "Software\\Microsoft\\Windows\\CurrentVersion\\Run";
/// The key (under the current user) that holds compatibility layers per
/// executable.
pub const LAYERS_KEY_PATH: &'static str = "Software\\Microsoft\\Windows NT\\CurrentVersion\\AppCompatFlags\\Layers";
/// The layer that makes Windows ask for elevation on every launch.
pub const RUN_AS_ADMIN_LAYER: &'static str = "~ RUNASADMIN";

/// Why start-up settings could not be read or changed.
#[derive(Debug, Clone, PartialEq, Eq)]
pub enum AutoStartError {
    /// The executable's path could not be found; the system's message.
    ExecutablePath(String),
    /// The registry refused, with this status code.
    Registry(i32),
}

/// A change to the registry.
#[derive(Debug, Clone, PartialEq, Eq)]
pub enum RegistryChange {
    /// Write `command` as the `APP_NAME` value of the Run key.
    SetRunEntry { command: String },
    /// Remove the `APP_NAME` value of the Run key, if there is one.
    DeleteRunEntry,
    /// Write `layer` as the value named `exe_path` of the layers key.
    SetLayer { exe_path: String, layer: String },
    /// Remove the value named `exe_path` of the layers key, if there is one.
    DeleteLayer { exe_path: String },
}

/// The status codes of a missing file or path.
pub open spec fn not_found_spec(code: u32) -> bool {
    code == 2 || code == 3
}

pub fn is_not_found(code: u32) -> (res: bool)
    ensures
        res == not_found_spec(code),
{
    code == 2 || code == 3
}

/// The error for a registry status.
pub fn registry_error(status: u32) -> (res: AutoStartError)
    ensures
        res == AutoStartError::Registry(status as i32),
{
    AutoStartError::Registry(status as i32)
}

/// Opening a key: `Ok(true)` when it opened, `Ok(false)` when it does not
/// exist, else the error.
pub fn open_key_result(status: u32) -> (res: Result<bool, AutoStartError>)
    ensures
        not_found_spec(status) ==> res == Ok::<bool, AutoStartError>(false),
        status == 0 ==> res == Ok::<bool, AutoStartError>(true),
        !not_found_spec(status) && status != 0 ==> res == Err::<bool, AutoStartError>(
            AutoStartError::Registry(status as i32),
        ),
{
    if is_not_found(status) {
        Ok(false)
    } else if status != 0 {
        Err(registry_error(status))
    } else {
        Ok(true)
    }
}

/// Creating a key or writing a value: success only on status 0.
pub fn write_result(status: u32) -> (res: Result<(), AutoStartError>)
    ensures
        status == 0 ==> res == Ok::<(), AutoStartError>(()),
        status != 0 ==> res == Err::<(), AutoStartError>(AutoStartError::Registry(status as i32)),
{
    if status == 0 {
        Ok(())
    } else {
        Err(registry_error(status))
    }
}

/// Deleting a value: a value that is not there counts as deleted.
pub fn delete_result(status: u32) -> (res: Result<(), AutoStartError>)
    ensures
        (status == 0 || not_found_spec(status)) ==> res == Ok::<(), AutoStartError>(()),
        !(status == 0 || not_found_spec(status)) ==> res == Err::<(), AutoStartError>(
            AutoStartError::Registry(status as i32),
        ),
{
    if status == 0 || is_not_found(status) {
        Ok(())
    } else {
        Err(registry_error(status))
    }
}

/// Querying a value: whether it exists, or the error.
pub fn query_result(status: u32) -> (res: Result<bool, AutoStartError>)
    ensures
        status == 0 ==> res == Ok::<bool, AutoStartError>(true),
        not_found_spec(status) ==> res == Ok::<bool, AutoStartError>(false),
        status != 0 && !not_found_spec(status) ==> res == Err::<bool, AutoStartError>(
            AutoStartError::Registry(status as i32),
        ),
{
    if status == 0 {
        Ok(true)
    } else if is_not_found(status) {
        Ok(false)
    } else {
        Err(registry_error(status))
    }
}

/// The command written to the Run key: the executable's path in quotes.
pub open spec fn run_command_spec(exe_path: Seq<char>) -> Seq<char> {
    seq!['"'] + exe_path + seq!['"']
}

pub fn run_entry_command(exe_path: &str) -> (res: String)
    ensures
        res@ == run_command_spec(exe_path@),
{
    let mut s = to_string("\"");
    push_str(&mut s, exe_path);
    push_str(&mut s, "\"");
    proof {
        reveal_strlit("\"");
        assert(s@ =~= run_command_spec(exe_path@));
    }
    s
}

/// Turns start with Windows on (writing the executable at `exe_path`) or
/// off (removing the entry, whatever `exe_path` is).
pub fn set_auto_start(enabled: bool, exe_path: Result<String, AutoStartError>) -> (res: Result<
    RegistryChange,
    AutoStartError,
>)
    ensures
        !enabled ==> res == Ok::<RegistryChange, AutoStartError>(RegistryChange::DeleteRunEntry),
        enabled && exe_path is Err ==> res == Err::<RegistryChange, AutoStartError>(exe_path->Err_0),
        enabled && exe_path is Ok ==> (res is Ok && res->Ok_0 is SetRunEntry
            && res->Ok_0->SetRunEntry_command@ == run_command_spec(exe_path->Ok_0@)),
{
    if !enabled {
        return Ok(RegistryChange::DeleteRunEntry);
    }
    match exe_path {
        Err(e) => Err(e),
        Ok(p) => Ok(RegistryChange::SetRunEntry { command: run_entry_command(p.as_str()) }),
    }
}

/// Whether start with Windows is on, from the status of opening the Run key
/// and (when it opened) of querying the entry.
pub fn is_auto_start(open_status: u32, query_status: u32) -> (res: Result<bool, AutoStartError>)
    ensures
        not_found_spec(open_status) ==> res == Ok::<bool, AutoStartError>(false),
        !not_found_spec(open_status) && open_status != 0 ==> res == Err::<bool, AutoStartError>(
            AutoStartError::Registry(open_status as i32),
        ),
        open_status == 0 ==> res == query_result_spec(query_status),
{
    match open_key_result(open_status) {
        Err(e) => Err(e),
        Ok(false) => Ok(false),
        Ok(true) => query_result(query_status),
    }
}

pub open spec fn query_result_spec(status: u32) -> Result<bool, AutoStartError> {
    if status == 0 {
        Ok(true)
    } else if not_found_spec(status) {
        Ok(false)
    } else {
        Err(AutoStartError::Registry(status as i32))
    }
}

/// Marks the executable at `exe_path` to always run elevated, or removes
/// the mark; without the path, its error.
pub fn set_run_as_admin(enabled: bool, exe_path: Result<String, AutoStartError>) -> (res: Result<
    RegistryChange,
    AutoStartError,
>)
    ensures
        exe_path is Err ==> res == Err::<RegistryChange, AutoStartError>(exe_path->Err_0),
        exe_path is Ok && enabled ==> (res is Ok && res->Ok_0 is SetLayer
            && res->Ok_0->SetLayer_exe_path@ == exe_path->Ok_0@
            && res->Ok_0->SetLayer_layer@ == RUN_AS_ADMIN_LAYER@),
        exe_path is Ok && !enabled ==> (res is Ok && res->Ok_0 is DeleteLayer
            && res->Ok_0->DeleteLayer_exe_path@ == exe_path->Ok_0@),
{
    match exe_path {
        Err(e) => Err(e),
        Ok(p) => if enabled {
            Ok(RegistryChange::SetLayer { exe_path: p, layer: to_string(RUN_AS_ADMIN_LAYER) })
        } else {
            Ok(RegistryChange::DeleteLayer { exe_path: p })
        },
    }
}

} // verus!
