//! What the runtime's functions give where there is no such runtime.
use crate::art::{says, ArtError, FieldDesc, MethodDesc};
use vstd::prelude::*;
use vstd::string::*;

verus! {

/// What a hooked method as it was gives: nothing outside of a hook.
pub fn js_call_original(_key: &str, _x: i32) -> (r: Option<i32>)
    ensures
        r is None,
{
    None
}

pub fn show_android_toast(_message: &str) -> (r: Result<(), ArtError>)
    ensures
        says(r, "android toast only available on Android targets"@),
{
    Err(ArtError::Msg("android toast only available on Android targets".to_owned()))
}

pub fn android_version() -> (r: Result<String, ArtError>)
    ensures
        r matches Ok(s) && s@ == "host"@,
{
    Ok("host".to_owned())
}

pub fn android_sdk_int() -> (r: Result<u32, ArtError>)
    ensures
        r == Ok::<u32, ArtError>(0),
{
    Ok(0)
}

/// The level of the system; zero where it is not known.
pub fn android_sdk_int_or_0() -> (n: u32)
    ensures
        n == 0,
{
    match android_sdk_int() {
        Ok(n) => n,
        Err(_) => 0,
    }
}

pub fn is_main_thread() -> (r: Result<bool, ArtError>)
    ensures
        r == Ok::<bool, ArtError>(false),
{
    Ok(false)
}

pub fn enumerate_loaded_classes() -> (r: Result<Vec<String>, ArtError>)
    ensures
        r matches Ok(v) && v@.len() == 0,
{
    Ok(Vec::new())
}

pub fn enumerate_class_loaders() -> (r: Result<Vec<String>, ArtError>)
    ensures
        r matches Ok(v) && v@.len() == 0,
{
    Ok(Vec::new())
}

pub fn enumerate_class_methods(_class_name: &str) -> (r: Result<Vec<MethodDesc>, ArtError>)
    ensures
        r matches Ok(v) && v@.len() == 0,
{
    Ok(Vec::new())
}

pub fn enumerate_class_fields(_class_name: &str) -> (r: Result<Vec<FieldDesc>, ArtError>)
    ensures
        r matches Ok(v) && v@.len() == 0,
{
    Ok(Vec::new())
}

pub fn read_static_field_json(_class_name: &str, _field_name: &str) -> (r: Result<String, ArtError>)
    ensures
        r matches Ok(s) && s@ == "null"@,
{
    Ok("null".to_owned())
}

pub fn dump_app_storage_json() -> (r: Result<String, ArtError>)
    ensures
        r matches Ok(s) && s@ == "{}"@,
{
    Ok("{}".to_owned())
}

pub fn schedule_on_main(_token: u64) -> (r: Result<(), ArtError>)
    ensures
        says(r, "schedule_on_main: Android only"@),
{
    Err(ArtError::Msg("schedule_on_main: Android only".to_owned()))
}

pub fn next_main_token() -> (n: u64)
    ensures
        n == 0,
{
    0
}

pub fn start_android_api_trace(_cfg: crate::api_trace::AndroidApiTraceConfig) -> (r: Result<
    u32,
    ArtError,
>)
    ensures
        says(r, "android API trace only available on Android targets"@),
{
    Err(ArtError::Msg("android API trace only available on Android targets".to_owned()))
}

} // verus!
