//! The records that the app shows and stores.
use vstd::prelude::*;

verus! {

/// Whether the game runs, and whether it was started with the debug flag.
pub struct ProcessStatusPayload {
    pub is_running: bool,
    pub has_debug_flag: bool,
}

/// One entry of the upload history shown to the player.
pub struct TelemetryPayload {
    pub file_name: String,
    pub file_hash: String,
    pub status: String,
    pub verified: bool,
    pub has_debug_flag: bool,
    pub timestamp: String,
}

/// A telemetry entry as values: its texts as character sequences.
pub struct TelemetryRecord {
    pub file_name: Seq<char>,
    pub file_hash: Seq<char>,
    pub status: Seq<char>,
    pub verified: bool,
    pub has_debug_flag: bool,
    pub timestamp: Seq<char>,
}

impl View for TelemetryPayload {
    type V = TelemetryRecord;

    open spec fn view(&self) -> TelemetryRecord {
        TelemetryRecord {
            file_name: self.file_name@,
            file_hash: self.file_hash@,
            status: self.status@,
            verified: self.verified,
            has_debug_flag: self.has_debug_flag,
            timestamp: self.timestamp@,
        }
    }
}

/// A copy of a telemetry entry.
pub fn copy_telemetry(p: &TelemetryPayload) -> (r: TelemetryPayload)
    ensures
        r@ == p@,
{
    TelemetryPayload {
        file_name: p.file_name.clone(),
        file_hash: p.file_hash.clone(),
        status: p.status.clone(),
        verified: p.verified,
        has_debug_flag: p.has_debug_flag,
        timestamp: p.timestamp.clone(),
    }
}

/// The answer to an update check.
pub struct UpdateCheckResponse {
    pub available: bool,
    pub version: Option<String>,
    pub current_version: String,
    pub body: Option<String>,
}

/// The answer when the updater found a newer release.
pub fn update_found_response(current_version: String, version: String, body: Option<String>) -> (r:
    UpdateCheckResponse)
    ensures
        r.available,
        r.version == Some(version),
        r.current_version == current_version,
        r.body == body,
{
    UpdateCheckResponse { available: true, version: Some(version), current_version, body }
}

/// The answer when the running release is the newest.
pub fn no_update_response(current_version: String) -> (r: UpdateCheckResponse)
    ensures
        !r.available,
        r.version is None,
        r.current_version == current_version,
        r.body is None,
{
    UpdateCheckResponse { available: false, version: None, current_version, body: None }
}

/// The error when the update check itself failed.
pub fn update_check_failed_message(error_text: &str) -> (r: String)
    ensures
        r@ == "Update check failed: "@ + error_text@,
{
    let mut s = crate::text::string_of("Update check failed: ");
    crate::text::append_str(&mut s, error_text);
    s
}

/// The error when no updater is available.
pub fn updater_unavailable_message(error_text: &str) -> (r: String)
    ensures
        r@ == "Updater unavailable: "@ + error_text@,
{
    let mut s = crate::text::string_of("Updater unavailable: ");
    crate::text::append_str(&mut s, error_text);
    s
}

} // verus!
