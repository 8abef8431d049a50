//! The rules of the save-folder watcher: which session ids, companion keys and
//! folders are accepted, how the server's answers are read, which files count
//! as saves, and the texts that the watcher shows and reports.
use vstd::prelude::*;
use vstd::string::StringSliceAdditionalSpecFns;
use crate::models::TelemetryPayload;
use crate::text::{
    ascii_lower, append_chars, append_range, append_str, chars_of, opt_str_view, contains_char, contains_chars, contains_seq, ends_with_chars,
    ends_with_seq, lower_chars, lower_seq, starts_with_chars, starts_with_seq,
    strip_trailing_slashes, string_of, trim_chars, trim_seq,
};
use vstd::utf8::{
    decode_utf8, encode_utf8_decode_utf8, encode_utf8_valid_utf8, is_char_boundary,
    is_char_boundary_iff_not_is_continuation_byte,
};

verus! {

broadcast use vstd::string::group_string_axioms;

pub open spec fn is_ascii_hex_byte(b: u8) -> bool {
    (48 <= b <= 57) || (65 <= b <= 70) || (97 <= b <= 102)
}

pub open spec fn is_uuid_dash_position(i: int) -> bool {
    i == 8 || i == 13 || i == 18 || i == 23
}

/// The 36-byte textual form of a UUID: hyphens at bytes 8, 13, 18 and 23,
/// hexadecimal digits (either case) everywhere else.
pub open spec fn is_uuid_text(bytes: Seq<u8>) -> bool {
    &&& bytes.len() == 36
    &&& forall|i: int|
        0 <= i < 36 ==> if is_uuid_dash_position(i) {
            #[trigger] bytes[i] == 45
        } else {
            is_ascii_hex_byte(bytes[i])
        }
}

pub fn is_valid_uuid_format(s: &str) -> (r: bool)
    ensures
        r == is_uuid_text(s.spec_bytes()),
{
    let bytes = s.as_bytes();
    if bytes.len() != 36 {
        return false;
    }
    let mut i: usize = 0;
    while i < 36
        invariant
            i <= 36,
            bytes@ == s.spec_bytes(),
            bytes@.len() == 36,
            forall|k: int|
                0 <= k < i ==> if is_uuid_dash_position(k) {
                    #[trigger] bytes@[k] == 45
                } else {
                    is_ascii_hex_byte(bytes@[k])
                },
        decreases 36 - i,
    {
        let b = bytes[i];
        if i == 8 || i == 13 || i == 18 || i == 23 {
            if b != 45 {
                return false;
            }
        } else if !((48 <= b && b <= 57) || (65 <= b && b <= 70) || (97 <= b && b <= 102)) {
            return false;
        }
        i = i + 1;
    }
    true
}

pub open spec fn is_api_key_char(c: char) -> bool {
    ('0' <= c && c <= '9') || ('A' <= c && c <= 'Z') || ('a' <= c && c <= 'z') || c == '-' || c
        == '_'
}

/// A companion key: not empty, at most 128 bytes, and made of ASCII letters,
/// digits, `-` and `_` only.
pub open spec fn is_api_key_text(s: &str) -> bool {
    &&& s@.len() > 0
    &&& s.spec_bytes().len() <= 128
    &&& forall|i: int| 0 <= i < s@.len() ==> is_api_key_char(#[trigger] s@[i])
}

pub fn is_valid_api_key_format(s: &str) -> (r: bool)
    ensures
        r == is_api_key_text(s),
{
    if s.is_empty() || s.as_bytes().len() > 128 {
        return false;
    }
    let v = chars_of(s);
    let n = v.len();
    let mut i: usize = 0;
    while i < n
        invariant
            i <= n,
            n == v@.len(),
            v@ == s@,
            forall|k: int| 0 <= k < i ==> is_api_key_char(#[trigger] v@[k]),
        decreases n - i,
    {
        let c = v[i];
        if !(('0' <= c && c <= '9') || ('A' <= c && c <= 'Z') || ('a' <= c && c <= 'z') || c
            == '-' || c == '_') {
            return false;
        }
        i = i + 1;
    }
    true
}

pub open spec fn two_dots() -> Seq<char> {
    seq!['.', '.']
}

pub open spec fn two_backslashes() -> Seq<char> {
    seq!['\\', '\\']
}

pub open spec fn two_slashes() -> Seq<char> {
    seq!['/', '/']
}

/// The checks on the text of a folder path: not empty, at most 512 bytes, no
/// NUL, no `..`, and not a network path (starting with two backslashes or two
/// slashes).
pub open spec fn is_acceptable_path_text(p: &str) -> bool {
    &&& p@.len() > 0
    &&& p.spec_bytes().len() <= 512
    &&& !p@.contains('\0')
    &&& !contains_seq(p@, two_dots())
    &&& !starts_with_seq(p@, two_backslashes())
    &&& !starts_with_seq(p@, two_slashes())
}

/// The system roots that may not be watched, as path texts.
pub open spec fn is_listed_root_text(p: Seq<char>) -> bool {
    ||| p == seq!['/']
    ||| p == seq!['C', ':', '\\']
    ||| p == seq!['C', ':', '/']
    ||| p == seq!['D', ':', '\\']
    ||| p == seq!['D', ':', '/']
}

pub fn is_acceptable_path_text_exec(p: &str) -> (r: bool)
    ensures
        r == is_acceptable_path_text(p),
{
    if p.is_empty() || p.as_bytes().len() > 512 {
        return false;
    }
    let v = chars_of(p);
    if contains_char(&v, '\0') {
        return false;
    }
    if contains_chars(&v, &['.', '.']) {
        return false;
    }
    if starts_with_chars(&v, &['\\', '\\']) || starts_with_chars(&v, &['/', '/']) {
        return false;
    }
    true
}

/// A separator (`/` on every platform, `\` on Windows) or a dot.
pub open spec fn is_path_filler(c: char) -> bool {
    c == '/' || c == '\\' || c == '.'
}

/// The characters of a path text other than slashes, backslashes and dots,
/// with ASCII letters in lower case. Two texts that name the same path agree
/// on it: a path is compared by its components, and the only things that the
/// components drop or fold are separators, `.` components and the case of a
/// Windows drive letter.
pub open spec fn path_squash(s: Seq<char>) -> Seq<char>
    decreases s.len(),
{
    if s.len() == 0 {
        s
    } else {
        let rest = path_squash(s.drop_last());
        let c = ascii_lower(s.last());
        if is_path_filler(c) {
            rest
        } else {
            rest.push(c)
        }
    }
}

/// Compares two paths the way `std::path::Path`'s `==` does, by their
/// components under the rules of the platform the program runs on. Stated:
/// two paths with the same text are equal; a root text `/`, `C:/` or `D:/`
/// equals itself followed by separators and `.` components (see
/// `dot_tail_of`); and two equal paths have the same `path_squash`. Left unsaid: which different texts with the same
/// `path_squash` the platform takes as the same path (`/.` and `/` on Unix,
/// `c:/` and `C:\` on Windows, for instance).
#[verifier::external_body]
fn same_path(a: &str, b: &str) -> (r: bool)
    ensures
        a@ == b@ ==> r,
        r ==> path_squash(a@) == path_squash(b@),
        is_slash_root_text(b@) && dot_tail_of(a@, b@) ==> r,
{
    std::path::Path::new(a) == std::path::Path::new(b)
}

/// The path texts that may name one of the listed system roots on some
/// platform: nothing but separators and dots, or those and one drive `C:` or
/// `D:` (in either case).
pub open spec fn may_name_listed_root(p: Seq<char>) -> bool {
    ||| path_squash(p) == Seq::<char>::empty()
    ||| path_squash(p) == seq!['c', ':']
    ||| path_squash(p) == seq!['d', ':']
}

/// Nothing but separators `/` and `.` components: every character is `/` or
/// `.`, and no two dots stand side by side.
pub open spec fn dot_components_only(t: Seq<char>) -> bool {
    &&& forall|i: int| 0 <= i < t.len() ==> #[trigger] t[i] == '/' || t[i] == '.'
    &&& forall|i: int| 0 <= i < t.len() - 1 ==> !(#[trigger] t[i] == '.' && t[i + 1] == '.')
}

/// `a` is the root text `b` (which ends with `/`) followed by nothing but
/// separators and `.` components, and does not begin with two separators.
/// Every platform reads such a text as the path `b`: repeated separators, a
/// trailing separator and `.` components past the beginning are dropped when
/// a path is split into components, and `/` is a separator everywhere.
pub open spec fn dot_tail_of(a: Seq<char>, b: Seq<char>) -> bool {
    &&& b.len() <= a.len()
    &&& a.subrange(0, b.len() as int) == b
    &&& dot_components_only(a.subrange(b.len() as int, a.len() as int))
    &&& !(a.len() >= 2 && a[0] == '/' && a[1] == '/')
}

/// The root texts that `/` ends: `/`, `C:/` and `D:/`.
pub open spec fn is_slash_root_text(b: Seq<char>) -> bool {
    ||| b == seq!['/']
    ||| b == seq!['C', ':', '/']
    ||| b == seq!['D', ':', '/']
}

/// The path texts that name one of the listed system roots on every platform:
/// the five root texts themselves, and `/`, `C:/` or `D:/` followed by nothing
/// but separators and `.` components (`/.`, `C:/./`, ...).
pub open spec fn names_listed_root_everywhere(p: Seq<char>) -> bool {
    ||| is_listed_root_text(p)
    ||| dot_tail_of(p, seq!['/'])
    ||| dot_tail_of(p, seq!['C', ':', '/'])
    ||| dot_tail_of(p, seq!['D', ':', '/'])
}

/// The verdict on a folder path once it is known whether the platform takes it
/// for one of the listed system roots.
pub fn safe_watch_path_verdict(p: &str, is_system_root: bool) -> (r: bool)
    ensures
        r == (is_acceptable_path_text(p) && !is_system_root),
{
    is_acceptable_path_text_exec(p) && !is_system_root
}

/// Whether a folder may be watched: its text passes the checks and it is none
/// of `/`, `C:\`, `C:/`, `D:\`, `D:/` as a path. A text that names one of them
/// on every platform is refused; an acceptable text that cannot name one on
/// any platform is accepted.
pub fn is_safe_watch_path(p: &str) -> (r: bool)
    ensures
        r ==> is_acceptable_path_text(p),
        r ==> !names_listed_root_everywhere(p@),
        is_acceptable_path_text(p) && !may_name_listed_root(p@) ==> r,
{
    if !is_acceptable_path_text_exec(p) {
        return false;
    }
    let r1 = same_path(p, "/");
    let r2 = same_path(p, "C:\\");
    let r3 = same_path(p, "C:/");
    let r4 = same_path(p, "D:\\");
    let r5 = same_path(p, "D:/");
    let is_root = r1 || r2 || r3 || r4 || r5;
    proof {
        reveal_strlit("/");
        reveal_strlit("C:\\");
        reveal_strlit("C:/");
        reveal_strlit("D:\\");
        reveal_strlit("D:/");
        assert("/"@ =~= seq!['/']);
        assert("C:\\"@ =~= seq!['C', ':', '\\']);
        assert("C:/"@ =~= seq!['C', ':', '/']);
        assert("D:\\"@ =~= seq!['D', ':', '\\']);
        assert("D:/"@ =~= seq!['D', ':', '/']);
        reveal_with_fuel(path_squash, 4);
        assert(path_squash(seq!['/']) =~= Seq::<char>::empty());
        assert(path_squash(seq!['C', ':', '\\']) =~= seq!['c', ':']);
        assert(path_squash(seq!['C', ':', '/']) =~= seq!['c', ':']);
        assert(path_squash(seq!['D', ':', '\\']) =~= seq!['d', ':']);
        assert(path_squash(seq!['D', ':', '/']) =~= seq!['d', ':']);
    }
    safe_watch_path_verdict(p, is_root)
}

pub open spec fn local_api_url() -> Seq<char> {
    "http://localhost:5292"@
}

pub open spec fn production_api_url() -> Seq<char> {
    "https://api.encircledmp.com"@
}

/// The server's base URL: the override, trimmed of white space and then of
/// trailing slashes, where that leaves something; otherwise the local server
/// for debug builds and the production server for release builds.
pub open spec fn api_base_url(override_value: Option<Seq<char>>, debug_build: bool) -> Seq<char> {
    let cleaned = match override_value {
        Some(v) => strip_trailing_slashes(trim_seq(v)),
        None => Seq::<char>::empty(),
    };
    if cleaned.len() > 0 {
        cleaned
    } else if debug_build {
        local_api_url()
    } else {
        production_api_url()
    }
}

proof fn lemma_strip_prefix(s: Seq<char>, j: int)
    requires
        0 <= j <= s.len(),
        forall|k: int| j <= k < s.len() ==> #[trigger] s[k] == '/',
    ensures
        strip_trailing_slashes(s) == strip_trailing_slashes(s.subrange(0, j)),
    decreases s.len() - j,
{
    if j < s.len() {
        assert(s.drop_last() =~= s.subrange(0, s.len() - 1));
        lemma_strip_prefix(s.drop_last(), j);
        assert(s.drop_last().subrange(0, j) =~= s.subrange(0, j));
    } else {
        assert(s.subrange(0, s.len() as int) =~= s);
    }
}

/// `get_api_base_url` once the environment has been read: `override_value` is
/// the value of `ENCIRCLED_API_URL` where it is set, and `debug_build` tells
/// whether this is a debug build.
pub fn resolve_api_base_url(override_value: Option<&str>, debug_build: bool) -> (r: String)
    ensures
        r@ == api_base_url(opt_str_view(override_value), debug_build),
{
    if let Some(v) = override_value {
        let chars = chars_of(v);
        let t = trim_chars(&chars);
        let mut j: usize = t.len();
        while j > 0 && t[j - 1] == '/'
            invariant
                j <= t@.len(),
                forall|k: int| j <= k < t@.len() ==> #[trigger] t@[k] == '/',
            decreases j,
        {
            j = j - 1;
        }
        proof {
            lemma_strip_prefix(t@, j as int);
            let u = t@.subrange(0, j as int);
            if j > 0 {
                assert(u.last() == t@[j - 1]);
            }
            assert(strip_trailing_slashes(u) == u);
        }
        if j > 0 {
            let mut out = String::new();
            append_range(&mut out, t.as_slice(), 0, j);
            proof {
                assert(out@ =~= t@.subrange(0, j as int));
            }
            return out;
        }
    }
    let mut out = String::new();
    if debug_build {
        append_str(&mut out, "http://localhost:5292");
    } else {
        append_str(&mut out, "https://api.encircledmp.com");
    }
    assert(out@ =~= api_base_url(opt_str_view(override_value), debug_build));
    out
}

proof fn lemma_strip_shape(s: Seq<char>)
    ensures
        strip_trailing_slashes(s).len() > 0 ==> strip_trailing_slashes(s).last() != '/',
    decreases s.len(),
{
    if s.len() > 0 && s.last() == '/' {
        lemma_strip_shape(s.drop_last());
    }
}

/// Law: the base URL is never empty and never ends with a slash, so
/// `"{base}/api/..."` never holds a doubled slash.
pub proof fn law_api_base_url_shape(override_value: Option<Seq<char>>, debug_build: bool)
    ensures
        api_base_url(override_value, debug_build).len() > 0,
        api_base_url(override_value, debug_build).last() != '/',
{
    reveal_strlit("http://localhost:5292");
    reveal_strlit("https://api.encircledmp.com");
    match override_value {
        Some(v) => lemma_strip_shape(trim_seq(v)),
        None => {},
    }
}

pub open spec fn err_bad_session() -> Seq<char> {
    "Invalid session_id: Must be a valid UUID"@
}

pub open spec fn err_bad_api_key() -> Seq<char> {
    "Invalid api_key: Malformed characters or length exceeded"@
}

pub open spec fn err_unsafe_path() -> Seq<char> {
    "Invalid or unsafe directory path specified"@
}

pub open spec fn credentials_ok(session_id: &str, api_key: Option<&str>) -> bool {
    &&& is_uuid_text(session_id.spec_bytes())
    &&& (api_key matches Some(k) ==> is_api_key_text(k))
}

/// The first checks of `start_watching`: the session id must be a UUID, and a
/// companion key, where one is given, must be well formed.
pub fn check_watch_credentials(session_id: &str, api_key: Option<&str>) -> (r: Result<(), String>)
    ensures
        r is Ok <==> credentials_ok(session_id, api_key),
        r matches Err(e) ==> e@ == (if !is_uuid_text(session_id.spec_bytes()) {
            err_bad_session()
        } else {
            err_bad_api_key()
        }),
{
    if !is_valid_uuid_format(session_id) {
        return Err(string_of("Invalid session_id: Must be a valid UUID"));
    }
    if let Some(key) = api_key {
        if !is_valid_api_key_format(key) {
            return Err(string_of("Invalid api_key: Malformed characters or length exceeded"));
        }
    }
    Ok(())
}

/// Which folder `start_watching` watches.
pub enum WatchPathChoice {
    /// The game's default save folder.
    DefaultSaveFolder,
    /// A folder that the player chose.
    Folder(String),
}

/// The folder to watch: the default save folder where none (or an empty path)
/// is given, else the given folder if it is safe to watch.
pub fn choose_watch_path(path: Option<&str>) -> (r: Result<WatchPathChoice, String>)
    ensures
        (path is None || path->0@.len() == 0) ==> r matches Ok(WatchPathChoice::DefaultSaveFolder),
        (path matches Some(p) && p@.len() > 0) ==> match r {
            Ok(WatchPathChoice::Folder(f)) => f@ == path->0@ && is_acceptable_path_text(path->0)
                && !names_listed_root_everywhere(path->0@),
            Ok(WatchPathChoice::DefaultSaveFolder) => false,
            Err(e) => e@ == err_unsafe_path() && (!is_acceptable_path_text(path->0)
                || may_name_listed_root(path->0@)),
        },
        (path matches Some(p) && p@.len() > 0 && is_acceptable_path_text(p)
            && !may_name_listed_root(p@)) ==> r is Ok,
        (path matches Some(p) && p@.len() > 0 && (!is_acceptable_path_text(p)
            || names_listed_root_everywhere(p@))) ==> r is Err,
{
    match path {
        Some(p) => {
            if p.is_empty() {
                Ok(WatchPathChoice::DefaultSaveFolder)
            } else if is_safe_watch_path(p) {
                Ok(WatchPathChoice::Folder(string_of(p)))
            } else {
                Err(string_of("Invalid or unsafe directory path specified"))
            }
        },
        None => Ok(WatchPathChoice::DefaultSaveFolder),
    }
}

/// Where the game's default save folder was found: the folder
/// `Paradox Interactive/Hearts of Iron IV/save games` under one of two roots.
pub enum SaveFolderLocation {
    /// Under the player's Documents folder.
    Documents,
    /// Under `OneDrive/Documents` in the player's home folder.
    OneDriveDocuments,
}

pub open spec fn err_no_documents() -> Seq<char> {
    "Could not determine Documents directory"@
}

/// The default save folder: the one under Documents where it exists; else the
/// one under OneDrive where that exists; else the one under Documents all the
/// same. There is none when the Documents folder cannot be determined.
/// `onedrive_folder_exists` is false where the home folder is unknown.
pub fn default_save_folder(
    documents_known: bool,
    documents_folder_exists: bool,
    onedrive_folder_exists: bool,
) -> (r: Result<SaveFolderLocation, String>)
    ensures
        !documents_known ==> (r matches Err(e) && e@ == err_no_documents()),
        documents_known ==> (r matches Ok(loc) && (loc is OneDriveDocuments <==> (
        !documents_folder_exists && onedrive_folder_exists))),
{
    if !documents_known {
        return Err(string_of("Could not determine Documents directory"));
    }
    if !documents_folder_exists && onedrive_folder_exists {
        Ok(SaveFolderLocation::OneDriveDocuments)
    } else {
        Ok(SaveFolderLocation::Documents)
    }
}

/// `StatusCode::is_success`: a 2xx code.
pub open spec fn is_success_code(code: u16) -> bool {
    200 <= code <= 299
}

pub open spec fn err_unauthorized() -> Seq<char> {
    "Unauthorized: Invalid or missing Companion Key. Please copy the full pairing key from the website."@
}

pub open spec fn err_lobby_not_found() -> Seq<char> {
    "Lobby not found. Please verify the Match ID / UUID."@
}

/// Reads the server's answer to the desktop-connect request. `status_text` is
/// the status as the HTTP client prints it, `body` the answer's text.
pub fn check_connect_response(code: u16, status_text: &str, body: &str) -> (r: Result<(), String>)
    ensures
        r is Ok <==> is_success_code(code),
        r matches Err(e) ==> e@ == (if code == 401 {
            err_unauthorized()
        } else if code == 404 {
            err_lobby_not_found()
        } else {
            "Server rejected desktop connection (HTTP "@ + status_text@ + "): "@ + body@
        }),
{
    if 200 <= code && code <= 299 {
        return Ok(());
    }
    if code == 401 {
        Err(
            string_of(
                "Unauthorized: Invalid or missing Companion Key. Please copy the full pairing key from the website.",
            ),
        )
    } else if code == 404 {
        Err(string_of("Lobby not found. Please verify the Match ID / UUID."))
    } else {
        let mut e = string_of("Server rejected desktop connection (HTTP ");
        append_str(&mut e, status_text);
        append_str(&mut e, "): ");
        append_str(&mut e, body);
        Err(e)
    }
}

/// Reads the server's answer to the watcher-status request.
pub fn check_watcher_status_response(code: u16, status_text: &str, body: &str) -> (r: Result<
    (),
    String,
>)
    ensures
        r is Ok <==> is_success_code(code),
        r matches Err(e) ==> e@ == "Failed to activate watcher on server (HTTP "@ + status_text@
            + "): "@ + body@,
{
    if 200 <= code && code <= 299 {
        return Ok(());
    }
    let mut e = string_of("Failed to activate watcher on server (HTTP ");
    append_str(&mut e, status_text);
    append_str(&mut e, "): ");
    append_str(&mut e, body);
    Err(e)
}

/// The error when the connect request could not be sent.
pub fn connect_failure_message(base_url: &str, error_text: &str) -> (r: String)
    ensures
        r@ == "Network connection failed: could not reach Encircled server at "@ + base_url@
            + ". ("@ + error_text@ + ")"@,
{
    let mut e = string_of("Network connection failed: could not reach Encircled server at ");
    append_str(&mut e, base_url);
    append_str(&mut e, ". (");
    append_str(&mut e, error_text);
    append_str(&mut e, ")");
    e
}

/// The error when the watcher-status request could not be sent.
pub fn watcher_registration_failure_message(error_text: &str) -> (r: String)
    ensures
        r@ == "Failed to register watcher status with server: "@ + error_text@,
{
    let mut e = string_of("Failed to register watcher status with server: ");
    append_str(&mut e, error_text);
    e
}

pub open spec fn hoi4_suffix() -> Seq<char> {
    seq!['.', 'h', 'o', 'i', '4']
}

pub open spec fn temp_word() -> Seq<char> {
    seq!['t', 'e', 'm', 'p']
}

pub open spec fn tmp_suffix() -> Seq<char> {
    seq!['.', 't', 'm', 'p']
}

/// A file name counts as a save when its extension is exactly `hoi4` (a dot
/// that is not the first character, then `hoi4`: the rule of
/// `Path::extension`), and its lower-cased name neither contains `temp` nor
/// ends with `.tmp`. Folding only ASCII letters gives the same answer as full
/// lower-casing here, since no other character lower-cases to a letter of
/// these two patterns.
pub open spec fn is_candidate_save_name(name: Seq<char>) -> bool {
    &&& name.len() >= 6
    &&& ends_with_seq(name, hoi4_suffix())
    &&& !contains_seq(lower_seq(name), temp_word())
    &&& !ends_with_seq(lower_seq(name), tmp_suffix())
}

pub fn is_candidate_save_file(file_name: &str) -> (r: bool)
    ensures
        r == is_candidate_save_name(file_name@),
{
    let v = chars_of(file_name);
    if v.len() < 6 || !ends_with_chars(&v, &['.', 'h', 'o', 'i', '4']) {
        return false;
    }
    let lower = lower_chars(&v);
    !contains_chars(&lower, &['t', 'e', 'm', 'p']) && !ends_with_chars(&lower, &['.', 't', 'm', 'p'])
}

/// Twenty-four hours in nanoseconds.
pub open spec fn day_nanos() -> int {
    86_400_000_000_000
}

/// `i` is the first of the newest modification times.
pub open spec fn is_first_newest(m: Seq<u128>, i: int) -> bool {
    &&& 0 <= i < m.len()
    &&& forall|j: int| 0 <= j < m.len() ==> #[trigger] m[j] <= m[i]
    &&& forall|j: int| 0 <= j < i ==> #[trigger] m[j] < m[i]
}

pub open spec fn modified_within_a_day(t: u128, now: u128) -> bool {
    t <= now && now - t < day_nanos()
}

/// The save to check on start-up: of the save files' modification times (in
/// nanoseconds since the epoch), the newest (the first of equals, as a stable
/// sort puts it first), provided it was modified in the last 24 hours.
pub fn select_startup_save(modified: &Vec<u128>, now: u128) -> (r: Option<usize>)
    ensures
        r matches Some(i) ==> is_first_newest(modified@, i as int) && modified_within_a_day(
            modified@[i as int],
            now,
        ),
        r is None ==> forall|i: int| #[trigger]
            is_first_newest(modified@, i) ==> !modified_within_a_day(modified@[i], now),
{
    let n = modified.len();
    if n == 0 {
        return None;
    }
    let mut best: usize = 0;
    let mut i: usize = 1;
    while i < n
        invariant
            1 <= i <= n,
            n == modified@.len(),
            best < i,
            forall|j: int| 0 <= j < i ==> #[trigger] modified@[j] <= modified@[best as int],
            forall|j: int| 0 <= j < best ==> #[trigger] modified@[j] < modified@[best as int],
        decreases n - i,
    {
        if modified[i] > modified[best] {
            best = i;
        }
        i = i + 1;
    }
    proof {
        assert forall|k: int| #[trigger] is_first_newest(modified@, k) implies k == best by {
            if k < best {
                assert(modified@[k] < modified@[best as int]);
            }
            if k > best {
                assert(modified@[best as int] < modified@[k]);
            }
        }
    }
    let t = modified[best];
    if t <= now && now - t < 86_400_000_000_000 {
        Some(best)
    } else {
        None
    }
}

/// The tray's tooltip while a session is watched: its first eight bytes of
/// the session id, or all of it when it is shorter.
pub fn watching_tooltip(session_id: &str) -> (r: String)
    requires
        session_id.spec_bytes().len() < 8 || is_char_boundary(session_id.spec_bytes(), 8),
    ensures
        r@ == "Encircled Desktop · Watching (Lobby: "@ + (if session_id.spec_bytes().len() >= 8 {
            decode_utf8(session_id.spec_bytes().subrange(0, 8))
        } else {
            session_id@
        }) + ")"@,
{
    let mut r = string_of("Encircled Desktop · Watching (Lobby: ");
    if session_id.as_bytes().len() >= 8 {
        let (head, _tail) = session_id.split_at(8);
        proof {
            encode_utf8_decode_utf8(head@);
        }
        append_str(&mut r, head);
    } else {
        append_str(&mut r, session_id);
    }
    append_str(&mut r, ")");
    r
}

pub open spec fn deep_link_scheme() -> Seq<char> {
    seq!['e', 'n', 'c', 'i', 'r', 'c', 'l', 'e', 'd', ':', '/', '/']
}

pub open spec fn desktop_deep_link_scheme() -> Seq<char> {
    seq![
        'e', 'n', 'c', 'i', 'r', 'c', 'l', 'e', 'd', '-', 'd', 'e', 's', 'k', 't', 'o', 'p', ':',
        '/', '/',
    ]
}

/// An argument that is a deep link into the app.
pub open spec fn is_deep_link(a: Seq<char>) -> bool {
    starts_with_seq(a, deep_link_scheme()) || starts_with_seq(a, desktop_deep_link_scheme())
}

/// The first of the command-line arguments that is a deep link.
pub fn find_deep_link(args: &Vec<String>) -> (r: Option<usize>)
    ensures
        r matches Some(i) ==> i < args@.len() && is_deep_link(args@[i as int]@) && forall|j: int|
            0 <= j < i ==> !is_deep_link(#[trigger] args@[j]@),
        r is None ==> forall|j: int| 0 <= j < args@.len() ==> !is_deep_link(#[trigger] args@[j]@),
{
    let n = args.len();
    let mut i: usize = 0;
    while i < n
        invariant
            i <= n,
            n == args@.len(),
            forall|j: int| 0 <= j < i ==> !is_deep_link(#[trigger] args@[j]@),
        decreases n - i,
    {
        let v = chars_of(args[i].as_str());
        if starts_with_chars(&v, &['e', 'n', 'c', 'i', 'r', 'c', 'l', 'e', 'd', ':', '/', '/'])
            || starts_with_chars(
            &v,
            &[
                'e', 'n', 'c', 'i', 'r', 'c', 'l', 'e', 'd', '-', 'd', 'e', 's', 'k', 't', 'o', 'p',
                ':', '/', '/',
            ],
        ) {
            return Some(i);
        }
        i = i + 1;
    }
    None
}

/// What `stop_watching` answers, depending on whether a watcher was running.
pub fn stop_watching_message(was_running: bool) -> (r: String)
    ensures
        r@ == (if was_running {
            "Watcher stopped"@
        } else {
            "No active watcher was running"@
        }),
{
    if was_running {
        string_of("Watcher stopped")
    } else {
        string_of("No active watcher was running")
    }
}

/// A stopping watcher tells the server it disconnected only when no newer
/// watcher has been started since it was.
pub fn should_announce_disconnect(current_generation: u64, own_generation: u64) -> (r: bool)
    ensures
        r == (current_generation == own_generation),
{
    current_generation == own_generation
}

pub open spec fn next_generation(g: u64) -> u64 {
    if g == u64::MAX {
        0
    } else {
        (g + 1) as u64
    }
}

/// Which watcher is the current one (its generation), and whether one has
/// been started and not stopped since.
pub struct WatcherControl {
    pub generation: u64,
    pub running: bool,
}

/// After a start request: a new generation, and no watcher running yet.
pub open spec fn control_after_start(c: WatcherControl) -> WatcherControl {
    WatcherControl { generation: next_generation(c.generation), running: false }
}

/// After a stop request: the same generation, no watcher running.
pub open spec fn control_after_stop(c: WatcherControl) -> WatcherControl {
    WatcherControl { running: false, ..c }
}

/// A watcher of generation `own` announces its disconnect when it is still the
/// current one.
pub open spec fn announces_disconnect(c: WatcherControl, own: u64) -> bool {
    c.generation == own
}

impl WatcherControl {
    pub fn new() -> (c: Self)
        ensures
            c.generation == 0,
            !c.running,
    {
        WatcherControl { generation: 0, running: false }
    }

    /// A request to start watching (once the credentials passed): a new
    /// generation begins, and a watcher that runs is to be stopped. Answers
    /// the new generation and whether a watcher was running.
    pub fn begin_start(&mut self) -> (r: (u64, bool))
        ensures
            *final(self) == control_after_start(*old(self)),
            r == (final(self).generation, old(self).running),
    {
        let was_running = self.running;
        self.generation = self.generation.wrapping_add(1);
        self.running = false;
        (self.generation, was_running)
    }

    /// The new watcher's stop signal has been put in place.
    pub fn watcher_started(&mut self)
        ensures
            *final(self) == (WatcherControl { running: true, ..*old(self) }),
    {
        self.running = true;
    }

    /// A request to stop watching: answers whether a watcher was running.
    pub fn stop(&mut self) -> (was_running: bool)
        ensures
            was_running == old(self).running,
            *final(self) == control_after_stop(*old(self)),
    {
        let was_running = self.running;
        self.running = false;
        was_running
    }

    /// Whether a stopping watcher of generation `own` tells the server that it
    /// disconnected.
    pub fn announce_disconnect(&self, own: u64) -> (r: bool)
        ensures
            r == announces_disconnect(*self, own),
    {
        should_announce_disconnect(self.generation, own)
    }
}

/// Law: once a new watcher is started, the watcher that was current before no
/// longer announces its disconnect, while a plain stop leaves the current
/// watcher the one that announces.
pub proof fn law_newer_start_silences_older(c: WatcherControl)
    ensures
        !announces_disconnect(control_after_start(c), c.generation),
        announces_disconnect(control_after_start(c), control_after_start(c).generation),
        announces_disconnect(control_after_stop(c), c.generation),
{
}

/// Five seconds, in nanoseconds.
pub open spec fn heartbeat_interval_nanos() -> int {
    5_000_000_000
}

/// A heartbeat is due once five seconds have passed since the last one.
pub fn heartbeat_due(elapsed_nanos: u128) -> (r: bool)
    ensures
        r == (elapsed_nanos >= heartbeat_interval_nanos()),
{
    elapsed_nanos >= 5_000_000_000
}

/// The counter of saves seen in one watching session.
pub struct WatcherSession {
    pub sequence_index: u32,
}

impl WatcherSession {
    pub fn new() -> (w: Self)
        ensures
            w.sequence_index == 0,
    {
        WatcherSession { sequence_index: 0 }
    }

    /// Numbers the next save: one more than the last.
    pub fn next_sequence(&mut self) -> (seq: u32)
        requires
            old(self).sequence_index < u32::MAX,
        ensures
            seq == old(self).sequence_index + 1,
            final(self).sequence_index == seq,
    {
        self.sequence_index = self.sequence_index + 1;
        self.sequence_index
    }

    /// Numbers the next save, or answers `None` (and changes nothing) once the
    /// numbers are used up.
    pub fn try_next_sequence(&mut self) -> (seq: Option<u32>)
        ensures
            old(self).sequence_index < u32::MAX ==> seq == Some((old(self).sequence_index + 1) as u32)
                && final(self).sequence_index == old(self).sequence_index + 1,
            old(self).sequence_index == u32::MAX ==> seq is None && final(self).sequence_index
                == old(self).sequence_index,
    {
        if self.sequence_index < u32::MAX {
            Some(self.next_sequence())
        } else {
            None
        }
    }
}

/// A status event of the watcher, in the shape of a telemetry entry.
fn watcher_event(file_name: &str, file_hash: &str, status: String) -> (r: TelemetryPayload)
    ensures
        r.file_name@ == file_name@,
        r.file_hash@ == file_hash@,
        r.status == status,
        !r.verified,
        !r.has_debug_flag,
        r.timestamp@ == Seq::<char>::empty(),
{
    TelemetryPayload {
        file_name: string_of(file_name),
        file_hash: string_of(file_hash),
        status,
        verified: false,
        has_debug_flag: false,
        timestamp: String::new(),
    }
}

/// The event reported when the server refuses a heartbeat as unauthorized
/// (HTTP 401); other answers report nothing.
pub fn heartbeat_response_event(code: u16) -> (r: Option<TelemetryPayload>)
    ensures
        r is Some <==> code == 401,
        r matches Some(e) ==> e@.file_name == "Heartbeat"@ && e@.file_hash == "AUTH_LOST"@
            && e@.status == "ERROR: Heartbeat rejected (Unauthorized companion key)"@
            && !e.verified && !e.has_debug_flag && e@.timestamp.len() == 0,
{
    if code == 401 {
        let status = string_of("ERROR: Heartbeat rejected (Unauthorized companion key)");
        Some(watcher_event("Heartbeat", "AUTH_LOST", status))
    } else {
        None
    }
}

/// The event reported when the file-event debouncer cannot be made.
pub fn debouncer_failure_event(error_text: &str) -> (r: TelemetryPayload)
    ensures
        r@.file_name == "Watcher"@,
        r@.file_hash == "N/A"@,
        r@.status == "ERROR: Debouncer initialization failed ("@ + error_text@ + ")"@,
        !r.verified,
        !r.has_debug_flag,
        r@.timestamp.len() == 0,
{
    let mut status = string_of("ERROR: Debouncer initialization failed (");
    append_str(&mut status, error_text);
    append_str(&mut status, ")");
    watcher_event("Watcher", "N/A", status)
}

/// The event reported when the folder cannot be watched.
pub fn watch_failure_event(error_text: &str) -> (r: TelemetryPayload)
    ensures
        r@.file_name == "Watcher"@,
        r@.file_hash == "N/A"@,
        r@.status == "ERROR: Failed to watch path ("@ + error_text@ + ")"@,
        !r.verified,
        !r.has_debug_flag,
        r@.timestamp.len() == 0,
{
    let mut status = string_of("ERROR: Failed to watch path (");
    append_str(&mut status, error_text);
    append_str(&mut status, ")");
    watcher_event("Watcher", "N/A", status)
}

/// The event reported when the watcher thread stops on a panic.
pub fn watcher_crash_event() -> (r: TelemetryPayload)
    ensures
        r@.file_name == "Watcher Thread"@,
        r@.file_hash == "CRASH"@,
        r@.status == "FATAL: Watcher thread crashed unexpectedly. Please restart watcher."@,
        !r.verified,
        !r.has_debug_flag,
        r@.timestamp.len() == 0,
{
    let status = string_of("FATAL: Watcher thread crashed unexpectedly. Please restart watcher.");
    watcher_event("Watcher Thread", "CRASH", status)
}

/// Where the folder picker opens.
pub enum DialogStart {
    /// At the folder the player passed.
    Given(String),
    /// At the game's default save folder, where it can be found.
    DefaultSaveFolder,
    /// Wherever the system picker opens by default.
    SystemDefault,
}

/// The picker opens at the given folder when one is given and not empty; at
/// the default save folder when none is given; and where the system chooses
/// when an empty folder is given.
pub fn dialog_start(initial_path: Option<&str>) -> (r: DialogStart)
    ensures
        match initial_path {
            Some(p) => if p@.len() > 0 {
                r matches DialogStart::Given(g) && g@ == p@
            } else {
                r is SystemDefault
            },
            None => r is DefaultSaveFolder,
        },
{
    match initial_path {
        Some(p) => if p.is_empty() {
            DialogStart::SystemDefault
        } else {
            DialogStart::Given(string_of(p))
        },
        None => DialogStart::DefaultSaveFolder,
    }
}

/// Law: a session id that passes the UUID check can always be shortened for
/// the tray's tooltip: its eighth byte starts a character.
pub proof fn law_valid_session_id_fits_tooltip(session_id: &str)
    requires
        is_uuid_text(session_id.spec_bytes()),
    ensures
        is_char_boundary(session_id.spec_bytes(), 8),
{
    let b = session_id.spec_bytes();
    encode_utf8_valid_utf8(session_id@);
    is_char_boundary_iff_not_is_continuation_byte(b, 8);
    assert(is_uuid_dash_position(8));
    assert(b[8] == 45);
}

} // verus!

verus! {

/// Law: a companion key is accepted exactly when it is non-empty, at most 128
/// bytes long, and each of its characters is an ASCII digit (code 48 to 57),
/// an ASCII letter of either case (65 to 90, 97 to 122), `-` or `_`.
pub proof fn law_api_key_charset(s: &str)
    ensures
        is_api_key_text(s) <==> (s@.len() > 0 && s.spec_bytes().len() <= 128 && forall|i: int|
            0 <= i < s@.len() ==> {
                let u = (#[trigger] s@[i]) as int;
                (48 <= u <= 57) || (65 <= u <= 90) || (97 <= u <= 122) || u == 45 || u == 95
            }),
{
}

/// Law: a session id is accepted exactly when it is 36 bytes long, bytes 8,
/// 13, 18 and 23 are `-` (code 45), and every other byte is a hexadecimal
/// digit of either case (codes 48 to 57, 65 to 70, 97 to 102).
pub proof fn law_uuid_shape(s: &str)
    ensures
        is_uuid_text(s.spec_bytes()) <==> (s.spec_bytes().len() == 36 && forall|i: int|
            0 <= i < 36 ==> {
                let b = #[trigger] s.spec_bytes()[i];
                if i == 8 || i == 13 || i == 18 || i == 23 {
                    b == 45
                } else {
                    (48 <= b <= 57) || (65 <= b <= 70) || (97 <= b <= 102)
                }
            }),
{
}

} // verus!
