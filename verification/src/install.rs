//! Install workflow decisions: release selection, the managed install
//! locations, progress throttling, the path-traversal guard on archive
//! entries, and the final verification of the installed executable.

use vstd::prelude::*;
use crate::http_success;
use crate::launch::Platform;
use crate::textfmt::{spec_dec, chars_to_string, concat_str, push_dec, push_str_chars};

verus! {

/// The archive install is a Windows-only workflow; any other platform is
/// refused before a byte is downloaded.
pub fn archive_install_platform_check(platform: Platform) -> (r: Result<(), String>)
    ensures
        platform == Platform::Windows <==> r is Ok,
        platform != Platform::Windows ==> (r matches Err(e) && e@
            == "ZIP installation only supported on Windows"@),
{
    match platform {
        Platform::Windows => Ok(()),
        Platform::MacOs => Err("ZIP installation only supported on Windows".to_owned()),
        Platform::Linux => Err("ZIP installation only supported on Windows".to_owned()),
    }
}

/// The release archive for the caller's hardware: the GPU-accelerated
/// variant when the capability flag is set, the generic one otherwise.
pub fn release_url(amd_gpu: bool) -> (r: &'static str)
    ensures
        amd_gpu ==> r@
            == "https://github.com/ollama/ollama/releases/latest/download/ollama-windows-amd64-rocm.zip"@,
        !amd_gpu ==> r@
            == "https://github.com/ollama/ollama/releases/latest/download/ollama-windows-amd64.zip"@,
{
    if amd_gpu {
        "https://github.com/ollama/ollama/releases/latest/download/ollama-windows-amd64-rocm.zip"
    } else {
        "https://github.com/ollama/ollama/releases/latest/download/ollama-windows-amd64.zip"
    }
}

/// The managed install directory, a fixed path under the platform
/// application-data root.
pub fn install_dir(localappdata: &str) -> (r: String)
    ensures
        r@ == localappdata@ + "\\PrivatePDF\\ollama"@,
{
    concat_str(localappdata, "\\PrivatePDF\\ollama")
}

/// The temporary archive file, beside the install directory, deleted
/// after extraction.
pub fn temp_archive_path(localappdata: &str) -> (r: String)
    ensures
        r@ == localappdata@ + "\\PrivatePDF\\ollama_temp.zip"@,
{
    concat_str(localappdata, "\\PrivatePDF\\ollama_temp.zip")
}

/// Where the server executable must stand after extraction.
pub fn expected_executable(dir: &str) -> (r: String)
    ensures
        r@ == dir@ + "\\ollama.exe"@,
{
    concat_str(dir, "\\ollama.exe")
}

/// Settle the transport outcome of the archive download before its body
/// is streamed.
pub fn archive_http_check(status: u16) -> (r: Result<(), String>)
    ensures
        http_success(status) <==> r is Ok,
        !http_success(status) ==> (r matches Err(e) && e@ == "Download failed: HTTP "@ + spec_dec(
            status as nat,
        )),
{
    if 200 <= status && status < 300 {
        Ok(())
    } else {
        let mut out: Vec<char> = Vec::new();
        push_str_chars(&mut out, "Download failed: HTTP ");
        push_dec(&mut out, status as u64);
        Err(chars_to_string(&out))
    }
}

/// One mebibyte: the throttling unit for download progress.
pub const PROGRESS_UNIT: u64 = 1048576;

/// Whether this chunk's arrival is worth a progress report: at most one
/// per mebibyte crossed, plus the final report when the total is
/// reached.
pub fn download_report_due(downloaded: u64, chunk_len: u64, total: u64) -> (r: bool)
    ensures
        r == (downloaded % PROGRESS_UNIT < chunk_len || downloaded == total),
{
    downloaded % PROGRESS_UNIT < chunk_len || downloaded == total
}

/// Whole percent of a download, zero while the total is unknown.
pub fn download_percent(downloaded: u64, total: u64) -> (r: u64)
    requires
        downloaded <= total,
    ensures
        total > 0 ==> r == downloaded * 100 / (total as int),
        total == 0 ==> r == 0,
        r <= 100,
{
    if total == 0 {
        0
    } else {
        let p = (downloaded as u128) * 100 / (total as u128);
        proof {
            assert(downloaded * 100 / (total as int) <= 100) by (nonlinear_arith)
                requires
                    0 < total <= u64::MAX,
                    0 <= downloaded <= total,
            ;
        }
        p as u64
    }
}

/// Whether this entry's extraction is worth a progress report: every
/// tenth entry, plus the final one.
pub fn extraction_report_due(index: usize, total: usize) -> (r: bool)
    requires
        index < total,
    ensures
        r == (index % 10 == 0 || index + 1 == total),
{
    index % 10 == 0 || index + 1 == total
}

pub const SLASH: u8 = 47;

pub const BACKSLASH: u8 = 92;

pub const DOT: u8 = 46;

pub const COLON: u8 = 58;

/// Either separator an archive entry name may use.
pub open spec fn is_sep(b: u8) -> bool {
    b == SLASH || b == BACKSLASH
}

/// A safe entry name maps to a path enclosed by the directory it is
/// joined to: it is relative (no leading separator), names no drive (no
/// colon anywhere), and no component of it is the parent directory —
/// two dots standing alone between separators or name ends.  Joined
/// under the install directory, such a name can only name something
/// inside it.
pub open spec fn entry_name_safe(name: Seq<u8>) -> bool {
    &&& name.len() > 0
    &&& !is_sep(name[0])
    &&& (forall|i: int| 0 <= i < name.len() ==> name[i] != COLON)
    &&& (forall|i: int|
        0 <= i && i + 1 < name.len() ==> !(#[trigger] name[i] == DOT && name[i + 1] == DOT && (i
            == 0 || is_sep(name[i - 1])) && (i + 2 == name.len() || is_sep(name[i + 2]))))
}

/// The name split at its separators, as path resolution reads it: the
/// bytes of each component, in order.
pub open spec fn components_from(s: Seq<u8>, cur: Seq<u8>) -> Seq<Seq<u8>>
    decreases s.len(),
{
    if s.len() == 0 {
        seq![cur]
    } else if is_sep(s[0]) {
        seq![cur] + components_from(s.skip(1), Seq::empty())
    } else {
        components_from(s.skip(1), cur.push(s[0]))
    }
}

pub open spec fn path_components(s: Seq<u8>) -> Seq<Seq<u8>> {
    components_from(s, Seq::empty())
}

proof fn lemma_no_parent_from(name: Seq<u8>, i: int, j: int)
    requires
        entry_name_safe(name),
        0 <= j <= i <= name.len(),
        j == 0 || is_sep(name[j - 1]),
        forall|k: int| j <= k < i ==> !is_sep(name[k]),
    ensures
        forall|k: int|
            0 <= k < components_from(name.skip(i), name.subrange(j, i)).len()
                ==> #[trigger] components_from(name.skip(i), name.subrange(j, i))[k] != seq![
                DOT,
                DOT,
            ],
    decreases name.len() - i,
{
    let cur = name.subrange(j, i);
    if i == name.len() {
        assert(name.skip(i) =~= Seq::<u8>::empty());
        if cur == seq![DOT, DOT] {
            assert(cur.len() == 2);
            assert(i == j + 2);
            assert(cur[0] == DOT && cur[1] == DOT);
            assert(name[j] == cur[0] && name[j + 1] == cur[1]);
            assert(j + 2 == name.len());
            assert(false);
        }
        assert(components_from(name.skip(i), cur) == seq![cur]);
    } else if is_sep(name[i]) {
        assert(name.skip(i)[0] == name[i]);
        if cur == seq![DOT, DOT] {
            assert(cur.len() == 2);
            assert(i == j + 2);
            assert(cur[0] == DOT && cur[1] == DOT);
            assert(name[j] == cur[0] && name[j + 1] == cur[1]);
            assert(j + 2 == i && is_sep(name[j + 2]));
            assert(false);
        }
        assert(name.skip(i).skip(1) =~= name.skip(i + 1));
        assert(name.subrange(i + 1, i + 1) =~= Seq::<u8>::empty());
        lemma_no_parent_from(name, i + 1, i + 1);
        let rest = components_from(name.skip(i + 1), Seq::empty());
        assert(components_from(name.skip(i), cur) == seq![cur] + rest);
        assert(forall|k: int|
            0 <= k < (seq![cur] + rest).len() ==> (seq![cur] + rest)[k] == (if k == 0 {
                cur
            } else {
                rest[k - 1]
            }));
    } else {
        assert(name.skip(i)[0] == name[i]);
        assert(name.skip(i).skip(1) =~= name.skip(i + 1));
        assert(cur.push(name[i]) =~= name.subrange(j, i + 1));
        lemma_no_parent_from(name, i + 1, j);
        assert(components_from(name.skip(i), cur) == components_from(
            name.skip(i + 1),
            name.subrange(j, i + 1),
        ));
    }
}

/// Why the guard confines extraction: a safe name is relative, and once
/// split at its separators no component of it is the parent directory,
/// so resolving it under the install directory can only stay inside.
pub proof fn lemma_safe_name_stays_inside(name: Seq<u8>)
    requires
        entry_name_safe(name),
    ensures
        !is_sep(name[0]),
        forall|k: int|
            0 <= k < path_components(name).len() ==> #[trigger] path_components(name)[k] != seq![
                DOT,
                DOT,
            ],
{
    assert(name.skip(0) =~= name);
    assert(name.subrange(0, 0) =~= Seq::<u8>::empty());
    lemma_no_parent_from(name, 0, 0);
}

/// The path-traversal guard: accept an entry name only when its resolved
/// path stays enclosed by the install directory.
pub fn check_entry_name(name: &[u8]) -> (r: bool)
    ensures
        r == entry_name_safe(name@),
{
    let n = name.len();
    if n == 0 {
        return false;
    }
    if name[0] == SLASH || name[0] == BACKSLASH {
        return false;
    }
    let mut i: usize = 0;
    while i < n
        invariant
            n == name@.len(),
            i <= n,
            forall|j: int| 0 <= j < i ==> name@[j] != COLON,
            forall|j: int|
                0 <= j < i && j + 1 < n ==> !(#[trigger] name@[j] == DOT && name@[j + 1] == DOT
                    && (j == 0 || is_sep(name@[j - 1])) && (j + 2 == name@.len() || is_sep(
                    name@[j + 2],
                ))),
        decreases n - i,
    {
        if name[i] == COLON {
            return false;
        }
        if i + 1 < n && name[i] == DOT && name[i + 1] == DOT {
            let starts_component = i == 0 || name[i - 1] == SLASH || name[i - 1] == BACKSLASH;
            let ends_component = i + 2 == n || name[i + 2] == SLASH || name[i + 2] == BACKSLASH;
            if starts_component && ends_component {
                return false;
            }
        }
        i = i + 1;
    }
    true
}

/// A directory entry: its stored name ends with a slash.
pub fn entry_is_dir(name: &[u8]) -> (r: bool)
    ensures
        r == (name@.len() > 0 && name@.last() == SLASH),
{
    name.len() > 0 && name[name.len() - 1] == SLASH
}

/// The stages the workflow announces, in order.
pub enum InstallPhase {
    Downloading,
    Extracting,
    Completed,
}

/// The `{status, message}` notification each stage emits.
pub fn phase_notification(phase: &InstallPhase) -> (r: (&'static str, &'static str))
    ensures
        *phase is Downloading ==> r.0@ == "downloading"@ && r.1@ == "Starting download..."@,
        *phase is Extracting ==> r.0@ == "extracting"@ && r.1@ == "Extracting files..."@,
        *phase is Completed ==> r.0@ == "completed"@ && r.1@ == "Installation complete!"@,
{
    match phase {
        InstallPhase::Downloading => ("downloading", "Starting download..."),
        InstallPhase::Extracting => ("extracting", "Extracting files..."),
        InstallPhase::Completed => ("completed", "Installation complete!"),
    }
}

/// The workflow's last stage: succeed exactly when the expected
/// executable exists at the installed location, whatever the earlier
/// stages reported.
pub fn verify_install(exe_exists: bool, dir: &str) -> (r: Result<String, String>)
    ensures
        exe_exists ==> (r matches Ok(m) && m@ == "Installed to: "@ + dir@),
        !exe_exists ==> (r matches Err(e) && e@ == "Extraction failed: ollama.exe not found"@),
{
    if exe_exists {
        Ok(concat_str("Installed to: ", dir))
    } else {
        Err("Extraction failed: ollama.exe not found".to_owned())
    }
}

} // verus!
