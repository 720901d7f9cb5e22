//! Plain records exchanged with the client: remote targets, file transfers, scripts
//! and terminal events.
use vstd::prelude::*;
use crate::remote_path::{entry_name, extract_entry_name, join_remote_path, joined_path};
use crate::shell::CommandExecutionResult;
use crate::text::{copy_str, lemma_text_lt_asym, lemma_text_lt_trans, str_eq, str_lt, text_lt};

verus! {

/// A saved remote target.
#[derive(Debug, Clone)]
pub struct SshConfig {
    pub id: String,
    pub name: String,
    pub host: String,
    pub port: u16,
    pub username: String,
    pub password: String,
    pub description: String,
    pub created_at: String,
    pub updated_at: String,
}

/// A remote target as the client submits it.
#[derive(Debug, Clone)]
pub struct SshConfigInput {
    pub id: Option<String>,
    pub name: String,
    pub host: String,
    pub port: u16,
    pub username: String,
    pub password: String,
    pub description: Option<String>,
}

/// A request to run one command in a session.
#[derive(Debug, Clone)]
pub struct ExecuteCommandInput {
    pub session_id: String,
    pub command: String,
}

/// The kind of a remote directory entry.
#[derive(Debug, Clone, Copy, PartialEq, Eq, Structural)]
pub enum SftpEntryType {
    Directory,
    File,
    Symlink,
    Other,
}

/// One remote directory entry.
#[derive(Debug, Clone)]
pub struct SftpEntry {
    pub name: String,
    pub path: String,
    pub entry_type: SftpEntryType,
    pub size: u64,
    pub modified_at: Option<u64>,
}

/// A remote directory listing.
#[derive(Debug, Clone)]
pub struct SftpListResponse {
    pub path: String,
    pub entries: Vec<SftpEntry>,
}

/// A request to list a remote directory.
#[derive(Debug, Clone)]
pub struct SftpListInput {
    pub session_id: String,
    pub path: String,
}

/// A request to read a remote text file.
#[derive(Debug, Clone)]
pub struct SftpReadInput {
    pub session_id: String,
    pub path: String,
}

/// A request to write a remote text file.
#[derive(Debug, Clone)]
pub struct SftpWriteInput {
    pub session_id: String,
    pub path: String,
    pub content: String,
}

/// A request to upload base64-encoded bytes to a remote path.
#[derive(Debug, Clone)]
pub struct SftpUploadInput {
    pub session_id: String,
    pub remote_path: String,
    pub content_base64: String,
}

/// A request to download a remote file.
#[derive(Debug, Clone)]
pub struct SftpDownloadInput {
    pub session_id: String,
    pub remote_path: String,
}

/// A remote text file's content.
#[derive(Debug, Clone)]
pub struct SftpFileContent {
    pub path: String,
    pub content: String,
}

/// A downloaded file, base64-encoded.
#[derive(Debug, Clone)]
pub struct SftpDownloadPayload {
    pub path: String,
    pub file_name: String,
    pub content_base64: String,
    pub size: usize,
}

/// A request for a session's server status.
#[derive(Debug, Clone)]
pub struct FetchServerStatusInput {
    pub session_id: String,
    pub selected_interface: Option<String>,
}

/// A saved script.
#[derive(Debug, Clone)]
pub struct ScriptDefinition {
    pub id: String,
    pub name: String,
    pub path: String,
    pub command: String,
    pub description: String,
    pub created_at: String,
    pub updated_at: String,
}

/// A script as the client submits it.
#[derive(Debug, Clone)]
pub struct ScriptInput {
    pub id: Option<String>,
    pub name: String,
    pub path: Option<String>,
    pub command: Option<String>,
    pub description: Option<String>,
}

/// A request to run a saved script in a session.
#[derive(Debug, Clone)]
pub struct RunScriptInput {
    pub session_id: String,
    pub script_id: String,
}

/// What running a script gave.
#[derive(Debug, Clone)]
pub struct RunScriptResult {
    pub script_id: String,
    pub script_name: String,
    pub execution: CommandExecutionResult,
}

/// A request to make an assistant profile active.
#[derive(Debug, Clone)]
pub struct SetActiveAiProfileInput {
    pub id: String,
}

/// A request to open a session on a saved target.
#[derive(Debug, Clone)]
pub struct OpenShellInput {
    pub config_id: String,
}

/// A request to close a session.
#[derive(Debug, Clone)]
pub struct CloseShellInput {
    pub session_id: String,
}

/// Keyboard input for a session's terminal.
#[derive(Debug, Clone)]
pub struct PtyWriteInput {
    pub session_id: String,
    pub data: String,
}

/// A new size for a session's terminal.
#[derive(Debug, Clone)]
pub struct PtyResizeInput {
    pub session_id: String,
    pub cols: u16,
    pub rows: u16,
}

/// Terminal output forwarded to the client.
#[derive(Debug, Clone)]
pub struct PtyOutputEvent {
    pub session_id: String,
    pub chunk: String,
}

/// The kind an SFTP permission word gives: its file-type bits.
pub open spec fn entry_kind(perm: Option<u32>) -> SftpEntryType {
    match perm {
        None => SftpEntryType::Other,
        Some(p) => {
            let t = p & 0o170000u32;
            if t == 0o040000u32 {
                SftpEntryType::Directory
            } else if t == 0o100000u32 {
                SftpEntryType::File
            } else if t == 0o120000u32 {
                SftpEntryType::Symlink
            } else {
                SftpEntryType::Other
            }
        },
    }
}

/// The kind of an entry from its permission word (see `entry_kind`).
pub fn stat_to_entry_type(perm: Option<u32>) -> (r: SftpEntryType)
    ensures
        r == entry_kind(perm),
{
    match perm {
        None => SftpEntryType::Other,
        Some(p) => {
            let t = p & 0o170000u32;
            if t == 0o040000u32 {
                SftpEntryType::Directory
            } else if t == 0o100000u32 {
                SftpEntryType::File
            } else if t == 0o120000u32 {
                SftpEntryType::Symlink
            } else {
                SftpEntryType::Other
            }
        },
    }
}

/// The name a downloaded file is saved under: the last segment of its path, or
/// `download.bin` when the path has none.
pub fn download_file_name(remote_path: &str) -> (r: String)
    ensures
        r@ == match entry_name(remote_path@) {
            Some(name) => name,
            None => "download.bin"@,
        },
{
    match extract_entry_name(remote_path) {
        Some(name) => name,
        None => copy_str("download.bin"),
    }
}

/// The lower-case form of a text, as `str::to_lowercase` gives it.
pub uninterp spec fn lower_of(s: Seq<char>) -> Seq<char>;

/// Relies on `str::to_lowercase`: the full Unicode lower-case mapping, which depends on
/// the characters alone.
#[verifier::external_body]
fn lowercase(s: &str) -> (r: String)
    ensures
        r@ == lower_of(s@),
{
    s.to_lowercase()
}

/// `a` is listed before `b`: directories first, then by `keys` (lower-cased names).
pub open spec fn entry_before(a_dir: bool, a_key: Seq<char>, b_dir: bool, b_key: Seq<char>) -> bool {
    (a_dir && !b_dir) || (a_dir == b_dir && text_lt(a_key, b_key))
}

/// Entries paired with their sort keys, in listing order: directories first, then by key.
pub open spec fn listing_ordered(s: Seq<(SftpEntry, String)>) -> bool {
    forall|i: int, j: int|
        0 <= i < j < s.len() ==> !entry_before(
            (#[trigger] s[j]).0.entry_type == SftpEntryType::Directory,
            s[j].1@,
            (#[trigger] s[i]).0.entry_type == SftpEntryType::Directory,
            s[i].1@,
        )
}

fn goes_before(x_dir: bool, x_key: &str, other: &(SftpEntry, String)) -> (r: bool)
    ensures
        r == entry_before(x_dir, x_key@, other.0.entry_type == SftpEntryType::Directory, other.1@),
{
    let o_dir = other.0.entry_type == SftpEntryType::Directory;
    (x_dir && !o_dir) || (x_dir == o_dir && str_lt(x_key, other.1.as_str()))
}

/// Orders entries paired with their keys for listing: directories first, then by key,
/// keeping the order of equal keys.
pub fn order_entries_by_keys(rows: Vec<(SftpEntry, String)>) -> (r: Vec<(SftpEntry, String)>)
    ensures
        r@.to_multiset() == rows@.to_multiset(),
        listing_ordered(r@),
{
    let ghost orig = rows@;
    let mut source = rows;
    let mut out: Vec<(SftpEntry, String)> = Vec::new();
    let mut n: usize = 0;
    let total = source.len();
    assert(orig.skip(0) =~= orig);
    assert(orig.take(0) =~= Seq::<(SftpEntry, String)>::empty());
    while source.len() > 0
        invariant
            n + source@.len() == total,
            total == orig.len(),
            source@ == orig.skip(n as int),
            out@.to_multiset() == orig.take(n as int).to_multiset(),
            listing_ordered(out@),
        decreases source@.len(),
    {
        let x = source.remove(0);
        assert(orig.skip(n + 1) =~= orig.skip(n as int).remove(0));
        assert(orig.take(n + 1) =~= orig.take(n as int).push(x));
        let x_dir = x.0.entry_type == SftpEntryType::Directory;
        let mut pos: usize = 0;
        while pos < out.len() && !goes_before(x_dir, x.1.as_str(), &out[pos])
            invariant
                pos <= out@.len(),
                x_dir == (x.0.entry_type == SftpEntryType::Directory),
                forall|j: int|
                    0 <= j < pos ==> !entry_before(
                        x_dir,
                        x.1@,
                        (#[trigger] out@[j]).0.entry_type == SftpEntryType::Directory,
                        out@[j].1@,
                    ),
            decreases out@.len() - pos,
        {
            pos = pos + 1;
        }
        let ghost old_out = out@;
        let ghost gx = x;
        out.insert(pos, x);
        proof {
            vstd::seq_lib::to_multiset_insert(old_out, pos as int, gx);
            vstd::seq_lib::to_multiset_build(orig.take(n as int), gx);
            assert forall|a: int, b: int| 0 <= a < b < out@.len() implies !entry_before(
                (#[trigger] out@[b]).0.entry_type == SftpEntryType::Directory,
                out@[b].1@,
                (#[trigger] out@[a]).0.entry_type == SftpEntryType::Directory,
                out@[a].1@,
            ) by {
                if a < pos && b < pos {
                    assert(out@[a] == old_out[a] && out@[b] == old_out[b]);
                } else if a < pos && b == pos {
                    assert(out@[a] == old_out[a]);
                } else if a < pos && b > pos {
                    assert(out@[a] == old_out[a] && out@[b] == old_out[b - 1]);
                } else if a == pos {
                    let y = old_out[b - 1];
                    let p = old_out[pos as int];
                    let yd = y.0.entry_type == SftpEntryType::Directory;
                    let pd = p.0.entry_type == SftpEntryType::Directory;
                    assert(out@[b] == y);
                    assert(entry_before(x_dir, gx.1@, pd, p.1@));
                    if b - 1 > pos {
                        assert(!entry_before(yd, y.1@, pd, p.1@));
                    }
                    if entry_before(yd, y.1@, x_dir, gx.1@) {
                        if yd == x_dir && x_dir == pd {
                            if b - 1 == pos {
                                lemma_text_lt_asym(gx.1@, p.1@);
                            } else {
                                lemma_text_lt_trans(y.1@, gx.1@, p.1@);
                            }
                        }
                    }
                } else {
                    assert(out@[a] == old_out[a - 1] && out@[b] == old_out[b - 1]);
                }
            }
        }
        n = n + 1;
    }
    assert(orig.take(n as int) =~= orig);
    out
}

/// Orders a directory listing: directories first, then by lower-cased name (see
/// `lower_of`), keeping the order of names that compare equal.
pub fn sort_entries(entries: Vec<SftpEntry>) -> (r: Vec<SftpEntry>)
    ensures
        r@.len() == entries@.len(),
        forall|k: int| 0 <= k < r@.len() ==> entries@.contains(#[trigger] r@[k]),
        forall|i: int, j: int|
            0 <= i < j < r@.len() ==> !entry_before(
                (#[trigger] r@[j]).entry_type == SftpEntryType::Directory,
                lower_of(r@[j].name@),
                (#[trigger] r@[i]).entry_type == SftpEntryType::Directory,
                lower_of(r@[i].name@),
            ),
{
    let mut source = entries;
    let mut keyed: Vec<(SftpEntry, String)> = Vec::new();
    let total = source.len();
    while source.len() > 0
        invariant
            keyed@.len() + source@.len() == total,
            total == entries@.len(),
            source@ == entries@.skip(keyed@.len() as int),
            forall|k: int| 0 <= k < keyed@.len() ==> (#[trigger] keyed@[k]).1@ == lower_of(keyed@[k].0.name@),
            forall|k: int| 0 <= k < keyed@.len() ==> (#[trigger] keyed@[k]).0 == entries@[k],
        decreases source@.len(),
    {
        let ghost k: int = keyed@.len() as int;
        let e = source.remove(0);
        assert(entries@.skip(k + 1) =~= entries@.skip(k).remove(0));
        let key = lowercase(e.name.as_str());
        keyed.push((e, key));
    }
    let ghost before = keyed@;
    let ordered = order_entries_by_keys(keyed);
    proof {
        assert forall|k: int| 0 <= k < ordered@.len() implies (#[trigger] ordered@[k]).1@ == lower_of(ordered@[k].0.name@)
            && entries@.contains(ordered@[k].0) by {
            vstd::seq_lib::to_multiset_contains(ordered@, ordered@[k]);
            vstd::seq_lib::to_multiset_contains(before, ordered@[k]);
            assert(ordered@.contains(ordered@[k]));
            let w = choose|w: int| 0 <= w < before.len() && #[trigger] before[w] == ordered@[k];
            assert(before[w].0 == entries@[w]);
        }
        vstd::seq_lib::to_multiset_len(ordered@);
        vstd::seq_lib::to_multiset_len(before);
    }
    let mut out: Vec<SftpEntry> = Vec::new();
    let mut rest = ordered;
    let ghost sorted = rest@;
    while rest.len() > 0
        invariant
            out@.len() + rest@.len() == sorted.len(),
            rest@ == sorted.skip(out@.len() as int),
            forall|k: int| 0 <= k < out@.len() ==> #[trigger] out@[k] == sorted[k].0,
            listing_ordered(sorted),
            forall|k: int| 0 <= k < sorted.len() ==> (#[trigger] sorted[k]).1@ == lower_of(sorted[k].0.name@)
                && entries@.contains(sorted[k].0),
        decreases rest@.len(),
    {
        let ghost k: int = out@.len() as int;
        let pair = rest.remove(0);
        assert(sorted.skip(k + 1) =~= sorted.skip(k).remove(0));
        out.push(pair.0);
    }
    proof {
        assert forall|i: int, j: int| 0 <= i < j < out@.len() implies !entry_before(
            (#[trigger] out@[j]).entry_type == SftpEntryType::Directory,
            lower_of(out@[j].name@),
            (#[trigger] out@[i]).entry_type == SftpEntryType::Directory,
            lower_of(out@[i].name@),
        ) by {
            assert(out@[i] == sorted[i].0 && out@[j] == sorted[j].0);
            assert(sorted[i].1@ == lower_of(sorted[i].0.name@));
            assert(sorted[j].1@ == lower_of(sorted[j].0.name@));
        }
        assert forall|k: int| 0 <= k < out@.len() implies entries@.contains(#[trigger] out@[k]) by {
            assert(out@[k] == sorted[k].0);
        }
    }
    out
}

/// What the SFTP server reported of one directory entry: its path, permission word,
/// size and modification time.
#[derive(Debug, Clone)]
pub struct RawDirEntry {
    pub path: String,
    pub perm: Option<u32>,
    pub size: Option<u64>,
    pub mtime: Option<u64>,
}

/// The listing entry for `raw` under `dir`, or none for a nameless entry, `.` or `..`.
pub open spec fn listed_entry(dir: Seq<char>, raw: RawDirEntry, e: Option<SftpEntry>) -> bool {
    match entry_name(raw.path@) {
        None => e is None,
        Some(name) => if name == "."@ || name == ".."@ {
            e is None
        } else {
            e matches Some(entry) && entry.name@ == name && entry.path@ == joined_path(dir, name)
                && entry.entry_type == entry_kind(raw.perm) && entry.size == (match raw.size {
                Some(v) => v,
                None => 0u64,
            }) && entry.modified_at == raw.mtime
        },
    }
}

/// The listing entry for one raw entry under `dir` (see `listed_entry`).
pub fn entry_from_raw(dir: &str, raw: &RawDirEntry) -> (r: Option<SftpEntry>)
    ensures
        listed_entry(dir@, *raw, r),
{
    let name = match extract_entry_name(raw.path.as_str()) {
        Some(n) => n,
        None => {
            return None;
        },
    };
    if str_eq(name.as_str(), ".") || str_eq(name.as_str(), "..") {
        return None;
    }
    let path = join_remote_path(dir, name.as_str());
    let size = match raw.size {
        Some(v) => v,
        None => 0u64,
    };
    Some(SftpEntry { name, path, entry_type: stat_to_entry_type(raw.perm), size, modified_at: raw.mtime })
}

} // verus!
