//! Local tools offered to characters: a sandbox rooted at the project
//! directory, the tools' names and descriptions, and the limits applied to
//! what they read and print. File and process access is done by the caller.

use vstd::prelude::*;
use crate::error::AgentError;
use crate::json::{
    entry_views, json_array, json_array_of, json_bool, json_boolean, json_object, json_object_of,
    json_str, json_string,
};
use crate::message::opt_str_view;
use crate::text::{utf8_len, char_len_utf8, lemma_utf8_len_push, lemma_utf8_len_prefix, decimal};

verus! {

/// Largest file the read tool returns, in bytes.
pub const MAX_READ_BYTES: u64 = 262144;

/// Largest command output the shell tool returns, in bytes.
pub const MAX_OUTPUT_BYTES: usize = 65536;

/// Seconds a shell command may run.
pub const ZSH_TIMEOUT_SECS: u64 = 10;

/// The error text of a shell command that ran past its time limit.
pub fn zsh_timeout_message() -> (s: String)
    ensures
        s@ == "zsh command timed out after "@ + decimal(ZSH_TIMEOUT_SECS as nat) + " seconds"@,
{
    let mut text = String::from_str("zsh command timed out after ");
    let digits = crate::text::usize_to_decimal(ZSH_TIMEOUT_SECS as usize);
    text.append(digits.as_str());
    text.append(" seconds");
    text
}

/// Whether a path is absolute on this platform (`std::path::Path::is_absolute`).
pub uninterp spec fn is_absolute_path(p: Seq<char>) -> bool;

/// The path `base` joined with `p` (`std::path::Path::join`).
pub uninterp spec fn joined_path(base: Seq<char>, p: Seq<char>) -> Seq<char>;

/// Whether `p` lies under `base`, comparing whole components
/// (`std::path::Path::starts_with`).
pub uninterp spec fn path_under(p: Seq<char>, base: Seq<char>) -> bool;

/// `std::path::Path::is_absolute` on the path `p`.
#[verifier::external_body]
fn path_is_absolute(p: &str) -> (b: bool)
    ensures
        b == is_absolute_path(p@),
{
    std::path::Path::new(p).is_absolute()
}

/// `std::path::Path::join`: `base` followed by `p` (just `p` when it is
/// absolute), as text.
#[verifier::external_body]
pub(crate) fn path_join(base: &str, p: &str) -> (r: String)
    ensures
        r@ == joined_path(base@, p@),
{
    std::path::Path::new(base).join(p).to_string_lossy().into_owned()
}

/// `std::path::Path::starts_with`: whether the components of `base` begin
/// those of `p`.
#[verifier::external_body]
fn path_starts_with(p: &str, base: &str) -> (b: bool)
    ensures
        b == path_under(p@, base@),
{
    std::path::Path::new(p).starts_with(base)
}

/// The parent directory of a path (`Path::parent`), if it has one.
pub uninterp spec fn path_parent(p: Seq<char>) -> Option<Seq<char>>;

/// The last component of a path (`Path::file_name`), if it names one.
pub uninterp spec fn path_file_name(p: Seq<char>) -> Option<Seq<char>>;

/// `std::path::Path::parent`, written out as text.
#[verifier::external_body]
fn parent_of(p: &str) -> (r: Option<String>)
    ensures
        opt_str_view(r) == path_parent(p@),
{
    std::path::Path::new(p).parent().map(|d| d.to_string_lossy().into_owned())
}

/// `std::path::Path::file_name`, written out as text.
#[verifier::external_body]
fn file_name_of(p: &str) -> (r: Option<String>)
    ensures
        opt_str_view(r) == path_file_name(p@),
{
    std::path::Path::new(p).file_name().map(|f| f.to_string_lossy().into_owned())
}

/// The JSON schema of an object with the given properties, of which the
/// named ones are required and no others are allowed.
pub open spec fn schema_value(properties: serde_json::Value, required: Seq<Seq<char>>) -> serde_json::Value {
    json_object_of(
        seq![
            ("type"@, json_str("object"@)),
            ("properties"@, properties),
            ("required"@, json_array_of(required.map_values(|n: Seq<char>| json_str(n)))),
            ("additionalProperties"@, json_boolean(false)),
        ],
    )
}

/// The JSON schema of a text property with a description.
pub open spec fn property_value(description: Seq<char>) -> serde_json::Value {
    json_object_of(seq![("type"@, json_str("string"@)), ("description"@, json_str(description))])
}

/// The JSON schema of an object with the given properties, of which the
/// named ones are required and no others are allowed.
pub fn object_schema(properties: serde_json::Value, required: &[&str]) -> (r: serde_json::Value)
    ensures
        r == schema_value(properties, required@.map_values(|n: &str| n@)),
{
    let ghost req = required@.map_values(|n: &str| n@);
    let mut names: Vec<serde_json::Value> = Vec::new();
    let mut i: usize = 0;
    while i < required.len()
        invariant
            i <= required@.len(),
            req == required@.map_values(|n: &str| n@),
            names@ == req.take(i as int).map_values(|n: Seq<char>| json_str(n)),
        decreases required@.len() - i,
    {
        names.push(json_string(String::from_str(required[i])));
        assert(names@ =~= req.take(i + 1).map_values(|n: Seq<char>| json_str(n)));
        i = i + 1;
    }
    assert(req.take(required@.len() as int) =~= req);
    let items = json_array(names);
    let mut entries: Vec<(String, serde_json::Value)> = Vec::new();
    entries.push((String::from_str("type"), json_string(String::from_str("object"))));
    entries.push((String::from_str("properties"), properties));
    entries.push((String::from_str("required"), items));
    entries.push((String::from_str("additionalProperties"), json_bool(false)));
    assert(entry_views(entries@) =~= seq![
        ("type"@, json_str("object"@)),
        ("properties"@, properties),
        ("required"@, json_array_of(req.map_values(|n: Seq<char>| json_str(n)))),
        ("additionalProperties"@, json_boolean(false)),
    ]);
    json_object(entries)
}

/// The JSON schema of a text property with a description.
pub fn path_property(description: &str) -> (r: serde_json::Value)
    ensures
        r == property_value(description@),
{
    let mut entries: Vec<(String, serde_json::Value)> = Vec::new();
    entries.push((String::from_str("type"), json_string(String::from_str("string"))));
    entries.push((String::from_str("description"), json_string(String::from_str(description))));
    assert(entry_views(entries@) =~= seq![
        ("type"@, json_str("string"@)),
        ("description"@, json_str(description@)),
    ]);
    json_object(entries)
}

/// The directory the tools are confined to.
#[derive(Debug, Clone)]
pub struct ToolSandbox {
    /// Canonical path of the root directory.
    root: String,
}

impl ToolSandbox {
    /// A sandbox at the given root, which the caller has made canonical.
    pub fn new(canonical_root: String) -> (s: Self)
        ensures
            s.root_path() == canonical_root@,
    {
        ToolSandbox { root: canonical_root }
    }

    /// The root's path.
    pub closed spec fn root_path(&self) -> Seq<char> {
        self.root@
    }

    /// A tool path resolved against the root: absolute paths stay as they
    /// are, relative ones are joined to the root.
    pub fn join_root(&self, path: &str) -> (r: String)
        ensures
            r@ == if is_absolute_path(path@) {
                path@
            } else {
                joined_path(self.root_path(), path@)
            },
    {
        if path_is_absolute(path) {
            String::from_str(path)
        } else {
            path_join(self.root.as_str(), path)
        }
    }

    /// Refuses a path outside the root.
    pub fn ensure_in_root(&self, path: &str) -> (r: Result<(), AgentError>)
        ensures
            r is Ok <==> path_under(path@, self.root_path()),
            r matches Err(AgentError::Other(m)) ==> m@ == "Path escapes tool sandbox root: "@ + path@,
            r is Err ==> r matches Err(AgentError::Other(_)),
    {
        if path_starts_with(path, self.root.as_str()) {
            Ok(())
        } else {
            let mut m = String::from_str("Path escapes tool sandbox root: ");
            m.append(path);
            Err(AgentError::Other(m))
        }
    }

    /// The directory a write to `path` goes into: the parent of the path
    /// resolved against the root.
    pub fn write_parent(&self, path: &str) -> (r: Result<String, AgentError>)
        ensures
            ({
                let j = if is_absolute_path(path@) {
                    path@
                } else {
                    joined_path(self.root_path(), path@)
                };
                match path_parent(j) {
                    Some(p) => r matches Ok(s) && s@ == p,
                    None => r matches Err(AgentError::Other(m)) && m@
                        == "Path has no parent directory: "@ + j,
                }
            }),
    {
        let joined = self.join_root(path);
        match parent_of(joined.as_str()) {
            Some(p) => Ok(p),
            None => {
                let mut m = String::from_str("Path has no parent directory: ");
                m.append(joined.as_str());
                Err(AgentError::Other(m))
            },
        }
    }

    /// The file a write to `path` goes to, once its parent directory has been
    /// made canonical: refused when that directory is outside the root or
    /// the path names no file, else the file's name in that directory.
    pub fn write_target(&self, path: &str, canonical_parent: &str) -> (r: Result<String, AgentError>)
        ensures
            ({
                let j = if is_absolute_path(path@) {
                    path@
                } else {
                    joined_path(self.root_path(), path@)
                };
                if !path_under(canonical_parent@, self.root_path()) {
                    r matches Err(AgentError::Other(m)) && m@ == "Path escapes tool sandbox root: "@
                        + canonical_parent@
                } else {
                    match path_file_name(j) {
                        Some(f) => r matches Ok(t) && t@ == joined_path(canonical_parent@, f),
                        None => r matches Err(AgentError::Other(m)) && m@ == "Path has no filename: "@
                            + j,
                    }
                }
            }),
    {
        match self.ensure_in_root(canonical_parent) {
            Err(e) => Err(e),
            Ok(()) => {
                let joined = self.join_root(path);
                match file_name_of(joined.as_str()) {
                    Some(f) => Ok(path_join(canonical_parent, f.as_str())),
                    None => {
                        let mut m = String::from_str("Path has no filename: ");
                        m.append(joined.as_str());
                        Err(AgentError::Other(m))
                    },
                }
            },
        }
    }

    /// The root's path.
    pub fn root(&self) -> (r: &str)
        ensures
            r@ == self.root_path(),
    {
        self.root.as_str()
    }
}

/// Reads a text file of the workspace.
#[derive(Debug, Clone)]
pub struct ReadFileTool {
    pub sandbox: ToolSandbox,
}

/// Writes a text file of the workspace.
#[derive(Debug, Clone)]
pub struct WriteFileTool {
    pub sandbox: ToolSandbox,
}

/// Runs a shell command in the workspace.
#[derive(Debug, Clone)]
pub struct ZshTool {
    pub sandbox: ToolSandbox,
}

impl ReadFileTool {
    pub fn new(sandbox: ToolSandbox) -> (t: Self)
        ensures
            t.sandbox == sandbox,
    {
        ReadFileTool { sandbox }
    }

    pub fn name(&self) -> (s: &'static str)
        ensures
            s@ == "read_file"@,
    {
        "read_file"
    }

    pub fn description(&self) -> (s: &'static str)
        ensures
            s@ == "Read a UTF-8 text file from the project workspace."@,
    {
        "Read a UTF-8 text file from the project workspace."
    }
}

impl WriteFileTool {
    pub fn new(sandbox: ToolSandbox) -> (t: Self)
        ensures
            t.sandbox == sandbox,
    {
        WriteFileTool { sandbox }
    }

    pub fn name(&self) -> (s: &'static str)
        ensures
            s@ == "write_file"@,
    {
        "write_file"
    }

    pub fn description(&self) -> (s: &'static str)
        ensures
            s@ == "Write UTF-8 text content to a file inside the project workspace."@,
    {
        "Write UTF-8 text content to a file inside the project workspace."
    }
}

impl ZshTool {
    pub fn new(sandbox: ToolSandbox) -> (t: Self)
        ensures
            t.sandbox == sandbox,
    {
        ZshTool { sandbox }
    }

    pub fn name(&self) -> (s: &'static str)
        ensures
            s@ == "zsh"@,
    {
        "zsh"
    }

    pub fn description(&self) -> (s: &'static str)
        ensures
            s@ == "Execute a zsh command in the project workspace and return stdout/stderr."@,
    {
        "Execute a zsh command in the project workspace and return stdout/stderr."
    }
}

/// The error that refuses a write through a symbolic link.
pub fn symlink_refusal(resolved: &str) -> (e: AgentError)
    ensures
        e matches AgentError::Other(m) && m@ == "Refusing to write through symlink: "@ + resolved@,
{
    let mut m = String::from_str("Refusing to write through symlink: ");
    m.append(resolved);
    AgentError::Other(m)
}

/// The answer of a successful write.
pub fn wrote_message(path: &str) -> (s: String)
    ensures
        s@ == "Wrote "@ + path@,
{
    let mut s = String::from_str("Wrote ");
    s.append(path);
    s
}

/// Decimal representation of `n`.
pub fn u64_to_decimal(n: u64) -> (s: String)
    ensures
        s@ == decimal(n as nat),
    decreases n,
{
    let d = (n % 10) as u8;
    let c = (48u8 + d) as char;
    if n < 10 {
        let mut s = String::new();
        crate::text::push_char(&mut s, c);
        s
    } else {
        let mut s = u64_to_decimal(n / 10);
        crate::text::push_char(&mut s, c);
        s
    }
}

/// Refuses a file larger than the read limit.
pub fn check_read_size(len: u64) -> (r: Result<(), AgentError>)
    ensures
        r is Ok <==> len <= MAX_READ_BYTES,
        r matches Err(AgentError::Other(m)) ==> m@ == "File is too large to read via tool: "@
            + decimal(len as nat) + " bytes"@,
        r is Err ==> r matches Err(AgentError::Other(_)),
{
    if len > MAX_READ_BYTES {
        let mut m = String::from_str("File is too large to read via tool: ");
        let digits = u64_to_decimal(len);
        m.append(digits.as_str());
        m.append(" bytes");
        Err(AgentError::Other(m))
    } else {
        Ok(())
    }
}

/// Number of leading characters of `s` that fit in `max` bytes.
pub open spec fn fitting_chars(s: Seq<char>, max: nat) -> int
    decreases s.len(),
{
    if s.len() == 0 {
        0
    } else if utf8_len(s) <= max {
        s.len() as int
    } else {
        fitting_chars(s.drop_last(), max)
    }
}

/// The notice appended to cut output.
pub open spec fn truncation_notice() -> Seq<char> {
    "\n[truncated: output exceeded "@ + decimal(MAX_OUTPUT_BYTES as nat) + " bytes]"@
}

/// Command output as returned to the model: unchanged when it fits in
/// `MAX_OUTPUT_BYTES` bytes, else its longest prefix that fits, followed by
/// a notice.
pub open spec fn truncated(s: Seq<char>) -> Seq<char> {
    if utf8_len(s) <= MAX_OUTPUT_BYTES {
        s
    } else {
        s.take(fitting_chars(s, MAX_OUTPUT_BYTES as nat)) + truncation_notice()
    }
}

pub proof fn lemma_fitting_chars(s: Seq<char>, max: nat)
    ensures
        0 <= fitting_chars(s, max) <= s.len(),
        utf8_len(s.take(fitting_chars(s, max))) <= max,
        fitting_chars(s, max) < s.len() ==> utf8_len(s.take(fitting_chars(s, max) + 1)) > max,
    decreases s.len(),
{
    if s.len() == 0 {
        assert(s.take(0) =~= s);
    } else if utf8_len(s) <= max {
        assert(s.take(s.len() as int) =~= s);
    } else {
        lemma_fitting_chars(s.drop_last(), max);
        let k = fitting_chars(s.drop_last(), max);
        assert(s.drop_last().take(k) =~= s.take(k));
        if k < s.len() - 1 {
            assert(s.drop_last().take(k + 1) =~= s.take(k + 1));
        } else {
            assert(s.take(k + 1) =~= s);
        }
    }
}

/// Two different prefix lengths: the byte length grows with the prefix.
pub proof fn lemma_utf8_len_prefix_mono(s: Seq<char>, i: int, j: int)
    requires
        0 <= i <= j <= s.len(),
    ensures
        utf8_len(s.take(i)) <= utf8_len(s.take(j)),
{
    assert(s.take(j).take(i) =~= s.take(i));
    lemma_utf8_len_prefix(s.take(j), i);
}

/// Cuts command output to the byte limit at a character boundary.
pub fn truncate_output(output: &str) -> (r: String)
    requires
        utf8_len(output@) <= usize::MAX,
    ensures
        r@ == truncated(output@),
{
    proof {
        crate::text::lemma_utf8_len_encode(output@);
    }
    let total = output.len();
    if total <= MAX_OUTPUT_BYTES {
        return String::from_str(output);
    }
    let n = output.unicode_len();
    let mut k: usize = 0;
    let mut bytes: usize = 0;
    proof {
        lemma_fitting_chars(output@, MAX_OUTPUT_BYTES as nat);
    }
    while k < n
        invariant
            n == output@.len(),
            k <= n,
            bytes == utf8_len(output@.take(k as int)),
            bytes <= MAX_OUTPUT_BYTES,
            k <= fitting_chars(output@, MAX_OUTPUT_BYTES as nat),
            utf8_len(output@) > MAX_OUTPUT_BYTES,
            0 <= fitting_chars(output@, MAX_OUTPUT_BYTES as nat) <= output@.len(),
            utf8_len(output@.take(fitting_chars(output@, MAX_OUTPUT_BYTES as nat))) <= MAX_OUTPUT_BYTES,
            fitting_chars(output@, MAX_OUTPUT_BYTES as nat) < output@.len() ==> utf8_len(
                output@.take(fitting_chars(output@, MAX_OUTPUT_BYTES as nat) + 1),
            ) > MAX_OUTPUT_BYTES,
        ensures
            k == fitting_chars(output@, MAX_OUTPUT_BYTES as nat),
        decreases n - k,
    {
        let c = output.get_char(k);
        let w = char_len_utf8(c);
        proof {
            assert(output@.take(k + 1) =~= output@.take(k as int).push(c));
            lemma_utf8_len_push(output@.take(k as int), c);
        }
        if bytes + w > MAX_OUTPUT_BYTES {
            proof {
                let f = fitting_chars(output@, MAX_OUTPUT_BYTES as nat);
                if k < f {
                    lemma_utf8_len_prefix_mono(output@, k + 1, f);
                }
            }
            break;
        }
        bytes = bytes + w;
        k = k + 1;
    }
    let mut r = String::from_str(output.substring_char(0, k));
    r.append("\n[truncated: output exceeded ");
    let digits = crate::text::usize_to_decimal(MAX_OUTPUT_BYTES);
    r.append(digits.as_str());
    r.append(" bytes]");
    r
}

/// The shell tool's report of a finished command, cut to the byte limit.
pub fn zsh_report(status: &str, stdout: &str, stderr: &str) -> (r: String)
    requires
        utf8_len("status: "@ + status@ + "\nstdout:\n"@ + stdout@ + "\nstderr:\n"@ + stderr@)
            <= usize::MAX,
    ensures
        r@ == truncated("status: "@ + status@ + "\nstdout:\n"@ + stdout@ + "\nstderr:\n"@ + stderr@),
{
    let mut s = String::from_str("status: ");
    s.append(status);
    s.append("\nstdout:\n");
    s.append(stdout);
    s.append("\nstderr:\n");
    s.append(stderr);
    truncate_output(s.as_str())
}

} // verus!
