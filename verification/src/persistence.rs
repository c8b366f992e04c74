//! Saved sessions: where a save lives and which files are saves. Reading
//! and writing the files is done by the caller.

use vstd::prelude::*;
use crate::message::Message;
use crate::tools::joined_path;

verus! {

/// What a save holds.
#[derive(Debug)]
pub struct SaveState {
    pub messages: Vec<Message>,
    pub scene_id: Option<String>,
    pub metadata: serde_json::Value,
}

/// The extension of a path (`std::path::Path::extension`).
pub uninterp spec fn path_extension(p: Seq<char>) -> Option<Seq<char>>;

/// The file name of a path without its extension (`std::path::Path::file_stem`).
pub uninterp spec fn path_file_stem(p: Seq<char>) -> Option<Seq<char>>;

/// `std::path::Path::extension`, as text.
#[verifier::external_body]
fn extension_of(p: &str) -> (e: Option<String>)
    ensures
        crate::message::opt_str_view(e) == path_extension(p@),
{
    std::path::Path::new(p).extension().map(|e| e.to_string_lossy().into_owned())
}

/// `std::path::Path::file_stem`, as text.
#[verifier::external_body]
fn file_stem_of(p: &str) -> (s: Option<String>)
    ensures
        crate::message::opt_str_view(s) == path_file_stem(p@),
{
    std::path::Path::new(p).file_stem().map(|s| s.to_string_lossy().into_owned())
}

/// Saves kept as JSON files in a directory.
#[derive(Debug, Clone)]
pub struct MemoryStore {
    base_path: String,
}

/// The name of a save among the given file paths, in order: the stems of
/// the `.json` files.
pub open spec fn save_names_spec(paths: Seq<Seq<char>>) -> Seq<Seq<char>>
    decreases paths.len(),
{
    if paths.len() == 0 {
        Seq::empty()
    } else {
        let prev = save_names_spec(paths.drop_last());
        let p = paths.last();
        if path_extension(p) == Some("json"@) && path_file_stem(p) is Some {
            prev.push(path_file_stem(p)->0)
        } else {
            prev
        }
    }
}

impl MemoryStore {
    /// A store in the given directory.
    pub fn new(base_path: String) -> (s: Self)
        ensures
            s.base() == base_path@,
    {
        MemoryStore { base_path }
    }

    /// The directory.
    pub closed spec fn base(&self) -> Seq<char> {
        self.base_path@
    }

    /// The directory.
    pub fn path(&self) -> (p: &str)
        ensures
            p@ == self.base(),
    {
        self.base_path.as_str()
    }

    /// The file of the save with the given name: `<name>.json` in the
    /// directory.
    pub fn save_path(&self, name: &str) -> (p: String)
        ensures
            p@ == joined_path(self.base(), name@ + ".json"@),
    {
        let mut file = String::from_str(name);
        file.append(".json");
        crate::tools::path_join(self.base_path.as_str(), file.as_str())
    }

    /// The names of the saves among the paths of the directory's entries.
    pub fn save_names(&self, paths: &Vec<String>) -> (names: Vec<String>)
        ensures
            crate::types::strs_view(names@) == save_names_spec(crate::types::strs_view(paths@)),
    {
        let ghost ps = crate::types::strs_view(paths@);
        let mut out: Vec<String> = Vec::new();
        let mut i: usize = 0;
        while i < paths.len()
            invariant
                i <= paths@.len(),
                ps == crate::types::strs_view(paths@),
                crate::types::strs_view(out@) == save_names_spec(ps.take(i as int)),
            decreases paths@.len() - i,
        {
            proof {
                assert(ps.take(i + 1).drop_last() =~= ps.take(i as int));
                assert(ps.take(i + 1).last() == paths@[i as int]@);
            }
            let p = paths[i].as_str();
            let is_json = match extension_of(p) {
                Some(e) => crate::command::strs_equal(e.as_str(), "json"),
                None => false,
            };
            if is_json {
                match file_stem_of(p) {
                    Some(stem) => {
                        proof {
                            crate::director::lemma_strs_view_push(out@, stem);
                        }
                        out.push(stem);
                    },
                    None => {},
                }
            }
            i = i + 1;
        }
        assert(ps.take(paths@.len() as int) =~= ps);
        out
    }
}

} // verus!
