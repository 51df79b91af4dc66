use vstd::prelude::*;
use vstd::string::*;

use crate::ids::{id_text, id_to_text};

verus! {

/// `part` appended to path `base`, with one `/` between them: none is added
/// after an empty base or one that already ends in `/`.
pub open spec fn join_path(base: Seq<char>, part: Seq<char>) -> Seq<char> {
    if base.len() == 0 {
        part
    } else if base.last() == '/' {
        base + part
    } else {
        base + seq!['/'] + part
    }
}

/// Joins `part` to path `base`.
pub fn join(base: &str, part: &str) -> (r: String)
    ensures
        r@ == join_path(base@, part@),
{
    let n = base.unicode_len();
    if n == 0 {
        return part.to_owned();
    }
    let joined = if base.get_char(n - 1) == '/' {
        base.to_owned().concat(part)
    } else {
        proof {
            reveal_strlit("/");
        }
        base.to_owned().concat("/").concat(part)
    };
    joined
}

/// Artifacts kept as files under a root directory, one directory per run.
pub struct LocalStorage {
    root: String,
}

impl LocalStorage {
    /// The root directory.
    pub closed spec fn spec_root(&self) -> Seq<char> {
        self.root@
    }

    /// Storage under directory `root`.
    pub fn new(root: &str) -> (s: LocalStorage)
        ensures
            s.spec_root() == root@,
    {
        LocalStorage { root: root.to_owned() }
    }

    pub fn root(&self) -> (r: &String)
        ensures
            r@ == self.spec_root(),
    {
        &self.root
    }

    /// The directory of run `run_id`: the run's identity under the root.
    pub fn run_dir(&self, run_id: u128) -> (r: String)
        ensures
            r@ == join_path(self.spec_root(), id_text(run_id)),
    {
        let id = id_to_text(run_id);
        join(self.root.as_str(), id.as_str())
    }

    /// The file of artifact `name` of run `run_id`: `name` in the run's
    /// directory.
    pub fn artifact_path(&self, run_id: u128, name: &str) -> (r: String)
        ensures
            r@ == join_path(join_path(self.spec_root(), id_text(run_id)), name@),
    {
        let dir = self.run_dir(run_id);
        join(dir.as_str(), name)
    }
}

} // verus!
