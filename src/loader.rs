//! Configuration files under a root directory.
use vstd::prelude::*;

verus! {

/// The characters `.cue`.
pub open spec fn cue_suffix() -> Seq<char> {
    seq!['.', 'c', 'u', 'e']
}

/// Whether a file name has the extension `cue`: it ends in `.cue` and has
/// at least one character before that dot.
pub open spec fn is_cue_file_name(name: Seq<char>) -> bool {
    name.len() > 4 && name.subrange(name.len() - 4, name.len() as int) == cue_suffix()
}

/// Whether a file name has the extension `cue`.
pub fn has_cue_extension(name: &str) -> (r: bool)
    ensures
        r == is_cue_file_name(name@),
{
    let n = name.unicode_len();
    if n <= 4 {
        return false;
    }
    let suffix = ['.', 'c', 'u', 'e'];
    let mut i: usize = 0;
    while i < 4
        invariant
            n == name@.len(),
            n > 4,
            i <= 4,
            suffix@ == cue_suffix(),
            forall|j: int| 0 <= j < i ==> name@[n - 4 + j] == cue_suffix()[j],
        decreases 4 - i,
    {
        if name.get_char(n - 4 + i) != suffix[i] {
            assert(name@.subrange(n - 4, n as int)[i as int] != cue_suffix()[i as int]);
            return false;
        }
        i = i + 1;
    }
    assert(name@.subrange(n - 4, n as int) =~= cue_suffix());
    true
}

/// The names among `names` that have the extension `cue`, in order.
pub fn cue_file_names(names: &Vec<String>) -> (r: Vec<String>)
    ensures
        r@.map_values(|s: String| s@) == names@.map_values(|s: String| s@).filter(
            |s: Seq<char>| is_cue_file_name(s),
        ),
{
    let mut r: Vec<String> = Vec::new();
    let mut i: usize = 0;
    while i < names.len()
        invariant
            i <= names@.len(),
            r@.map_values(|s: String| s@) == names@.subrange(0, i as int).map_values(|s: String| s@).filter(
                |s: Seq<char>| is_cue_file_name(s),
            ),
        decreases names@.len() - i,
    {
        let ghost before = names@.subrange(0, i as int).map_values(|s: String| s@);
        let ghost after = names@.subrange(0, i + 1).map_values(|s: String| s@);
        proof {
            assert(after.drop_last() =~= before);
            assert(after.last() == names@[i as int]@);
            reveal(Seq::filter);
        }
        if has_cue_extension(names[i].as_str()) {
            let ghost r0 = r@;
            r.push(names[i].clone());
            proof {
                assert(r@.map_values(|s: String| s@) =~= r0.map_values(|s: String| s@).push(names@[i as int]@));
            }
        }
        i = i + 1;
    }
    assert(names@.subrange(0, names@.len() as int) =~= names@);
    r
}

/// Reads configuration files under a root directory.
pub struct FileLoader {
    root_path: String,
}

impl FileLoader {
    /// The directory the loader reads under.
    pub closed spec fn root(&self) -> Seq<char> {
        self.root_path@
    }

    /// A loader reading under `root_path`.
    pub fn new(root_path: String) -> (r: FileLoader)
        ensures
            r.root() == root_path@,
    {
        FileLoader { root_path }
    }

    /// The directory the loader reads under.
    pub fn root_path(&self) -> (r: &str)
        ensures
            r@ == self.root(),
    {
        self.root_path.as_str()
    }
}

} // verus!
