//! File-system paths as text. Two paths are joined as `std::path` joins
//! them where `/` parts directories. Whether two texts are the same path,
//! and whether one lies under the other, `std::path` decides; this module
//! gives those decisions names that contracts can speak of.

use vstd::prelude::*;

verus! {

/// The path `part` as seen from the directory `base`, as `PathBuf::push`
/// joins the two: `part` itself where it begins at the root; else `base`
/// and `part`, with a `/` between them unless `base` is empty or ends in
/// one.
pub open spec fn path_joined(base: Seq<char>, part: Seq<char>) -> Seq<char> {
    if part.len() > 0 && part[0] == '/' {
        part
    } else if base.len() == 0 || base[base.len() - 1] == '/' {
        base + part
    } else {
        base + seq!['/'] + part
    }
}

/// Whether `std::path::Path` holds two texts to be the same path.
pub uninterp spec fn same_path(a: Seq<char>, b: Seq<char>) -> bool;

/// Whether `Path::starts_with` holds `base` to be a leading part of `path`,
/// component by component.
pub uninterp spec fn path_under(path: Seq<char>, base: Seq<char>) -> bool;

/// The path `part` as seen from the directory `base`.
pub(crate) fn join_path(base: &str, part: &str) -> (joined: String)
    ensures
        joined@ == path_joined(base@, part@),
{
    if part.unicode_len() > 0 && part.get_char(0) == '/' {
        return part.to_owned();
    }
    let mut joined = String::new();
    joined.append(base);
    let n = base.unicode_len();
    if n > 0 && base.get_char(n - 1) != '/' {
        proof {
            reveal_strlit("/");
        }
        joined.append("/");
    }
    joined.append(part);
    assert(joined@ =~= path_joined(base@, part@));
    joined
}

/// `Path`'s `==`: the answer depends on the two texts alone and is named by
/// `same_path`.
#[verifier::external_body]
pub(crate) fn paths_equal(a: &str, b: &str) -> (equal: bool)
    ensures
        equal == same_path(a@, b@),
{
    std::path::Path::new(a) == std::path::Path::new(b)
}

/// `Path::starts_with`: the answer depends on the two texts alone and is
/// named by `path_under`.
#[verifier::external_body]
pub(crate) fn path_starts_with(path: &str, base: &str) -> (under: bool)
    ensures
        under == path_under(path@, base@),
{
    std::path::Path::new(path).starts_with(base)
}

/// Whether `prefix` is how `text` begins, character by character.
pub(crate) fn text_starts_with(text: &str, prefix: &str) -> (starts: bool)
    ensures
        starts == prefix@.is_prefix_of(text@),
{
    let n = prefix.unicode_len();
    if n > text.unicode_len() {
        return false;
    }
    let mut i: usize = 0;
    while i < n
        invariant
            i <= n,
            n == prefix@.len(),
            n <= text@.len(),
            forall|k: int| 0 <= k < i ==> text@[k] == prefix@[k],
        decreases n - i,
    {
        if text.get_char(i) != prefix.get_char(i) {
            assert(text@.subrange(0, n as int)[i as int] != prefix@[i as int]);
            return false;
        }
        i = i + 1;
    }
    assert(prefix@ =~= text@.subrange(0, n as int));
    true
}

} // verus!
