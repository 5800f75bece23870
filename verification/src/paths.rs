//! Path arithmetic on textual paths, with the joining rule of Unix
//! `PathBuf::push`.

use vstd::prelude::*;

verus! {

/// `base` joined with `part`: an absolute `part` replaces `base`; otherwise a
/// separator is put between them when `base` is non-empty and does not already
/// end with one.
pub open spec fn join_spec(base: Seq<char>, part: Seq<char>) -> Seq<char> {
    if part.len() > 0 && part[0] == '/' {
        part
    } else if base.len() > 0 && base.last() != '/' {
        base + seq!['/'] + part
    } else {
        base + part
    }
}

/// Joins `part` onto `base`.
pub fn join_path(base: &str, part: &str) -> (p: String)
    ensures
        p@ == join_spec(base@, part@),
{
    let plen = part.unicode_len();
    if plen > 0 && part.get_char(0) == '/' {
        return String::from_str(part);
    }
    let blen = base.unicode_len();
    if blen > 0 && base.get_char(blen - 1) != '/' {
        proof {
            reveal_strlit("/");
        }
        String::from_str(base).concat("/").concat(part)
    } else {
        String::from_str(base).concat(part)
    }
}

/// Whether the path `path` begins with the path `base`, whole component by
/// whole component, as `std::path::Path::starts_with` decides it.
pub uninterp spec fn path_has_base(path: Seq<char>, base: Seq<char>) -> bool;

/// Calls `std::path::Path::starts_with`. Claimed: the answer depends on the
/// two texts alone.
#[verifier::external_body]
pub(crate) fn path_starts_with(path: &str, base: &str) -> (b: bool)
    ensures
        b == path_has_base(path@, base@),
{
    std::path::Path::new(path).starts_with(base)
}

} // verus!
