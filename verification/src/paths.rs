use vstd::prelude::*;

verus! {

/// The position of the last `c` in `s`, or -1.
pub open spec fn last_index_of(s: Seq<char>, c: char) -> int
    decreases s.len(),
{
    if s.len() == 0 {
        -1
    } else if s.last() == c {
        s.len() - 1
    } else {
        last_index_of(s.drop_last(), c)
    }
}

/// Where the file name of `p` begins: after its last `/`.
pub open spec fn name_start(p: Seq<char>) -> int {
    last_index_of(p, '/') + 1
}

/// The last component of `p` as written, after its last `/`.
pub open spec fn file_name(p: Seq<char>) -> Seq<char> {
    p.skip(name_start(p))
}

/// A path whose last component is an ordinary file name: not empty (so the path
/// does not end in `/`), and neither `.` nor `..`.
pub open spec fn plain_file_path(p: Seq<char>) -> bool {
    &&& file_name(p).len() > 0
    &&& file_name(p) != "."@
    &&& file_name(p) != ".."@
}

/// Where the file stem ends: at the last `.` of the file name when that dot is not
/// its first character, else at the end of the path.
pub open spec fn stem_end(p: Seq<char>) -> int {
    if last_index_of(p, '.') > name_start(p) {
        last_index_of(p, '.')
    } else {
        p.len() as int
    }
}

/// `p` with its extension replaced by `ext` (or `ext` added where it has none), as
/// std documents `Path::with_extension` for a path ending in a file name.
pub open spec fn replaced_extension(p: Seq<char>, ext: Seq<char>) -> Seq<char> {
    p.take(stem_end(p)) + "."@ + ext
}

/// The name for what `Path::with_extension` makes of a path and an extension.
pub uninterp spec fn path_with_extension(path: Seq<char>, ext: Seq<char>) -> Seq<char>;

/// `std::path::Path::with_extension`, rendered back to text. Its result is named by
/// `path_with_extension`; for a path that ends in an ordinary file name and a
/// non-empty extension it is the path up to the file stem, a dot, and the
/// extension, as the documentation of `PathBuf::set_extension` and
/// `Path::file_stem` describes. Nothing is stated of other paths (such as those
/// ending in `/` or `..`) beyond the name. The contract is that of a Unix target,
/// where `/` is the only path separator: on Windows `\` separates components too,
/// and neither the second clause nor the `requires` accounts for it.
#[verifier::external_body]
pub(crate) fn with_extension(path: &str, ext: &str) -> (res: String)
    requires
        !ext@.contains('/'),
    ensures
        res@ == path_with_extension(path@, ext@),
        plain_file_path(path@) && ext@.len() > 0 ==> res@ == replaced_extension(path@, ext@),
{
    std::path::Path::new(path).with_extension(ext).to_string_lossy().into_owned()
}

} // verus!
