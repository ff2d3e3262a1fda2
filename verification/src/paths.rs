//! Path-string arithmetic: final segments, extensions, staging names.
//!
//! Members are keyed by their path string, and the engine derives a few
//! names from such strings: the final segment of the archive path names the
//! scratch container a rewrite is staged in, the extension selects the
//! container format, and a decompression writes next to its source under
//! the source's name without the compressed suffix.  All of it is plain
//! character arithmetic, defined here once and exactly.

use vstd::prelude::*;

use crate::error::ArchiveError;

verus! {

/// The position right after the last occurrence of `mark` in `s`; 0 when
/// `s` does not contain it.
pub open spec fn after_last(s: Seq<char>, mark: char) -> int
    decreases s.len(),
{
    if s.len() == 0 {
        0
    } else if s.last() == mark {
        s.len() as int
    } else {
        after_last(s.drop_last(), mark)
    }
}

/// `after_last` always points inside the sequence.
pub proof fn lemma_after_last_bounds(s: Seq<char>, mark: char)
    ensures
        0 <= after_last(s, mark) <= s.len(),
    decreases s.len(),
{
    if s.len() > 0 && s.last() != mark {
        lemma_after_last_bounds(s.drop_last(), mark);
    }
}

/// The final segment of a path: everything after the last `'/'`, the whole
/// path when there is none.
pub open spec fn final_segment(s: Seq<char>) -> Seq<char> {
    s.subrange(after_last(s, '/'), s.len() as int)
}

/// Whether a final segment can name anything: it must be non-empty and must
/// not be one of the relative markers.
pub open spec fn usable_segment(seg: Seq<char>) -> bool {
    seg.len() > 0 && seg != "."@ && seg != ".."@
}

/// The extension of a path: what follows the last `'.'` of the final
/// segment.  A segment without a dot has none, and a leading dot alone
/// marks a hidden name, not an extension.
pub open spec fn extension_of(s: Seq<char>) -> Option<Seq<char>> {
    let seg = final_segment(s);
    let d = after_last(seg, '.');
    if d <= 1 {
        None
    } else {
        Some(seg.subrange(d, seg.len() as int))
    }
}

/// A compressed name without its `".br"` suffix; a name that does not carry
/// the suffix is kept as it is.
pub open spec fn without_br_suffix(name: Seq<char>) -> Seq<char> {
    if name.len() >= 3 && name.subrange(name.len() - 3, name.len() as int) == ".br"@ {
        name.subrange(0, name.len() - 3)
    } else {
        name
    }
}

/// Finds the position right after the last occurrence of `mark`, 0 when
/// there is none.
fn scan_after_last(s: &str, mark: char) -> (r: usize)
    ensures
        r == after_last(s@, mark),
{
    let n: usize = s.unicode_len();
    let mut cut: usize = 0;
    let mut i: usize = 0;
    while i < n
        invariant
            n == s@.len(),
            i <= n,
            cut == after_last(s@.take(i as int), mark),
        decreases n - i,
    {
        let ghost prefix = s@.take(i as int);
        if s.get_char(i) == mark {
            cut = i + 1;
        }
        proof {
            assert(s@.take(i + 1 as int).drop_last() =~= prefix);
            assert(s@.take(i + 1 as int).last() == s@[i as int]);
        }
        i += 1;
    }
    proof {
        assert(s@.take(n as int) =~= s@);
    }
    cut
}

/// The final segment of `path`, when it can name anything.
///
/// The scratch container of a rewrite is named after this segment; a path
/// that ends in a separator or a relative marker has no such name and is
/// reported as unencodable by the callers.
pub fn final_path_segment(path: &str) -> (r: Option<String>)
    ensures
        match r {
            Some(name) => usable_segment(final_segment(path@)) && name@ == final_segment(path@),
            None => !usable_segment(final_segment(path@)),
        },
{
    let n: usize = path.unicode_len();
    let cut: usize = scan_after_last(path, '/');
    proof {
        lemma_after_last_bounds(path@, '/');
    }
    let seg = path.substring_char(cut, n);
    if seg.unicode_len() == 0 {
        return None;
    }
    let seg = seg.to_owned();
    if seg.eq(&String::from_str(".")) || seg.eq(&String::from_str("..")) {
        None
    } else {
        Some(seg)
    }
}

/// The path of the scratch container: the archive's final segment placed
/// inside the scratch directory.
///
/// An archive path without a usable final segment cannot name its scratch
/// copy and is rejected as unencodable, as reading the archive's name is
/// where a rewrite first fails on such a path.
pub fn scratch_archive_path(scratch_dir: &str, archive_path: &str) -> (r: Result<
    String,
    ArchiveError,
>)
    ensures
        match r {
            Ok(p) => usable_segment(final_segment(archive_path@)) && p@ == scratch_dir@ + "/"@
                + final_segment(archive_path@),
            Err(e) => e == ArchiveError::DataEncoding && !usable_segment(
                final_segment(archive_path@),
            ),
        },
{
    match final_path_segment(archive_path) {
        Some(name) => Ok(String::from_str(scratch_dir).concat("/").concat(name.as_str())),
        None => Err(ArchiveError::DataEncoding),
    }
}

/// The extension of `path`, as `extension_of` defines it.
pub fn archive_extension(path: &str) -> (r: Option<String>)
    ensures
        match r {
            Some(e) => extension_of(path@) == Some(e@),
            None => extension_of(path@) is None,
        },
{
    let n: usize = path.unicode_len();
    let cut: usize = scan_after_last(path, '/');
    proof {
        lemma_after_last_bounds(path@, '/');
    }
    let seg = path.substring_char(cut, n);
    let m: usize = seg.unicode_len();
    let dot: usize = scan_after_last(seg, '.');
    proof {
        lemma_after_last_bounds(seg@, '.');
    }
    if dot <= 1 {
        None
    } else {
        Some(seg.substring_char(dot, m).to_owned())
    }
}

/// The target a decompression writes to: the destination followed by the
/// source's name without its compressed suffix.
pub fn decompression_target(destination: &str, source_name: &str) -> (r: String)
    ensures
        r@ == destination@ + without_br_suffix(source_name@),
{
    let n: usize = source_name.unicode_len();
    let stripped = if n >= 3 {
        let suffix = source_name.substring_char(n - 3, n);
        if suffix.to_owned().eq(&String::from_str(".br")) {
            source_name.substring_char(0, n - 3)
        } else {
            source_name
        }
    } else {
        source_name
    };
    String::from_str(destination).concat(stripped)
}

} // verus!
