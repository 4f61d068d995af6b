//! Helpers for the local-image side: filtering a directory listing down to
//! image files and deriving file names from URLs.  The directory walk and
//! the file reads stay with the caller; the selection logic lives here.
use vstd::prelude::*;

verus! {

/// The character code of `c` with an ASCII upper-case letter folded to its
/// lower-case counterpart.
pub open spec fn lower_code(c: char) -> int {
    if 'A' <= c && c <= 'Z' {
        c as u32 + 32
    } else {
        c as u32 as int
    }
}

/// Case-insensitive (ASCII) equality of two character sequences.
pub open spec fn eq_ignore_ascii_case_spec(a: Seq<char>, b: Seq<char>) -> bool {
    a.len() == b.len() && forall|i: int| 0 <= i < a.len() ==> lower_code(a[i]) == lower_code(b[i])
}

/// Compares two strings, folding ASCII letter case.
pub fn eq_ignore_ascii_case(a: &str, b: &str) -> (r: bool)
    ensures
        r == eq_ignore_ascii_case_spec(a@, b@),
{
    let n = a.unicode_len();
    if n != b.unicode_len() {
        return false;
    }
    let mut i: usize = 0;
    while i < n
        invariant
            n == a@.len(),
            n == b@.len(),
            i <= n,
            forall|k: int| 0 <= k < i ==> lower_code(a@[k]) == lower_code(b@[k]),
        decreases n - i,
    {
        let ca = a.get_char(i) as u32;
        let cb = b.get_char(i) as u32;
        let la = if ca >= 65 && ca <= 90 {
            ca + 32
        } else {
            ca
        };
        let lb = if cb >= 65 && cb <= 90 {
            cb + 32
        } else {
            cb
        };
        if la != lb {
            return false;
        }
        i += 1;
    }
    true
}

/// The file-name extensions accepted as images, compared without regard to
/// ASCII case.
pub open spec fn supported_ext_spec(e: Seq<char>) -> bool {
    ||| eq_ignore_ascii_case_spec(e, "jpeg"@)
    ||| eq_ignore_ascii_case_spec(e, "jpg"@)
    ||| eq_ignore_ascii_case_spec(e, "png"@)
    ||| eq_ignore_ascii_case_spec(e, "gif"@)
    ||| eq_ignore_ascii_case_spec(e, "bmp"@)
}

/// Whether `ext` names a supported image format.
pub fn match_ext(ext: &str) -> (r: bool)
    ensures
        r == supported_ext_spec(ext@),
{
    eq_ignore_ascii_case(ext, "jpeg") || eq_ignore_ascii_case(ext, "jpg") || eq_ignore_ascii_case(
        ext,
        "png",
    ) || eq_ignore_ascii_case(ext, "gif") || eq_ignore_ascii_case(ext, "bmp")
}

/// The last index of `c` in `s`, if any.
pub open spec fn rfind_spec(s: Seq<char>, c: char) -> Option<int>
    decreases s.len(),
{
    if s.len() == 0 {
        None
    } else if s.last() == c {
        Some(s.len() - 1)
    } else {
        rfind_spec(s.drop_last(), c)
    }
}

/// The part of `url` after its last slash — the whole of it when it has
/// none.
pub open spec fn file_name_spec(url: Seq<char>) -> Seq<char> {
    match rfind_spec(url, '/') {
        Some(i) => url.subrange(i + 1, url.len() as int),
        None => url,
    }
}

/// Scans `s` backwards for `c`.
fn rfind(s: &str, c: char) -> (r: Option<usize>)
    ensures
        match r {
            Some(i) => rfind_spec(s@, c) == Some(i as int) && i < s@.len(),
            None => rfind_spec(s@, c) is None,
        },
{
    let n = s.unicode_len();
    let mut i: usize = n;
    assert(s@.take(n as int) =~= s@);
    while i > 0
        invariant
            n == s@.len(),
            i <= n,
            rfind_spec(s@, c) == rfind_spec(s@.take(i as int), c),
        decreases i,
    {
        assert(s@.take(i as int).last() == s@[i - 1]);
        assert(s@.take(i as int).drop_last() =~= s@.take(i - 1));
        if s.get_char(i - 1) == c {
            return Some(i - 1);
        }
        i -= 1;
    }
    assert(s@.take(0) =~= Seq::<char>::empty());
    None
}

/// The file name carried by `url`: the part after the last slash, or the
/// whole text when it holds none.
pub fn file_name_of(url: &str) -> (r: String)
    ensures
        r@ == file_name_spec(url@),
{
    let n = url.unicode_len();
    match rfind(url, '/') {
        Some(i) => url.substring_char(i + 1, n).to_owned(),
        None => url.to_owned(),
    }
}

/// The extension of `path`: the part of its file name after the last dot,
/// absent when the file name has no dot or opens with its only dot (a
/// hidden file).
pub open spec fn extension_spec(path: Seq<char>) -> Option<Seq<char>> {
    let name = file_name_spec(path);
    match rfind_spec(name, '.') {
        Some(i) => if i > 0 {
            Some(name.subrange(i + 1, name.len() as int))
        } else {
            None
        },
        None => None,
    }
}

/// Whether `path` names a file of a supported image format.
pub open spec fn is_image_path(path: Seq<char>) -> bool {
    match extension_spec(path) {
        Some(e) => supported_ext_spec(e),
        None => false,
    }
}

/// Tells whether `path` carries a supported image extension.
pub fn has_supported_ext(path: &str) -> (r: bool)
    ensures
        r == is_image_path(path@),
{
    let n = path.unicode_len();
    let start = match rfind(path, '/') {
        Some(i) => i + 1,
        None => 0,
    };
    let name = path.substring_char(start, n);
    assert(name@ == file_name_spec(path@));
    let m = name.unicode_len();
    match rfind(name, '.') {
        Some(i) => {
            if i > 0 {
                match_ext(name.substring_char(i + 1, m))
            } else {
                false
            }
        },
        None => false,
    }
}

/// The image paths among `paths`, kept in order.
pub open spec fn image_paths(paths: Seq<Seq<char>>) -> Seq<Seq<char>>
    decreases paths.len(),
{
    if paths.len() == 0 {
        Seq::empty()
    } else {
        image_paths(paths.drop_last()) + if is_image_path(paths.last()) {
            seq![paths.last()]
        } else {
            Seq::empty()
        }
    }
}

/// Keeps the paths that name image files, in their given order.  The caller
/// walks the directory tree and hands every entry's path here.
pub fn load(paths: &Vec<String>) -> (r: Vec<String>)
    ensures
        r.deep_view() == image_paths(paths.deep_view()),
{
    let mut out: Vec<String> = Vec::new();
    let mut i: usize = 0;
    while i < paths.len()
        invariant
            i <= paths@.len(),
            out.deep_view() =~= image_paths(paths.deep_view().take(i as int)),
        decreases paths@.len() - i,
    {
        proof {
            assert(paths.deep_view().take(i + 1).drop_last() =~= paths.deep_view().take(i as int));
            assert(paths.deep_view().take(i + 1).last() == paths.deep_view()[i as int]);
            assert(paths.deep_view()[i as int] == paths@[i as int]@);
        }
        if has_supported_ext(paths[i].as_str()) {
            out.push(paths[i].clone());
        }
        i += 1;
    }
    assert(paths.deep_view().take(paths@.len() as int) =~= paths.deep_view());
    out
}

} // verus!
