//! Path text as the pipeline reads it: '/'-separated, the file name after
//! the last separator, the extension after the file name's last dot.
use vstd::prelude::*;

verus! {

/// Index of the last occurrence of `c` in `s`, or -1.
pub open spec fn last_index_of(s: Seq<char>, c: char) -> int
    decreases s.len(),
{
    if s.len() == 0 {
        -1
    } else if s.last() == c {
        s.len() - 1
    } else {
        last_index_of(s.drop_last(), c)
    }
}

/// Where the file name starts: after the last '/'.
pub open spec fn file_name_start(p: Seq<char>) -> int {
    last_index_of(p, '/') + 1
}

/// The file name: the text after the last '/'.
pub open spec fn file_name(p: Seq<char>) -> Seq<char> {
    p.subrange(file_name_start(p), p.len() as int)
}

/// Index, within the file name, of the dot that starts the extension; a
/// leading dot (a hidden file) starts none. -1 when there is no extension.
pub open spec fn ext_dot(p: Seq<char>) -> int {
    let d = last_index_of(file_name(p), '.');
    if d > 0 { d } else { -1 }
}

/// The extension: the file name after its last dot, empty when none.
pub open spec fn extension(p: Seq<char>) -> Seq<char> {
    let n = file_name(p);
    if ext_dot(p) > 0 {
        n.subrange(ext_dot(p) + 1, n.len() as int)
    } else {
        Seq::empty()
    }
}

/// The file stem: the file name without its extension and that dot.
pub open spec fn file_stem(p: Seq<char>) -> Seq<char> {
    let n = file_name(p);
    if ext_dot(p) > 0 {
        n.subrange(0, ext_dot(p))
    } else {
        n
    }
}

pub proof fn lemma_last_index_bounds(s: Seq<char>, c: char)
    ensures
        -1 <= last_index_of(s, c) < s.len(),
        last_index_of(s, c) >= 0 ==> s[last_index_of(s, c)] == c,
        forall|j: int| last_index_of(s, c) < j < s.len() ==> s[j] != c,
    decreases s.len(),
{
    if s.len() > 0 && s.last() != c {
        lemma_last_index_bounds(s.drop_last(), c);
        assert forall|j: int| last_index_of(s, c) < j < s.len() implies s[j] != c by {
            if j < s.len() - 1 {
                assert(s[j] == s.drop_last()[j]);
            }
        }
    }
}

/// Finds the last occurrence of `c` in `s[from..to]`, as an index into `s`.
pub fn find_last(s: &str, c: char, from: usize, to: usize) -> (r: Option<usize>)
    requires
        from <= to <= s@.len(),
    ensures
        r matches Some(i) ==> from <= i < to && last_index_of(s@.subrange(from as int, to as int), c) == i - from,
        r is None ==> last_index_of(s@.subrange(from as int, to as int), c) == -1,
{
    let mut i: usize = to;
    while i > from
        invariant
            from <= i <= to <= s@.len(),
            last_index_of(s@.subrange(from as int, to as int), c) == last_index_of(
                s@.subrange(from as int, i as int),
                c,
            ),
        decreases i,
    {
        let ch = s.get_char(i - 1);
        assert(s@.subrange(from as int, i as int).drop_last() =~= s@.subrange(from as int, i - 1));
        if ch == c {
            return Some(i - 1);
        }
        i = i - 1;
    }
    None
}

/// Start of the file name of `p`, as a character index.
pub fn name_start(p: &str) -> (r: usize)
    ensures
        r == file_name_start(p@),
        r <= p@.len(),
{
    let n = p.unicode_len();
    assert(p@.subrange(0, n as int) =~= p@);
    proof {
        lemma_last_index_bounds(p@, '/');
    }
    match find_last(p, '/', 0, n) {
        Some(i) => i + 1,
        None => 0,
    }
}

/// Character index in `p` of the dot that starts the extension, if any.
pub fn extension_dot(p: &str) -> (r: Option<usize>)
    ensures
        r matches Some(i) ==> ext_dot(p@) > 0 && i == file_name_start(p@) + ext_dot(p@) && i < p@.len(),
        r is None ==> ext_dot(p@) == -1,
{
    let n = p.unicode_len();
    let s = name_start(p);
    proof {
        lemma_last_index_bounds(file_name(p@), '.');
    }
    match find_last(p, '.', s, n) {
        Some(i) => {
            if i > s {
                Some(i)
            } else {
                None
            }
        },
        None => None,
    }
}

/// Whether `path` is `base` or lies below it.
pub open spec fn lies_under(path: Seq<char>, base: Seq<char>) -> bool {
    path == base || (path.len() > base.len() && path.subrange(0, base.len() as int) == base && (
    path[base.len() as int] == '/' || ends_in_separator(base)))
}

/// Whether `p` ends in '/'.
pub open spec fn ends_in_separator(p: Seq<char>) -> bool {
    p.len() > 0 && p.last() == '/'
}

/// The path of `path` relative to `base_dir`: the rest after `base_dir` and a
/// separator (or after `base_dir` alone when it ends in one), or empty for
/// `base_dir` itself; none when `path` does not lie under `base_dir`.
pub fn relative_path(path: &str, base_dir: &str) -> (r: Option<String>)
    ensures
        r matches Some(rel) ==> (path@ == base_dir@ && rel@.len() == 0) || (!ends_in_separator(
            base_dir@,
        ) && path@ == base_dir@ + seq!['/'] + rel@) || (ends_in_separator(base_dir@) && path@
            == base_dir@ + rel@),
        r is Some <==> lies_under(path@, base_dir@),
{
    let n = path.unicode_len();
    let b = base_dir.unicode_len();
    if n < b {
        assert(path@.len() != base_dir@.len());
        return None;
    }
    let mut i: usize = 0;
    while i < b
        invariant
            b == base_dir@.len(),
            n == path@.len(),
            b <= n,
            i <= b,
            path@.subrange(0, i as int) == base_dir@.subrange(0, i as int),
        decreases b - i,
    {
        if path.get_char(i) != base_dir.get_char(i) {
            assert(path@[i as int] != base_dir@[i as int]);
            assert(path@ != base_dir@);
            assert(path@.subrange(0, b as int)[i as int] != base_dir@[i as int]);
            return None;
        }
        assert(path@.subrange(0, i + 1) =~= path@.subrange(0, i as int).push(path@[i as int]));
        assert(base_dir@.subrange(0, i + 1) =~= base_dir@.subrange(0, i as int).push(base_dir@[i as int]));
        i = i + 1;
    }
    assert(base_dir@.subrange(0, b as int) =~= base_dir@);
    if n == b {
        assert(path@ =~= base_dir@);
        return Some(String::new());
    }
    if b > 0 && base_dir.get_char(b - 1) == '/' {
        let rest = String::from_str(path.substring_char(b, n));
        assert(path@ =~= base_dir@ + rest@);
        return Some(rest);
    }
    if path.get_char(b) != '/' {
        assert(path@ != base_dir@);
        return None;
    }
    let rest = String::from_str(path.substring_char(b + 1, n));
    assert(path@ =~= base_dir@ + seq!['/'] + rest@);
    Some(rest)
}

/// Suffix given to the stem of an output archive written beside its input.
pub const OUTPUT_SUFFIX: &'static str = "resized";

/// A path whose last component names a file.
pub open spec fn has_file_name(p: Seq<char>) -> bool {
    file_name(p).len() > 0 && file_name(p) != seq!['.'] && file_name(p) != seq!['.', '.']
}

/// `p` with an underscore and `suffix` appended to its file stem, its
/// directory and its extension (with its dot, even when empty) kept.
pub open spec fn with_stem_suffix(p: Seq<char>, suffix: Seq<char>) -> Seq<char> {
    let head = p.subrange(0, file_name_start(p)) + file_stem(p) + seq!['_'] + suffix;
    if ext_dot(p) > 0 {
        head + seq!['.'] + extension(p)
    } else {
        head
    }
}

/// `name` placed in directory `dir`.
pub open spec fn joined(dir: Seq<char>, name: Seq<char>) -> Seq<char> {
    if dir.len() == 0 {
        name
    } else if dir.last() == '/' {
        dir + name
    } else {
        dir + seq!['/'] + name
    }
}

/// Appends an underscore and `suffix` to the file stem of `path`, keeping its
/// directory and extension: `/a/test.txt` with `x` gives `/a/test_x.txt`.
pub fn append_suffix_to_filename(path: &str, suffix: &str) -> (r: String)
    requires
        has_file_name(path@),
    ensures
        r@ == with_stem_suffix(path@, suffix@),
{
    let n = path.unicode_len();
    let start = name_start(path);
    let dot = extension_dot(path);
    let stem_end: usize = match dot {
        Some(d) => d,
        None => n,
    };
    let mut r = String::from_str(path.substring_char(0, stem_end));
    proof {
        reveal_strlit("_");
    }
    r.append("_");
    r.append(suffix);
    assert(path@.subrange(0, stem_end as int) =~= path@.subrange(0, start as int) + file_stem(path@));
    if let Some(d) = dot {
        let ext = path.substring_char(d + 1, n);
        assert(ext@ =~= extension(path@));
        proof {
            reveal_strlit(".");
        }
        r.append(".");
        r.append(ext);
    }
    r
}

/// Where the output for `path` goes: under the same file name in
/// `output_dir` when one is given, else beside the input with the stem
/// suffixed.
pub fn determine_output_path(path: &str, output_dir: Option<&str>) -> (r: String)
    requires
        has_file_name(path@),
    ensures
        output_dir matches Some(d) ==> r@ == joined(d@, file_name(path@)),
        output_dir is None ==> r@ == with_stem_suffix(path@, OUTPUT_SUFFIX@),
{
    match output_dir {
        Some(dir) => {
            let name = path.substring_char(name_start(path), path.unicode_len());
            let k = dir.unicode_len();
            if k == 0 {
                String::from_str(name)
            } else if dir.get_char(k - 1) == '/' {
                let mut r = String::from_str(dir);
                r.append(name);
                r
            } else {
                proof {
                    reveal_strlit("/");
                }
                let mut r = String::from_str(dir);
                r.append("/");
                r.append(name);
                r
            }
        },
        None => append_suffix_to_filename(path, OUTPUT_SUFFIX),
    }
}

/// `p` with its extension set to `ext`: same directory and stem.
pub open spec fn with_extension(p: Seq<char>, ext: Seq<char>) -> Seq<char> {
    p.subrange(0, file_name_start(p)) + file_stem(p) + seq!['.'] + ext
}

/// The path under which the re-encoded page of `path` is written: the same
/// directory and stem, with the extension of the output format.
pub fn replacement_path(path: &str) -> (r: String)
    requires
        has_file_name(path@),
    ensures
        r@ == with_extension(path@, seq!['w', 'e', 'b', 'p']),
{
    let n = path.unicode_len();
    let start = name_start(path);
    let stem_end: usize = match extension_dot(path) {
        Some(d) => d,
        None => n,
    };
    assert(path@.subrange(0, stem_end as int) =~= path@.subrange(0, start as int) + file_stem(path@));
    proof {
        reveal_strlit(".webp");
    }
    let mut r = String::from_str(path.substring_char(0, stem_end));
    r.append(".webp");
    assert(r@ =~= with_extension(path@, seq!['w', 'e', 'b', 'p']));
    r
}

} // verus!
