//! Destination and icon-path handling: deriving the font name from the
//! destination path and icon identifiers from source file paths.

use vstd::prelude::*;
use vstd::string::StrSliceExecFns;
use vstd::string::StringExecFns;

use crate::error::Error;

verus! {

/// The index of the last occurrence of a character, or minus one.
pub open spec fn last_index_of_char(s: Seq<char>, c: char) -> int
    decreases s.len(),
{
    if s.len() == 0 {
        -1
    } else if s.last() == c {
        s.len() - 1
    } else {
        last_index_of_char(s.drop_last(), c)
    }
}

/// Whether the character occurs in the sequence.
pub open spec fn has_char(s: Seq<char>, c: char) -> bool {
    exists|i: int| 0 <= i < s.len() && s[i] == c
}

/// Whether `i` is the last occurrence of `c`.
pub open spec fn is_last_index(s: Seq<char>, c: char, i: int) -> bool {
    0 <= i < s.len() && s[i] == c && forall|j: int| i < j < s.len() ==> s[j] != c
}

proof fn lemma_last_index(s: Seq<char>, c: char, i: int)
    requires
        is_last_index(s, c, i),
    ensures
        last_index_of_char(s, c) == i,
    decreases s.len(),
{
    if s.last() == c {
        assert(i == s.len() - 1);
    } else {
        assert(i < s.len() - 1);
        assert(is_last_index(s.drop_last(), c, i));
        lemma_last_index(s.drop_last(), c, i);
    }
}

proof fn lemma_no_char(s: Seq<char>, c: char)
    requires
        !has_char(s, c),
    ensures
        last_index_of_char(s, c) == -1,
    decreases s.len(),
{
    if s.len() > 0 {
        assert(s.last() != c);
        assert(!has_char(s.drop_last(), c)) by {
            if has_char(s.drop_last(), c) {
                let i = choose|i: int| 0 <= i < s.drop_last().len() && s.drop_last()[i] == c;
                assert(s[i] == c);
            }
        }
        lemma_no_char(s.drop_last(), c);
    }
}

/// Finds the last occurrence of a character in a string.
fn rfind(s: &str, c: char) -> (r: Option<usize>)
    ensures
        match r {
            Option::Some(i) => i as int == last_index_of_char(s@, c) && i < s@.len(),
            Option::None => last_index_of_char(s@, c) == -1,
        },
{
    let n = s.unicode_len();
    let mut i: usize = n;
    while i > 0
        invariant
            n == s@.len(),
            0 <= i <= n,
            forall|j: int| i <= j < n ==> s@[j] != c,
        decreases i,
    {
        i = i - 1;
        if s.get_char(i) == c {
            proof {
                lemma_last_index(s@, c, i as int);
            }
            return Option::Some(i);
        }
    }
    proof {
        assert(!has_char(s@, c)) by {
            if has_char(s@, c) {
                let j = choose|j: int| 0 <= j < s@.len() && s@[j] == c;
            }
        }
        lemma_no_char(s@, c);
    }
    Option::None
}

/// The index where a path's file name starts: just past the last
/// separator, or zero when there is none.
pub open spec fn file_start(s: Seq<char>) -> int {
    last_index_of_char(s, '/') + 1
}

/// The index of the extension dot of a path: the last dot, where the
/// chars after it form the extension.
pub open spec fn ext_dot(s: Seq<char>) -> int {
    last_index_of_char(s, '.')
}

/// Whether a character is one of a lower-case letter and its upper-case
/// form.
pub open spec fn char_in(c: char, lower: char, upper: char) -> bool {
    c == lower || c == upper
}

/// Whether a path ends in the binary-font extension, in either case: its
/// file name has an extension dot past its first character, followed by
/// exactly the three extension letters.
pub open spec fn dest_is_ttf(s: Seq<char>) -> bool {
    let fs = file_start(s);
    let dot = ext_dot(s);
    &&& dot > fs
    &&& dot + 4 == s.len()
    &&& char_in(s[dot + 1], 't', 'T')
    &&& char_in(s[dot + 2], 't', 'T')
    &&& char_in(s[dot + 3], 'f', 'F')
}

/// The font name of a valid destination: its file name without the
/// extension.
pub open spec fn font_stem(s: Seq<char>) -> Seq<char> {
    s.subrange(file_start(s), ext_dot(s))
}

/// Derives the font name from the destination path.
///
/// The destination must name a file with the binary-font extension, in
/// either letter case; the name is the file name without that extension.
/// Anything else is an invalid destination. The path is read as
/// '/'-separated text: one ending in a separator has an empty file name
/// and is rejected, where an operating-system path API might normalize
/// the separator away first.
pub fn get_font_name(destination: &str) -> (r: Result<String, Error>)
    ensures
        r is Ok <==> dest_is_ttf(destination@),
        r is Ok ==> r->Ok_0@ == font_stem(destination@),
        r is Err ==> r->Err_0 is InvalidDestination,
{
    let n = destination.unicode_len();
    let fs: usize = match rfind(destination, '/') {
        Option::Some(i) => i + 1,
        Option::None => 0,
    };
    let dot: usize = match rfind(destination, '.') {
        Option::Some(i) => i,
        Option::None => {
            return Result::Err(
                Error::InvalidDestination("destination file must have .ttf extension".to_owned()),
            );
        },
    };
    if dot <= fs || n < 4 || dot != n - 4 {
        return Result::Err(
            Error::InvalidDestination("destination file must have .ttf extension".to_owned()),
        );
    }
    let e0 = destination.get_char(dot + 1);
    let e1 = destination.get_char(dot + 2);
    let e2 = destination.get_char(dot + 3);
    if !((e0 == 't' || e0 == 'T') && (e1 == 't' || e1 == 'T') && (e2 == 'f' || e2 == 'F')) {
        return Result::Err(
            Error::InvalidDestination("destination file must have .ttf extension".to_owned()),
        );
    }
    let stem = destination.substring_char(fs, dot);
    Result::Ok(stem.to_owned())
}

/// Whether a path names an icon file: its file name ends in the vector
/// markup extension, in either letter case.
pub open spec fn is_svg_path(s: Seq<char>) -> bool {
    let fs = file_start(s);
    let dot = ext_dot(s);
    &&& dot > fs
    &&& dot + 4 == s.len()
    &&& char_in(s[dot + 1], 's', 'S')
    &&& char_in(s[dot + 2], 'v', 'V')
    &&& char_in(s[dot + 3], 'g', 'G')
}

/// Whether a path lies under a directory: it begins with the directory
/// followed by a separator, and goes on after it.
pub open spec fn under_dir(dir: Seq<char>, p: Seq<char>) -> bool {
    p.len() > dir.len() + 1 && p.subrange(0, dir.len() as int) == dir && p[dir.len() as int]
        == '/'
}

/// The identifier of an icon file under a directory: the path with the
/// directory prefix and the extension stripped.
pub open spec fn icon_id(dir_len: int, p: Seq<char>) -> Seq<char> {
    p.subrange(dir_len + 1, ext_dot(p))
}

/// The (identifier, path) entries of the icon files among a path list, in
/// order; paths without the icon extension are passed over.
pub open spec fn entries_spec(dir: Seq<char>, paths: Seq<Seq<char>>) -> Seq<
    (Seq<char>, Seq<char>),
>
    decreases paths.len(),
{
    if paths.len() == 0 {
        Seq::empty()
    } else {
        let head: Seq<(Seq<char>, Seq<char>)> = if is_svg_path(paths[0]) {
            seq![(icon_id(dir.len() as int, paths[0]), paths[0])]
        } else {
            Seq::empty()
        };
        head + entries_spec(dir, paths.drop_first())
    }
}

/// The character views of a path list.
pub open spec fn paths_chars(paths: Seq<String>) -> Seq<Seq<char>> {
    paths.map_values(|s: String| s@)
}

/// The extension dot of a path that names an icon file, when it does.
fn svg_ext_dot(p: &str) -> (r: Option<usize>)
    ensures
        r is Some <==> is_svg_path(p@),
        r is Some ==> r->0 as int == ext_dot(p@),
{
    let n = p.unicode_len();
    let fs: usize = match rfind(p, '/') {
        Option::Some(i) => i + 1,
        Option::None => 0,
    };
    let dot: usize = match rfind(p, '.') {
        Option::Some(i) => i,
        Option::None => {
            return Option::None;
        },
    };
    if dot <= fs || n < 4 || dot != n - 4 {
        return Option::None;
    }
    let e0 = p.get_char(dot + 1);
    let e1 = p.get_char(dot + 2);
    let e2 = p.get_char(dot + 3);
    if (e0 == 's' || e0 == 'S') && (e1 == 'v' || e1 == 'V') && (e2 == 'g' || e2 == 'G') {
        Option::Some(dot)
    } else {
        Option::None
    }
}

/// Pairs each icon file under the source directory with its identifier.
///
/// A file counts when its name ends in the vector markup extension, in
/// either letter case; its identifier is its path relative to the source
/// directory, separators kept, extension stripped. A list without a single
/// icon file is the no-icons-found error.
pub fn collect_svg_paths(source_dir: &str, file_paths: &Vec<String>) -> (r: Result<
    Vec<(String, String)>,
    Error,
>)
    requires
        forall|i: int|
            0 <= i < file_paths@.len() ==> under_dir(source_dir@, (#[trigger] file_paths@[i])@),
    ensures
        r is Ok <==> entries_spec(source_dir@, paths_chars(file_paths@)).len() > 0,
        r is Ok ==> r->Ok_0@.map_values(|p: (String, String)| (p.0@, p.1@)) == entries_spec(
            source_dir@,
            paths_chars(file_paths@),
        ),
        r is Err ==> r->Err_0 is NoIconsFound,
{
    let ghost pv = paths_chars(file_paths@);
    let ghost total = entries_spec(source_dir@, pv);
    let dir_len = source_dir.unicode_len();
    let n = file_paths.len();
    let mut out: Vec<(String, String)> = Vec::new();
    let mut i: usize = 0;
    proof {
        assert(pv.skip(0) =~= pv);
        assert(out@.map_values(|p: (String, String)| (p.0@, p.1@)) =~= Seq::<(
            Seq<char>,
            Seq<char>,
        )>::empty());
    }
    while i < n
        invariant
            n == file_paths@.len(),
            0 <= i <= n,
            dir_len == source_dir@.len(),
            pv == paths_chars(file_paths@),
            total == entries_spec(source_dir@, pv),
            forall|k: int|
                0 <= k < file_paths@.len() ==> under_dir(
                    source_dir@,
                    (#[trigger] file_paths@[k])@,
                ),
            total == out@.map_values(|p: (String, String)| (p.0@, p.1@)) + entries_spec(
                source_dir@,
                pv.skip(i as int),
            ),
        decreases n - i,
    {
        let p = &file_paths[i];
        let ghost old_out = out@;
        proof {
            assert(pv.skip(i as int).drop_first() =~= pv.skip(i + 1));
            assert(pv.skip(i as int)[0] == pv[i as int]);
            assert(pv[i as int] == file_paths@[i as int]@);
        }
        if let Option::Some(dot) = svg_ext_dot(p.as_str()) {
            proof {
                lemma_index_facts(p@, '/');
                assert(under_dir(source_dir@, p@));
                assert(p@[dir_len as int] == '/');
                if last_index_of_char(p@, '/') < dir_len as int {
                    if last_index_of_char(p@, '/') >= 0 {
                        assert(is_last_index(p@, '/', last_index_of_char(p@, '/')));
                        assert(false);
                    } else {
                        assert(!has_char(p@, '/'));
                        assert(false);
                    }
                }
                assert(file_start(p@) > dir_len as int);
                assert(ext_dot(p@) > file_start(p@));
            }
            let id = p.as_str().substring_char(dir_len + 1, dot).to_owned();
            out.push((id, p.clone()));
            proof {
                assert(out@.map_values(|q: (String, String)| (q.0@, q.1@)) =~= old_out
                    .map_values(|q: (String, String)| (q.0@, q.1@)).push(
                    (icon_id(source_dir@.len() as int, pv[i as int]), pv[i as int]),
                ));
                assert(old_out.map_values(|q: (String, String)| (q.0@, q.1@)) + entries_spec(
                    source_dir@,
                    pv.skip(i as int),
                ) =~= out@.map_values(|q: (String, String)| (q.0@, q.1@)) + entries_spec(
                    source_dir@,
                    pv.skip(i + 1),
                ));
            }
        } else {
            proof {
                assert(entries_spec(source_dir@, pv.skip(i as int)) =~= entries_spec(
                    source_dir@,
                    pv.skip(i + 1),
                ));
            }
        }
        i = i + 1;
    }
    proof {
        assert(pv.skip(n as int) =~= Seq::<Seq<char>>::empty());
        assert(out@.map_values(|p: (String, String)| (p.0@, p.1@)) + Seq::<(
            Seq<char>,
            Seq<char>,
        )>::empty() =~= out@.map_values(|p: (String, String)| (p.0@, p.1@)));
        assert(total == out@.map_values(|p: (String, String)| (p.0@, p.1@)));
    }
    if out.len() == 0 {
        proof {
            assert(total.len() == 0);
        }
        return Result::Err(Error::NoIconsFound);
    }
    Result::Ok(out)
}

/// The last occurrence of a character, when there is one, is a last index;
/// otherwise the character does not occur.
proof fn lemma_index_facts(s: Seq<char>, c: char)
    ensures
        last_index_of_char(s, c) >= 0 ==> is_last_index(s, c, last_index_of_char(s, c)),
        last_index_of_char(s, c) == -1 ==> !has_char(s, c),
        -1 <= last_index_of_char(s, c) < s.len(),
    decreases s.len(),
{
    if s.len() > 0 {
        lemma_index_facts(s.drop_last(), c);
        if s.last() != c {
            if last_index_of_char(s, c) >= 0 {
                assert(forall|j: int|
                    last_index_of_char(s, c) < j < s.len() - 1 ==> s.drop_last()[j] == s[j]
                        && s[j] != c);
            } else {
                if has_char(s, c) {
                    let i = choose|i: int| 0 <= i < s.len() && s[i] == c;
                    assert(i < s.len() - 1);
                    assert(s.drop_last()[i] == c);
                }
            }
        }
    }
}

} // verus!
