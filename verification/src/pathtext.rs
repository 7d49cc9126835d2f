//! Textual path manipulation: parent directories, base names, stems and
//! joining. Paths are plain strings with `/` as the separator; no
//! normalisation is attempted beyond what the operations state.

use vstd::prelude::*;
use crate::filekind::find_last;

verus! {

/// The directory a path's last component lives in: the text before the
/// last `/`. The root `/` and separator-free paths have no parent.
pub open spec fn parent_path(p: Seq<char>) -> Option<Seq<char>> {
    if p =~= seq!['/'] {
        None
    } else {
        match p.index_of_last('/') {
            Some(i) => if i == 0 {
                Some(seq!['/'])
            } else {
                Some(p.subrange(0, i))
            },
            None => None,
        }
    }
}

/// The last component of a path: the text after the last `/`, or the whole
/// path when it holds none.
pub open spec fn base_name(p: Seq<char>) -> Seq<char> {
    match p.index_of_last('/') {
        Some(i) => p.subrange(i + 1, p.len() as int),
        None => p,
    }
}

/// A name without its extension: the text before the last `.`, or the
/// whole name when it holds none.
pub open spec fn stem_of(name: Seq<char>) -> Seq<char> {
    match name.index_of_last('.') {
        Some(i) => name.subrange(0, i),
        None => name,
    }
}

/// A directory joined with a child name, inserting `/` unless the
/// directory already ends with one.
pub open spec fn join_path(dir: Seq<char>, name: Seq<char>) -> Seq<char> {
    if dir.len() > 0 && dir.last() == '/' {
        dir + name
    } else {
        dir + seq!['/'] + name
    }
}

/// Computes the parent directory of a path, or `None` at the root and for
/// separator-free paths.
pub fn parent_dir(p: &str) -> (r: Option<String>)
    ensures
        match r {
            Some(s) => parent_path(p@) == Some(s@),
            None => parent_path(p@) is None,
        },
{
    let n = p.unicode_len();
    if n == 1 && p.get_char(0) == '/' {
        proof {
            assert(p@ =~= seq!['/']);
        }
        return None;
    }
    assert(!(p@ =~= seq!['/']));
    match find_last(p, '/') {
        None => None,
        Some(i) => {
            proof {
                p@.index_of_last_ensures('/');
            }
            if i == 0 {
                let root = "/".to_owned();
                proof {
                    reveal_strlit("/");
                    assert(root@ =~= seq!['/']);
                }
                Some(root)
            } else {
                Some(p.substring_char(0, i).to_owned())
            }
        },
    }
}

/// Computes the last component of a path.
pub fn base_name_of(p: &str) -> (r: String)
    ensures
        r@ == base_name(p@),
{
    match find_last(p, '/') {
        None => p.to_owned(),
        Some(i) => {
            let n = p.unicode_len();
            proof {
                p@.index_of_last_ensures('/');
            }
            p.substring_char(i + 1, n).to_owned()
        },
    }
}

/// Computes a name without its extension.
pub fn stem(name: &str) -> (r: String)
    ensures
        r@ == stem_of(name@),
{
    match find_last(name, '.') {
        None => name.to_owned(),
        Some(i) => {
            proof {
                name@.index_of_last_ensures('.');
            }
            name.substring_char(0, i).to_owned()
        },
    }
}

/// Joins a directory with a child name.
pub fn join(dir: &str, name: &str) -> (r: String)
    ensures
        r@ == join_path(dir@, name@),
{
    let n = dir.unicode_len();
    let mut s = dir.to_owned();
    if n == 0 || dir.get_char(n - 1) != '/' {
        s.append("/");
        proof {
            reveal_strlit("/");
            assert(s@ =~= dir@ + seq!['/']);
        }
    }
    s.append(name);
    proof {
        if n == 0 || dir@.last() != '/' {
            assert(s@ =~= dir@ + seq!['/'] + name@);
        }
    }
    s
}

} // verus!
