//! Classification of names: recognized image extensions, hidden names,
//! and validity of a proposed output filename.
//!
//! A name's extension is whatever follows its last `.`; matching against
//! the recognized set folds ASCII upper case to lower case first.

use vstd::prelude::*;

verus! {

/// ASCII case folding for a single character.
pub open spec fn lower_char(c: char) -> char {
    if 'A' <= c && c <= 'Z' {
        (((c as u8) + 32) as char)
    } else {
        c
    }
}

/// ASCII case folding over a whole name.
pub open spec fn lower_name(s: Seq<char>) -> Seq<char> {
    s.map_values(|c: char| lower_char(c))
}

/// The fixed recognized-image-extension set, compared in lower case:
/// jpg, jpeg, png, bmp, svg.
pub open spec fn is_recognized_ext(e: Seq<char>) -> bool {
    ||| e =~= seq!['j', 'p', 'g']
    ||| e =~= seq!['j', 'p', 'e', 'g']
    ||| e =~= seq!['p', 'n', 'g']
    ||| e =~= seq!['b', 'm', 'p']
    ||| e =~= seq!['s', 'v', 'g']
}

/// The extension of a name: what follows the last `.`, if any.
pub open spec fn ext_of(name: Seq<char>) -> Option<Seq<char>> {
    match name.index_of_last('.') {
        Some(i) => Some(name.subrange(i + 1, name.len() as int)),
        None => None,
    }
}

/// A name denotes an image when its extension, folded to lower case, is in
/// the recognized set.
pub open spec fn is_image_name(name: Seq<char>) -> bool {
    match ext_of(name) {
        Some(e) => is_recognized_ext(lower_name(e)),
        None => false,
    }
}

/// Hidden names start with the hidden-file marker `.` and are excluded
/// from listings.
pub open spec fn is_hidden_name(name: Seq<char>) -> bool {
    name.len() > 0 && name[0] == '.'
}

/// A proposed output filename is valid when it is non-empty, holds no path
/// separator, and carries a recognized image extension.
pub open spec fn is_valid_filename(name: Seq<char>) -> bool {
    name.len() > 0 && !name.contains('/') && is_image_name(name)
}

/// If position `i` holds `c` and nothing after it does, then `i` is the
/// last occurrence of `c`.
pub proof fn lemma_last_occurrence(s: Seq<char>, c: char, i: int)
    requires
        0 <= i < s.len(),
        s[i] == c,
        forall|j: int| i < j < s.len() ==> s[j] != c,
    ensures
        s.index_of_last(c) == Some(i),
{
    s.index_of_last_ensures(c);
    assert(s.contains(c));
    let k = s.index_of_last(c)->Some_0;
    if k < i {
        assert(s[i] == c);
        assert(false);
    } else if k > i {
        assert(s[k] != c);
        assert(false);
    }
}

/// If no position holds `c`, there is no last occurrence.
pub proof fn lemma_no_occurrence(s: Seq<char>, c: char)
    requires
        forall|j: int| 0 <= j < s.len() ==> s[j] != c,
    ensures
        s.index_of_last(c) is None,
{
    s.index_of_last_ensures(c);
    if s.index_of_last(c) is Some {
        let k = s.index_of_last(c)->Some_0;
        assert(s[k] == c);
        assert(false);
    }
}

/// Scans a name from the end for the last occurrence of a character.
pub fn find_last(s: &str, c: char) -> (r: Option<usize>)
    ensures
        match r {
            Some(i) => s@.index_of_last(c) == Some(i as int),
            None => s@.index_of_last(c) is None,
        },
{
    let n = s.unicode_len();
    let mut i: usize = n;
    loop
        invariant
            i <= n,
            n == s@.len(),
            forall|j: int| i <= j < s@.len() ==> s@[j] != c,
        decreases i,
    {
        if i == 0 {
            proof {
                lemma_no_occurrence(s@, c);
            }
            return None;
        }
        i = i - 1;
        if s.get_char(i) == c {
            proof {
                lemma_last_occurrence(s@, c, i as int);
            }
            return Some(i);
        }
    }
}

/// ASCII case folding for one character.
pub fn to_lower(c: char) -> (r: char)
    ensures
        r == lower_char(c),
{
    if 'A' <= c && c <= 'Z' {
        ((c as u8) + 32) as char
    } else {
        c
    }
}

/// Tests an extension against the recognized set, folding case.
fn ext_recognized(e: &str) -> (r: bool)
    ensures
        r == is_recognized_ext(lower_name(e@)),
{
    let n = e.unicode_len();
    if n == 3 {
        let c0 = to_lower(e.get_char(0));
        let c1 = to_lower(e.get_char(1));
        let c2 = to_lower(e.get_char(2));
        let hit = (c0 == 'j' && c1 == 'p' && c2 == 'g') || (c0 == 'p' && c1 == 'n' && c2 == 'g')
            || (c0 == 'b' && c1 == 'm' && c2 == 'p') || (c0 == 's' && c1 == 'v' && c2 == 'g');
        proof {
            assert(lower_name(e@).len() == 3);
            assert(lower_name(e@)[0] == lower_char(e@[0]));
            assert(lower_name(e@)[1] == lower_char(e@[1]));
            assert(lower_name(e@)[2] == lower_char(e@[2]));
            if hit {
                assert(is_recognized_ext(lower_name(e@)));
            } else {
                assert(!(lower_name(e@) =~= seq!['j', 'p', 'g']));
                assert(!(lower_name(e@) =~= seq!['p', 'n', 'g']));
                assert(!(lower_name(e@) =~= seq!['b', 'm', 'p']));
                assert(!(lower_name(e@) =~= seq!['s', 'v', 'g']));
                assert(!(lower_name(e@) =~= seq!['j', 'p', 'e', 'g']));
            }
        }
        hit
    } else if n == 4 {
        let c0 = to_lower(e.get_char(0));
        let c1 = to_lower(e.get_char(1));
        let c2 = to_lower(e.get_char(2));
        let c3 = to_lower(e.get_char(3));
        let hit = c0 == 'j' && c1 == 'p' && c2 == 'e' && c3 == 'g';
        proof {
            assert(lower_name(e@).len() == 4);
            assert(lower_name(e@)[0] == lower_char(e@[0]));
            assert(lower_name(e@)[1] == lower_char(e@[1]));
            assert(lower_name(e@)[2] == lower_char(e@[2]));
            assert(lower_name(e@)[3] == lower_char(e@[3]));
            if hit {
                assert(is_recognized_ext(lower_name(e@)));
            } else {
                assert(!(lower_name(e@) =~= seq!['j', 'p', 'e', 'g']));
            }
        }
        hit
    } else {
        assert(lower_name(e@).len() == e@.len());
        false
    }
}

/// Classifies a name as an image by its extension.
pub fn name_is_image(name: &str) -> (r: bool)
    ensures
        r == is_image_name(name@),
{
    match find_last(name, '.') {
        None => false,
        Some(i) => {
            let n = name.unicode_len();
            proof {
                name@.index_of_last_ensures('.');
                assert(i < n);
            }
            let e = name.substring_char(i + 1, n);
            assert(e@ == ext_of(name@)->Some_0);
            ext_recognized(e)
        },
    }
}

/// Tests whether a name starts with the hidden-file marker.
pub fn name_is_hidden(name: &str) -> (r: bool)
    ensures
        r == is_hidden_name(name@),
{
    if name.unicode_len() == 0 {
        false
    } else {
        name.get_char(0) == '.'
    }
}

/// Decides validity of a proposed output filename.
pub fn filename_is_valid(name: &str) -> (r: bool)
    ensures
        r == is_valid_filename(name@),
{
    let n = name.unicode_len();
    if n == 0 {
        return false;
    }
    match find_last(name, '/') {
        Some(i) => {
            proof {
                name@.index_of_last_ensures('/');
                assert(name@.contains('/'));
            }
            false
        },
        None => {
            proof {
                name@.index_of_last_ensures('/');
                if name@.contains('/') {
                    assert(false);
                }
            }
            name_is_image(name)
        },
    }
}

} // verus!
