//! How a host path string reads as `std::path::Path` components: the
//! components themselves, whether one path lies under another, and the
//! final file name.

use vstd::prelude::*;
use crate::text::{chars_equal, chars_of, slice_chars, split_chars, split_on, string_of};
use crate::vfs::{is_named_component, lemma_named_only_push, named_only, path_components};

verus! {

/// The component a path begins with besides its names: the root for an
/// absolute path, `.` for a path that starts at the current directory.
pub open spec fn path_lead(p: Seq<char>) -> Seq<Seq<char>> {
    if p.len() > 0 && p[0] == '/' {
        seq![seq!['/']]
    } else if p.len() > 0 && p[0] == '.' && (p.len() == 1 || p[1] == '/') {
        seq![seq!['.']]
    } else {
        Seq::empty()
    }
}

/// The components of a Unix path as `Path::components` yields them:
/// the leading root or current-directory component, then every piece
/// between `/`s that is neither empty nor `.`.
pub open spec fn os_components(p: Seq<char>) -> Seq<Seq<char>> {
    path_lead(p) + path_components(p)
}

/// `Path::starts_with`: the components of `base` begin those of `path`.
pub open spec fn path_starts_with(path: Seq<char>, base: Seq<char>) -> bool {
    let a = os_components(path);
    let b = os_components(base);
    b.len() <= a.len() && a.take(b.len() as int) == b
}

/// `Path::file_name`: the last component when it is a name (not the
/// root, `.` or `..`).
pub open spec fn spec_file_name(p: Seq<char>) -> Option<Seq<char>> {
    let c = os_components(p);
    if c.len() > 0 && c.last() != seq!['/'] && c.last() != seq!['.'] && c.last() != seq!['.', '.'] {
        Some(c.last())
    } else {
        None
    }
}

/// The components of `p`, as `os_components` describes them.
pub fn components(p: &[char]) -> (r: Vec<Vec<char>>)
    ensures
        r@.len() == os_components(p@).len(),
        forall|i: int| 0 <= i < r@.len() ==> #[trigger] r@[i]@ == os_components(p@)[i],
{
    let pieces = split_chars(p, '/');
    let ghost all = split_on(p@, '/');
    let mut out: Vec<Vec<char>> = Vec::new();
    if p.len() > 0 && p[0] == '/' {
        out.push(chars_of("/"));
        proof {
            reveal_strlit("/");
        }
    } else if p.len() > 0 && p[0] == '.' && (p.len() == 1 || p[1] == '/') {
        out.push(chars_of("."));
        proof {
            reveal_strlit(".");
        }
    }
    let ghost lead = path_lead(p@);
    proof {
        assert(out@.len() == lead.len());
        assert(all.take(0) =~= Seq::<Seq<char>>::empty());
        assert(named_only(Seq::<Seq<char>>::empty()) =~= Seq::<Seq<char>>::empty());
    }
    let mut j: usize = 0;
    while j < pieces.len()
        invariant
            j <= pieces@.len(),
            pieces@.len() == all.len(),
            all == split_on(p@, '/'),
            lead == path_lead(p@),
            forall|i: int| 0 <= i < pieces@.len() ==> #[trigger] pieces@[i]@ == all[i],
            out@.len() == lead.len() + named_only(all.take(j as int)).len(),
            forall|i: int|
                0 <= i < out@.len() ==> #[trigger] out@[i]@ == (lead + named_only(
                    all.take(j as int),
                ))[i],
        decreases pieces@.len() - j,
    {
        let piece = &pieces[j];
        proof {
            assert(all.take(j + 1) =~= all.take(j as int).push(all[j as int]));
            lemma_named_only_push(all.take(j as int), all[j as int]);
            assert(piece@ == all[j as int]);
        }
        let named = piece.len() > 0 && !(piece.len() == 1 && piece[0] == '.');
        proof {
            if piece@.len() == 1 {
                if piece@ == seq!['.'] {
                    assert(piece@[0] == '.');
                } else {
                    assert(piece@ != seq!['.']);
                }
            }
            if piece@.len() == 1 && piece@[0] == '.' {
                assert(piece@ =~= seq!['.']);
            }
            assert(named == is_named_component(all[j as int]));
        }
        if named {
            let copy = slice_chars(piece.as_slice(), 0, piece.len());
            proof {
                assert(copy@ =~= piece@);
            }
            out.push(copy);
        }
        j = j + 1;
        proof {
            assert forall|i: int| 0 <= i < out@.len() implies #[trigger] out@[i]@ == (lead
                + named_only(all.take(j as int)))[i] by {}
        }
    }
    proof {
        assert(all.take(j as int) =~= all);
    }
    out
}

/// Whether `base`'s components begin `path`'s (`Path::starts_with`).
pub fn starts_with(path: &str, base: &str) -> (r: bool)
    ensures
        r == path_starts_with(path@, base@),
{
    let a = components(chars_of(path).as_slice());
    let b = components(chars_of(base).as_slice());
    if b.len() > a.len() {
        return false;
    }
    let mut i: usize = 0;
    while i < b.len()
        invariant
            i <= b@.len() <= a@.len(),
            a@.len() == os_components(path@).len(),
            b@.len() == os_components(base@).len(),
            forall|k: int| 0 <= k < a@.len() ==> #[trigger] a@[k]@ == os_components(path@)[k],
            forall|k: int| 0 <= k < b@.len() ==> #[trigger] b@[k]@ == os_components(base@)[k],
            forall|k: int| 0 <= k < i ==> os_components(path@)[k] == os_components(base@)[k],
        decreases b@.len() - i,
    {
        if !chars_equal(a[i].as_slice(), b[i].as_slice()) {
            proof {
                assert(os_components(path@).take(b@.len() as int)[i as int] != os_components(
                    base@,
                )[i as int]);
            }
            return false;
        }
        i = i + 1;
    }
    proof {
        assert(os_components(path@).take(b@.len() as int) =~= os_components(base@));
    }
    true
}

/// The final name of a path (`Path::file_name`), if it has one.
pub fn file_name(path: &str) -> (r: Option<String>)
    ensures
        match r {
            Some(n) => spec_file_name(path@) == Some(n@),
            None => spec_file_name(path@) is None,
        },
{
    let c = components(chars_of(path).as_slice());
    if c.len() == 0 {
        return None;
    }
    let last = &c[c.len() - 1];
    let is_root = last.len() == 1 && last[0] == '/';
    let is_cur = last.len() == 1 && last[0] == '.';
    let is_parent = last.len() == 2 && last[0] == '.' && last[1] == '.';
    proof {
        let l = last@;
        if l.len() == 1 {
            assert(l == seq!['/'] <==> l[0] == '/') by {
                if l[0] == '/' {
                    assert(l =~= seq!['/']);
                }
            }
            assert(l == seq!['.'] <==> l[0] == '.') by {
                if l[0] == '.' {
                    assert(l =~= seq!['.']);
                }
            }
            assert(l != seq!['.', '.']);
        } else if l.len() == 2 {
            assert(l == seq!['.', '.'] <==> (l[0] == '.' && l[1] == '.')) by {
                if l[0] == '.' && l[1] == '.' {
                    assert(l =~= seq!['.', '.']);
                }
            }
            assert(l != seq!['/']);
            assert(l != seq!['.']);
        } else {
            assert(l != seq!['/']);
            assert(l != seq!['.']);
            assert(l != seq!['.', '.']);
        }
    }
    if is_root || is_cur || is_parent {
        None
    } else {
        Some(string_of(last.as_slice()))
    }
}

} // verus!

verus! {

/// `Path::extension`: the text after the last `.` of the file name, when
/// that `.` is not its first character; empty when there is none.
pub open spec fn spec_path_extension(p: Seq<char>) -> Seq<char> {
    match spec_file_name(p) {
        None => Seq::empty(),
        Some(n) => match crate::lexical::last_index_of(n, '.') {
            Some(k) => if k > 0 {
                n.skip(k + 1)
            } else {
                Seq::empty()
            },
            None => Seq::empty(),
        },
    }
}

/// A path's extension, empty when it has none.
pub fn path_extension(path: &str) -> (e: String)
    ensures
        e@ == spec_path_extension(path@),
{
    match file_name(path) {
        None => string_of(Vec::<char>::new().as_slice()),
        Some(n) => {
            let v = chars_of(n.as_str());
            match crate::lexical::last_index_of_exec(v.as_slice(), '.') {
                Some(k) => if k > 0 {
                    let len = v.len();
                    let tail = slice_chars(v.as_slice(), k + 1, len);
                    proof {
                        assert(tail@ =~= n@.skip(k + 1));
                    }
                    string_of(tail.as_slice())
                } else {
                    string_of(Vec::<char>::new().as_slice())
                },
                None => string_of(Vec::<char>::new().as_slice()),
            }
        },
    }
}

/// The relative location a client's virtual path names under a root:
/// NUL is refused, any `..` is traversal, and the root and `.` components
/// are dropped.
pub open spec fn spec_relative_components(p: Seq<char>) -> Result<Seq<Seq<char>>, Seq<char>> {
    if p.contains('\0') {
        Err("invalid path"@)
    } else if path_components(p).contains(seq!['.', '.']) {
        Err("path traversal denied"@)
    } else {
        Ok(path_components(p))
    }
}

/// Splits a client's virtual path into the components joined under a
/// root before the result is checked to stay inside it.
pub fn relative_components(virtual_path: &str) -> (r: Result<Vec<String>, &'static str>)
    ensures
        match r {
            Ok(parts) => spec_relative_components(virtual_path@) matches Ok(c) && parts@.len()
                == c.len() && forall|i: int| 0 <= i < c.len() ==> #[trigger] parts@[i]@ == c[i],
            Err(m) => spec_relative_components(virtual_path@) == Err::<Seq<Seq<char>>, Seq<char>>(
                m@,
            ),
        },
{
    let v = chars_of(virtual_path);
    if crate::text::contains_char(v.as_slice(), '\0') {
        return Err("invalid path");
    }
    let all = components(v.as_slice());
    let ghost lead = path_lead(virtual_path@);
    let ghost named = path_components(virtual_path@);
    proof {
        assert(os_components(virtual_path@) == lead + named);
    }
    let skip: usize = if v.len() > 0 && v[0] == '/' {
        1
    } else if v.len() > 0 && v[0] == '.' && (v.len() == 1 || v[1] == '/') {
        1
    } else {
        0
    };
    proof {
        assert(skip == lead.len());
    }
    let mut parts: Vec<String> = Vec::new();
    let mut i: usize = skip;
    while i < all.len()
        invariant
            skip <= i <= all@.len(),
            skip == lead.len(),
            !virtual_path@.contains('\0'),
            named == path_components(virtual_path@),
            lead == path_lead(virtual_path@),
            all@.len() == lead.len() + named.len(),
            forall|k: int| 0 <= k < all@.len() ==> #[trigger] all@[k]@ == (lead + named)[k],
            parts@.len() == i - skip,
            forall|k: int| 0 <= k < parts@.len() ==> #[trigger] parts@[k]@ == named[k],
            forall|k: int| 0 <= k < i - skip ==> named[k] != seq!['.', '.'],
        decreases all@.len() - i,
    {
        let c = &all[i];
        proof {
            assert(c@ == named[i - skip]);
        }
        if c.len() == 2 && c[0] == '.' && c[1] == '.' {
            proof {
                assert(c@ =~= seq!['.', '.']);
                assert(named[i - skip] == seq!['.', '.']);
            }
            return Err("path traversal denied");
        }
        proof {
            if named[i - skip] == seq!['.', '.'] {
                assert(c@[0] == '.' && c@[1] == '.');
            }
        }
        parts.push(string_of(c.as_slice()));
        i = i + 1;
    }
    proof {
        if named.contains(seq!['.', '.']) {
            let k = choose|k: int| 0 <= k < named.len() && named[k] == seq!['.', '.'];
            assert(named[k] != seq!['.', '.']);
        }
    }
    Ok(parts)
}

} // verus!
