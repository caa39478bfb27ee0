//! Unix path names as `std::path::Path` reads them: components, file
//! name, stem and extension.
use crate::text;
use vstd::prelude::*;

verus! {

/// The normal components of a path: the pieces between slashes, without
/// empty pieces and without `.`.
pub open spec fn components(p: Seq<char>) -> Seq<Seq<char>> {
    keep_components(text::split(p, '/'))
}

pub open spec fn keep_components(parts: Seq<Seq<char>>) -> Seq<Seq<char>>
    decreases parts.len(),
{
    if parts.len() == 0 {
        Seq::empty()
    } else {
        keep_components(parts.drop_last()) + if parts.last().len() == 0 || parts.last()
            == seq!['.'] {
            Seq::empty()
        } else {
            seq![parts.last()]
        }
    }
}

pub fn components_exec(p: &[char]) -> (r: Vec<Vec<char>>)
    ensures
        text::views(r@) == components(p@),
{
    let parts = text::split_exec(p, '/');
    let ghost ps = text::views(parts@);
    let mut r: Vec<Vec<char>> = Vec::new();
    let mut i: usize = 0;
    while i < parts.len()
        invariant
            ps == text::views(parts@),
            i <= parts@.len(),
            text::views(r@) == keep_components(ps.take(i as int)),
        decreases parts@.len() - i,
    {
        let ghost before = r@;
        assert(ps.take(i + 1).drop_last() =~= ps.take(i as int));
        assert(ps.take(i + 1).last() == parts@[i as int]@);
        let part = &parts[i];
        let skip = part.len() == 0 || (part.len() == 1 && part[0] == '.');
        proof {
            if part@.len() == 1 && part@[0] == '.' {
                assert(part@ =~= seq!['.']);
            }
            if part@ == seq!['.'] {
                assert(part@[0] == '.');
            }
        }
        if !skip {
            let c = text::copy_chars(part);
            r.push(c);
            assert(text::views(r@) =~= text::views(before) + seq![part@]);
        } else {
            assert(text::views(r@) =~= text::views(before) + Seq::<Seq<char>>::empty());
        }
        i = i + 1;
    }
    assert(ps.take(parts@.len() as int) =~= ps);
    r
}

/// `Path::file_name`: the last normal component, unless it is `..`.
pub open spec fn file_name(p: Seq<char>) -> Option<Seq<char>> {
    let c = components(p);
    if c.len() > 0 && c.last() != seq!['.', '.'] {
        Some(c.last())
    } else {
        None
    }
}

pub fn file_name_exec(p: &[char]) -> (r: Option<Vec<char>>)
    ensures
        match r {
            Some(v) => file_name(p@) == Some(v@),
            None => file_name(p@) is None,
        },
{
    let c = components_exec(p);
    if c.len() == 0 {
        return None;
    }
    let last = &c[c.len() - 1];
    assert(text::views(c@).last() == last@);
    let dotdot = last.len() == 2 && last[0] == '.' && last[1] == '.';
    proof {
        if dotdot {
            assert(last@ =~= seq!['.', '.']);
        }
        if last@ == seq!['.', '.'] {
            assert(last@[0] == '.' && last@[1] == '.');
        }
    }
    if dotdot {
        None
    } else {
        Some(text::copy_chars(last))
    }
}

/// A file name split at its last dot: the stem and the extension (none
/// when the only dot starts the name, or for `..`).
pub open spec fn split_at_dot(f: Seq<char>) -> (Seq<char>, Option<Seq<char>>) {
    if f == seq!['.', '.'] {
        (f, None)
    } else {
        match text::rfind(f, seq!['.']) {
            Some(i) => if i == 0 {
                (f, None)
            } else {
                (f.take(i), Some(f.skip(i + 1)))
            },
            None => (f, None),
        }
    }
}

fn split_at_dot_exec(f: &[char]) -> (r: (Vec<char>, Option<Vec<char>>))
    ensures
        r.0@ == split_at_dot(f@).0,
        match r.1 {
            Some(e) => split_at_dot(f@).1 == Some(e@),
            None => split_at_dot(f@).1 is None,
        },
{
    let dotdot = f.len() == 2 && f[0] == '.' && f[1] == '.';
    proof {
        if dotdot {
            assert(f@ =~= seq!['.', '.']);
        }
        if f@ == seq!['.', '.'] {
            assert(f@[0] == '.' && f@[1] == '.');
        }
    }
    if dotdot {
        return (text::copy_chars(f), None);
    }
    let dot: Vec<char> = vec!['.'];
    assert(dot@ =~= seq!['.']);
    match text::rfind_exec(f, &dot) {
        Some(i) => {
            proof {
                text::lemma_rfind_upto_bounds(f@, dot@, f@.len() - 1);
            }
            if i == 0 {
                (text::copy_chars(f), None)
            } else {
                let stem = text::slice_chars(f, 0, i);
                let ext = text::slice_chars(f, i + 1, f.len());
                assert(stem@ =~= f@.take(i as int));
                (stem, Some(ext))
            }
        },
        None => (text::copy_chars(f), None),
    }
}

/// `Path::file_stem`.
pub open spec fn file_stem(p: Seq<char>) -> Option<Seq<char>> {
    match file_name(p) {
        Some(f) => Some(split_at_dot(f).0),
        None => None,
    }
}

/// `Path::extension`.
pub open spec fn extension(p: Seq<char>) -> Option<Seq<char>> {
    match file_name(p) {
        Some(f) => split_at_dot(f).1,
        None => None,
    }
}

pub fn file_stem_exec(p: &[char]) -> (r: Option<Vec<char>>)
    ensures
        match r {
            Some(v) => file_stem(p@) == Some(v@),
            None => file_stem(p@) is None,
        },
{
    match file_name_exec(p) {
        Some(f) => Some(split_at_dot_exec(&f).0),
        None => None,
    }
}

pub fn extension_exec(p: &[char]) -> (r: Option<Vec<char>>)
    ensures
        match r {
            Some(v) => extension(p@) == Some(v@),
            None => extension(p@) is None,
        },
{
    match file_name_exec(p) {
        Some(f) => split_at_dot_exec(&f).1,
        None => None,
    }
}

} // verus!
