//! Reading `ls -la -n` rows from toybox (Android) and BSD (iOS) into file
//! entries, including rows for inaccessible entries and symbolic links.
use crate::models::RemoteFileEntry;
use crate::text;
use vstd::prelude::*;

verus! {

/// The character whose UTF-8 encoding starts at byte `off` of `s`.
pub open spec fn char_at_byte(s: Seq<char>, off: int) -> Option<char>
    decreases s.len(),
{
    if s.len() == 0 || off < 0 {
        None
    } else if off == 0 {
        Some(s[0])
    } else {
        char_at_byte(s.drop_first(), off - text::char_utf8_len(s[0]))
    }
}

fn char_at_byte_exec(s: &[char], off: usize) -> (r: Option<char>)
    ensures
        r == char_at_byte(s@, off as int),
{
    let mut i: usize = 0;
    let mut o: usize = 0;
    assert(s@.skip(0) =~= s@);
    while i < s.len()
        invariant
            i <= s@.len(),
            o <= off,
            char_at_byte(s@, off as int) == char_at_byte(s@.skip(i as int), off - o),
        decreases s@.len() - i,
    {
        if o == off {
            return Some(s[i]);
        }
        let n = text::char_utf8_len_exec(s[i]);
        assert(s@.skip(i as int).drop_first() =~= s@.skip(i + 1));
        if n > off - o {
            assert(char_at_byte(s@.skip(i + 1), off - o - n) is None) by {
                assert(off - o - n < 0);
            }
            return None;
        }
        o = o + n;
        i = i + 1;
    }
    None
}

/// The index of the first name field: after the date of a toybox row
/// (`YYYY-MM-DD HH:MM`), after the `?` of an inaccessible row, or after the
/// three date fields of a BSD row.
pub open spec fn name_index(f: Seq<Seq<char>>) -> int {
    if f[5] == seq!['?'] {
        6
    } else if text::utf8_len(f[5]) == 10 && char_at_byte(f[5], 4) == Some('-') {
        7
    } else {
        8
    }
}

/// The fields form a listing row with a name.
pub open spec fn listing_row(f: Seq<Seq<char>>) -> bool {
    &&& f.len() >= 7
    &&& text::utf8_len(f[0]) >= 10
    &&& f.len() > name_index(f)
}

/// The displayed name and, for a link row, its target.
pub open spec fn name_and_target(f: Seq<Seq<char>>) -> (Seq<char>, Option<Seq<char>>) {
    let display = text::join(f.skip(name_index(f)), seq![' ']);
    if text::starts_with(f[0], seq!['l']) {
        match text::split_once(display, " -> "@) {
            Some((n, t)) => (n, Some(t)),
            None => (display, None),
        }
    } else {
        (display, None)
    }
}

/// The row describes an entry other than `.` and `..`.
pub open spec fn listed_entry(f: Seq<Seq<char>>) -> bool {
    listing_row(f) && name_and_target(f).0 != seq!['.'] && name_and_target(f).0 != seq!['.', '.']
}

/// The path of `name` inside directory `parent`.
pub open spec fn child_path(parent: Seq<char>, name: Seq<char>) -> Seq<char> {
    if parent == seq!['/'] {
        seq!['/'] + name
    } else {
        text::trim_end_char(parent, '/') + seq!['/'] + name
    }
}

/// The entry kind given by the first character of the permissions.
pub open spec fn entry_kind(permissions: Seq<char>) -> Seq<char> {
    if permissions[0] == 'd' {
        "directory"@
    } else if permissions[0] == 'l' {
        "link"@
    } else if permissions[0] == '-' {
        "file"@
    } else {
        "unknown"@
    }
}

/// `e` is the entry read from the row fields `f` inside `parent`.
pub open spec fn entry_from(e: RemoteFileEntry, parent: Seq<char>, f: Seq<Seq<char>>) -> bool {
    let (name, target) = name_and_target(f);
    &&& e.name@ == name
    &&& e.path@ == child_path(parent, name)
    &&& e.kind@ == entry_kind(f[0])
    &&& text::opt_view(e.permissions) == Some(f[0])
    &&& text::opt_view(e.owner) == Some(f[2])
    &&& text::opt_view(e.group) == Some(f[3])
    &&& e.size == (match text::parse_uint(f[4], u64::MAX as nat) {
        Some(n) => Some(n as u64),
        None => None,
    })
    &&& text::opt_view(e.modified) == Some(text::join(f.subrange(5, name_index(f)), seq![' ']))
    &&& text::opt_view(e.link_target) == target
}

fn path_in(parent: &str, name: &[char]) -> (r: String)
    ensures
        r@ == child_path(parent@, name@),
{
    let p = text::chars_of(parent);
    let mut out: Vec<char>;
    if p.len() == 1 && p[0] == '/' {
        assert(p@ =~= seq!['/']);
        out = vec!['/'];
    } else {
        proof {
            if p@ == seq!['/'] {
                assert(p@[0] == '/');
            }
        }
        out = text::trim_end_char_exec(&p, '/');
        out.push('/');
    }
    text::append(&mut out, name);
    proof {
        if p@ == seq!['/'] {
            assert(out@ =~= seq!['/'] + name@);
        } else {
            assert(out@ =~= text::trim_end_char(parent@, '/') + seq!['/'] + name@);
        }
    }
    text::string_of(&out)
}

/// Reads one `ls -la -n` row of directory `parent`; header, total, `.` and
/// `..` rows give `None`.
pub fn parse_ls_line(parent: &str, line: &str) -> (r: Option<RemoteFileEntry>)
    ensures
        match r {
            Some(e) => listed_entry(text::words(line@)) && entry_from(e, parent@, text::words(line@)),
            None => !listed_entry(text::words(line@)),
        },
{
    let cs = text::chars_of(line);
    let fields = text::words_exec(&cs);
    let ghost f = text::views(fields@);
    if fields.len() < 7 || text::utf8_len_capped(&fields[0], 10) < 10 {
        return None;
    }
    assert(f[0] == fields@[0]@ && f[5] == fields@[5]@);
    let ni: usize = if fields[5].len() == 1 && fields[5][0] == '?' {
        assert(fields@[5]@ =~= seq!['?']);
        6
    } else {
        proof {
            if f[5] == seq!['?'] {
                assert(fields@[5]@[0] == '?');
            }
        }
        if text::utf8_len_capped(&fields[5], 11) == 10 && char_at_byte_exec(&fields[5], 4) == Some(
            '-',
        ) {
            7
        } else {
            8
        }
    };
    assert(ni == name_index(f));
    if fields.len() <= ni {
        return None;
    }
    let tail = slice_lines(&fields, ni, fields.len());
    assert(text::views(tail@) =~= f.skip(ni as int));
    let space: Vec<char> = vec![' '];
    assert(space@ =~= seq![' ']);
    let display = text::join_exec(&tail, &space);
    let perm = &fields[0];
    let is_link = perm[0] == 'l';
    proof {
        if text::starts_with(perm@, seq!['l']) {
            assert(perm@.take(1)[0] == perm@[0]);
        }
        if perm@[0] == 'l' {
            assert(perm@.take(1) =~= seq!['l']);
        }
    }
    let (name, target): (Vec<char>, Option<Vec<char>>) = if is_link {
        match text::split_once_str(&display, " -> ") {
            Some((n, t)) => (n, Some(t)),
            None => (display, None),
        }
    } else {
        (display, None)
    };
    let is_dot = name.len() == 1 && name[0] == '.';
    let is_dotdot = name.len() == 2 && name[0] == '.' && name[1] == '.';
    proof {
        if is_dot {
            assert(name@ =~= seq!['.']);
        }
        if is_dotdot {
            assert(name@ =~= seq!['.', '.']);
        }
        if name@ == seq!['.'] {
            assert(name@[0] == '.');
        }
        if name@ == seq!['.', '.'] {
            assert(name@[0] == '.' && name@[1] == '.');
        }
    }
    if is_dot || is_dotdot {
        return None;
    }
    let path = path_in(parent, &name);
    let kind = if perm[0] == 'd' {
        "directory"
    } else if perm[0] == 'l' {
        "link"
    } else if perm[0] == '-' {
        "file"
    } else {
        "unknown"
    };
    let middle = slice_lines(&fields, 5, ni);
    assert(text::views(middle@) =~= f.subrange(5, ni as int));
    let modified = text::join_exec(&middle, &space);
    assert(f[2] == fields@[2]@ && f[3] == fields@[3]@ && f[4] == fields@[4]@);
    let size = match text::parse_uint_exec(&fields[4], u64::MAX) {
        Some(n) => Some(n),
        None => None,
    };
    Some(
        RemoteFileEntry {
            name: text::string_of(&name),
            path,
            kind: text::copy_str(kind),
            permissions: Some(text::string_of(perm)),
            owner: Some(text::string_of(&fields[2])),
            group: Some(text::string_of(&fields[3])),
            size,
            modified: Some(text::string_of(&modified)),
            link_target: match target {
                Some(t) => Some(text::string_of(&t)),
                None => None,
            },
        },
    )
}

/// Copies `v[a..b]`.
fn slice_lines(v: &[Vec<char>], a: usize, b: usize) -> (r: Vec<Vec<char>>)
    requires
        a <= b <= v@.len(),
    ensures
        text::views(r@) == text::views(v@).subrange(a as int, b as int),
{
    let mut r: Vec<Vec<char>> = Vec::new();
    let mut i: usize = a;
    while i < b
        invariant
            a <= i <= b <= v@.len(),
            text::views(r@) == text::views(v@).subrange(a as int, i as int),
        decreases b - i,
    {
        let ghost before = r@;
        let c = text::copy_chars(&v[i]);
        r.push(c);
        assert(text::views(r@) =~= text::views(before).push(v@[i as int]@));
        assert(text::views(v@).subrange(a as int, i + 1) =~= text::views(v@).subrange(
            a as int,
            i as int,
        ).push(v@[i as int]@));
        i = i + 1;
    }
    r
}

/// The entries of a listing, in order.
pub open spec fn listing_entries_ok(r: Seq<RemoteFileEntry>, parent: Seq<char>, ls: Seq<Seq<char>>) -> bool {
    r.len() == listed_rows(ls).len() && forall|i: int|
        0 <= i < r.len() ==> entry_from(#[trigger] r[i], parent, listed_rows(ls)[i])
}

/// The fields of the rows that describe entries, in order.
pub open spec fn listed_rows(ls: Seq<Seq<char>>) -> Seq<Seq<Seq<char>>>
    decreases ls.len(),
{
    if ls.len() == 0 {
        Seq::empty()
    } else {
        listed_rows(ls.drop_last()) + if listed_entry(text::words(ls.last())) {
            seq![text::words(ls.last())]
        } else {
            Seq::empty()
        }
    }
}

/// Reads a whole `ls -la -n` listing of `parent`.
pub fn parse_ls_output(parent: &str, output: &str) -> (r: Vec<RemoteFileEntry>)
    ensures
        listing_entries_ok(r@, parent@, text::lines(output@)),
{
    let ls = text::lines_of(output);
    let ghost vs = text::views(ls@);
    let mut r: Vec<RemoteFileEntry> = Vec::new();
    let mut i: usize = 0;
    while i < ls.len()
        invariant
            vs == text::views(ls@),
            i <= ls@.len(),
            listing_entries_ok(r@, parent@, vs.take(i as int)),
        decreases ls@.len() - i,
    {
        let ghost prev = listed_rows(vs.take(i as int));
        assert(vs.take(i + 1).drop_last() =~= vs.take(i as int));
        assert(vs.take(i + 1).last() == ls@[i as int]@);
        let line = text::string_of(&ls[i]);
        match parse_ls_line(parent, line.as_str()) {
            Some(e) => {
                r.push(e);
                assert(listed_rows(vs.take(i + 1)) =~= prev + seq![text::words(ls@[i as int]@)]);
            },
            None => {
                assert(listed_rows(vs.take(i + 1)) =~= prev + Seq::<Seq<Seq<char>>>::empty());
            },
        }
        i = i + 1;
    }
    assert(vs.take(ls@.len() as int) =~= vs);
    r
}

/// The kind of a listed entry follows the first character of its
/// permissions: `-` is a regular file, `d` a directory, `l` a symbolic link,
/// and anything else is reported as unknown; the four kinds are distinct.
pub proof fn lemma_entry_kind_of_permissions(e: RemoteFileEntry, parent: Seq<char>, f: Seq<Seq<char>>)
    requires
        entry_from(e, parent, f),
        f[0].len() > 0,
    ensures
        f[0][0] == '-' ==> e.kind@ == "file"@,
        f[0][0] == 'd' ==> e.kind@ == "directory"@,
        f[0][0] == 'l' ==> e.kind@ == "link"@,
        f[0][0] != '-' && f[0][0] != 'd' && f[0][0] != 'l' ==> e.kind@ == "unknown"@,
        "file"@ != "directory"@ && "file"@ != "link"@ && "file"@ != "unknown"@,
        "directory"@ != "link"@ && "directory"@ != "unknown"@ && "link"@ != "unknown"@,
{
    reveal_strlit("file");
    reveal_strlit("directory");
    reveal_strlit("link");
    reveal_strlit("unknown");
    assert("file"@.len() != "directory"@.len());
    assert("file"@[0] != "link"@[0]);
    assert("file"@.len() != "unknown"@.len());
    assert("directory"@.len() != "link"@.len());
    assert("directory"@.len() != "unknown"@.len());
    assert("link"@.len() != "unknown"@.len());
}

} // verus!
