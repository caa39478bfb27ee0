//! Character-level text primitives with exact specifications.
//!
//! Strings are modelled by their character sequences (`Seq<char>`). Each spec
//! function below states the meaning of the corresponding standard-library
//! operation (`str::trim`, `str::lines`, `str::split_whitespace`, ...) and each
//! executable function is proved to compute it.
use vstd::prelude::*;

verus! {

// ---------------------------------------------------------------------------
// Character classes
// ---------------------------------------------------------------------------

/// `char::is_whitespace`: the Unicode `White_Space` property.
pub open spec fn is_ws(c: char) -> bool {
    ||| ('\t' <= c && c <= '\r')
    ||| c == ' '
    ||| c == '\u{85}'
    ||| c == '\u{a0}'
    ||| c == '\u{1680}'
    ||| ('\u{2000}' <= c && c <= '\u{200a}')
    ||| c == '\u{2028}'
    ||| c == '\u{2029}'
    ||| c == '\u{202f}'
    ||| c == '\u{205f}'
    ||| c == '\u{3000}'
}

/// `char::is_control`: the Unicode general category `Cc`.
pub open spec fn is_control(c: char) -> bool {
    c <= '\u{1f}' || ('\u{7f}' <= c && c <= '\u{9f}')
}

pub open spec fn is_digit(c: char) -> bool {
    '0' <= c && c <= '9'
}

pub open spec fn is_alpha(c: char) -> bool {
    ('a' <= c && c <= 'z') || ('A' <= c && c <= 'Z')
}

pub open spec fn is_alnum(c: char) -> bool {
    is_digit(c) || is_alpha(c)
}

/// `char::to_ascii_lowercase`.
pub open spec fn lower_char(c: char) -> char {
    if 'A' <= c && c <= 'Z' {
        ((c as u32) + 32) as char
    } else {
        c
    }
}

/// `str::to_ascii_lowercase`.
pub open spec fn lower(s: Seq<char>) -> Seq<char> {
    s.map_values(|c: char| lower_char(c))
}

pub fn is_ws_exec(c: char) -> (b: bool)
    ensures
        b == is_ws(c),
{
    ('\t' <= c && c <= '\r') || c == ' ' || c == '\u{85}' || c == '\u{a0}' || c == '\u{1680}'
        || ('\u{2000}' <= c && c <= '\u{200a}') || c == '\u{2028}' || c == '\u{2029}' || c
        == '\u{202f}' || c == '\u{205f}' || c == '\u{3000}'
}

pub fn is_control_exec(c: char) -> (b: bool)
    ensures
        b == is_control(c),
{
    c <= '\u{1f}' || ('\u{7f}' <= c && c <= '\u{9f}')
}

pub fn is_digit_exec(c: char) -> (b: bool)
    ensures
        b == is_digit(c),
{
    '0' <= c && c <= '9'
}

pub fn is_alnum_exec(c: char) -> (b: bool)
    ensures
        b == is_alnum(c),
{
    ('0' <= c && c <= '9') || ('a' <= c && c <= 'z') || ('A' <= c && c <= 'Z')
}

pub fn is_alpha_exec(c: char) -> (b: bool)
    ensures
        b == is_alpha(c),
{
    ('a' <= c && c <= 'z') || ('A' <= c && c <= 'Z')
}

pub fn lower_char_exec(c: char) -> (r: char)
    ensures
        r == lower_char(c),
{
    if 'A' <= c && c <= 'Z' {
        let u: u32 = (c as u32) + 32;
        assert(0x41 + 32 <= u <= 0x5a + 32);
        char_from_ascii(u)
    } else {
        c
    }
}

/// Converts a code point below 0x80 to its character.
fn char_from_ascii(u: u32) -> (c: char)
    requires
        u < 0x80,
    ensures
        c == u as char,
        c as u32 == u,
{
    let b: u8 = u as u8;
    b as char
}

pub fn lower_exec(s: &[char]) -> (r: Vec<char>)
    ensures
        r@ == lower(s@),
{
    let mut r: Vec<char> = Vec::new();
    let mut i: usize = 0;
    while i < s.len()
        invariant
            i <= s@.len(),
            r@ == lower(s@.take(i as int)),
        decreases s@.len() - i,
    {
        let c = lower_char_exec(s[i]);
        r.push(c);
        i = i + 1;
        assert(r@ =~= lower(s@.take(i as int)));
    }
    assert(s@.take(s@.len() as int) =~= s@);
    r
}

// ---------------------------------------------------------------------------
// Conversions between `str`/`String` and character vectors
// ---------------------------------------------------------------------------

/// Appends one character to a `String` (std's `String::push`).
/// The contract states what std documents: the character is added at the end.
#[verifier::external_body]
pub(crate) fn push_char(s: &mut String, c: char)
    ensures
        final(s)@ == old(s)@.push(c),
{
    s.push(c);
}

/// The characters of `s`, in order.
pub fn chars_of(s: &str) -> (v: Vec<char>)
    ensures
        v@ == s@,
{
    let mut v: Vec<char> = Vec::new();
    for c in it: s.chars()
        invariant
            it.seq() == s@,
            v@ == s@.take(it.index() as int),
    {
        assert(s@.take(it.index() + 1) =~= s@.take(it.index() as int).push(c));
        v.push(c);
    }
    assert(v@ =~= s@);
    v
}

/// Builds a `String` holding exactly the characters `cs`.
pub fn string_of(cs: &[char]) -> (s: String)
    ensures
        s@ == cs@,
{
    let mut s = String::new();
    let mut i: usize = 0;
    while i < cs.len()
        invariant
            i <= cs@.len(),
            s@ == cs@.take(i as int),
        decreases cs@.len() - i,
    {
        push_char(&mut s, cs[i]);
        assert(cs@.take(i + 1) =~= cs@.take(i as int).push(cs@[i as int]));
        i = i + 1;
    }
    assert(cs@.take(cs@.len() as int) =~= cs@);
    s
}

/// Copies a string.
pub fn copy_str(s: &str) -> (r: String)
    ensures
        r@ == s@,
{
    let v = chars_of(s);
    string_of(&v)
}

/// Copies a character slice into a vector.
pub fn copy_chars(s: &[char]) -> (r: Vec<char>)
    ensures
        r@ == s@,
{
    let mut r: Vec<char> = Vec::new();
    let mut i: usize = 0;
    while i < s.len()
        invariant
            i <= s@.len(),
            r@ == s@.take(i as int),
        decreases s@.len() - i,
    {
        r.push(s[i]);
        i = i + 1;
        assert(r@ =~= s@.take(i as int));
    }
    assert(r@ =~= s@);
    r
}

/// The characters of `s` from index `a` up to (excluding) `b`.
pub fn slice_chars(s: &[char], a: usize, b: usize) -> (r: Vec<char>)
    requires
        a <= b <= s@.len(),
    ensures
        r@ == s@.subrange(a as int, b as int),
{
    let mut r: Vec<char> = Vec::new();
    let mut i: usize = a;
    while i < b
        invariant
            a <= i <= b <= s@.len(),
            r@ == s@.subrange(a as int, i as int),
        decreases b - i,
    {
        r.push(s[i]);
        i = i + 1;
        assert(r@ =~= s@.subrange(a as int, i as int));
    }
    r
}

/// Concatenation `a + b`.
pub fn concat(a: &[char], b: &[char]) -> (r: Vec<char>)
    ensures
        r@ == a@ + b@,
{
    let mut r = copy_chars(a);
    let mut i: usize = 0;
    while i < b.len()
        invariant
            i <= b@.len(),
            r@ == a@ + b@.take(i as int),
        decreases b@.len() - i,
    {
        r.push(b[i]);
        i = i + 1;
        assert(r@ =~= a@ + b@.take(i as int));
    }
    assert(b@.take(b@.len() as int) =~= b@);
    r
}

/// Appends `b` to `r` in place.
pub fn append(r: &mut Vec<char>, b: &[char])
    ensures
        final(r)@ == old(r)@ + b@,
{
    let ghost start = r@;
    let mut i: usize = 0;
    while i < b.len()
        invariant
            i <= b@.len(),
            r@ == start + b@.take(i as int),
        decreases b@.len() - i,
    {
        r.push(b[i]);
        i = i + 1;
        assert(r@ =~= start + b@.take(i as int));
    }
    assert(b@.take(b@.len() as int) =~= b@);
}

/// Appends the characters of `b` to `r` in place.
pub fn append_str(r: &mut Vec<char>, b: &str)
    ensures
        final(r)@ == old(r)@ + b@,
{
    let v = chars_of(b);
    append(r, &v);
}

// ---------------------------------------------------------------------------
// Equality, prefixes and suffixes
// ---------------------------------------------------------------------------

pub fn seq_eq(a: &[char], b: &[char]) -> (r: bool)
    ensures
        r == (a@ == b@),
{
    if a.len() != b.len() {
        return false;
    }
    let mut i: usize = 0;
    while i < a.len()
        invariant
            a@.len() == b@.len(),
            i <= a@.len(),
            forall|j: int| 0 <= j < i ==> a@[j] == b@[j],
        decreases a@.len() - i,
    {
        if a[i] != b[i] {
            return false;
        }
        i = i + 1;
    }
    assert(a@ =~= b@);
    true
}

/// Equality with the characters of a string slice.
pub fn eq_str(a: &[char], b: &str) -> (r: bool)
    ensures
        r == (a@ == b@),
{
    let v = chars_of(b);
    seq_eq(a, &v)
}

pub open spec fn starts_with(s: Seq<char>, p: Seq<char>) -> bool {
    p.len() <= s.len() && s.take(p.len() as int) == p
}

pub open spec fn ends_with(s: Seq<char>, p: Seq<char>) -> bool {
    p.len() <= s.len() && s.skip(s.len() - p.len()) == p
}

/// `p` occurs in `s` at index `i`.
pub open spec fn matches_at(s: Seq<char>, p: Seq<char>, i: int) -> bool {
    0 <= i && i + p.len() <= s.len() && s.subrange(i, i + p.len()) == p
}

pub fn matches_at_exec(s: &[char], p: &[char], i: usize) -> (r: bool)
    ensures
        r == matches_at(s@, p@, i as int),
{
    if i > s.len() || p.len() > s.len() - i {
        return false;
    }
    let n = s.len();
    let mut j: usize = 0;
    while j < p.len()
        invariant
            n == s@.len(),
            i + p@.len() <= s@.len(),
            j <= p@.len(),
            forall|k: int| 0 <= k < j ==> s@[i + k] == p@[k],
        decreases p@.len() - j,
    {
        if s[i + j] != p[j] {
            assert(s@.subrange(i as int, i + p@.len())[j as int] != p@[j as int]);
            return false;
        }
        j = j + 1;
    }
    assert(s@.subrange(i as int, i + p@.len()) =~= p@);
    true
}

pub fn starts_with_exec(s: &[char], p: &[char]) -> (r: bool)
    ensures
        r == starts_with(s@, p@),
{
    let r = matches_at_exec(s, p, 0);
    assert(p@.len() <= s@.len() ==> s@.subrange(0, p@.len() as int) =~= s@.take(p@.len() as int));
    r
}

pub fn ends_with_exec(s: &[char], p: &[char]) -> (r: bool)
    ensures
        r == ends_with(s@, p@),
{
    if p.len() > s.len() {
        return false;
    }
    let r = matches_at_exec(s, p, s.len() - p.len());
    assert(s@.subrange(s@.len() - p@.len(), s@.len() as int) =~= s@.skip(s@.len() - p@.len()));
    r
}

pub fn starts_with_str(s: &[char], p: &str) -> (r: bool)
    ensures
        r == starts_with(s@, p@),
{
    let v = chars_of(p);
    starts_with_exec(s, &v)
}

pub fn ends_with_str(s: &[char], p: &str) -> (r: bool)
    ensures
        r == ends_with(s@, p@),
{
    let v = chars_of(p);
    ends_with_exec(s, &v)
}

/// `str::strip_prefix`.
pub open spec fn strip_prefix(s: Seq<char>, p: Seq<char>) -> Option<Seq<char>> {
    if starts_with(s, p) {
        Some(s.skip(p.len() as int))
    } else {
        None
    }
}

/// `str::strip_suffix`.
pub open spec fn strip_suffix(s: Seq<char>, p: Seq<char>) -> Option<Seq<char>> {
    if ends_with(s, p) {
        Some(s.take(s.len() - p.len()))
    } else {
        None
    }
}

pub fn strip_prefix_str(s: &[char], p: &str) -> (r: Option<Vec<char>>)
    ensures
        match r {
            Some(v) => strip_prefix(s@, p@) == Some(v@),
            None => strip_prefix(s@, p@) is None,
        },
{
    let pv = chars_of(p);
    if starts_with_exec(s, &pv) {
        Some(slice_chars(s, pv.len(), s.len()))
    } else {
        None
    }
}

pub fn strip_suffix_str(s: &[char], p: &str) -> (r: Option<Vec<char>>)
    ensures
        match r {
            Some(v) => strip_suffix(s@, p@) == Some(v@),
            None => strip_suffix(s@, p@) is None,
        },
{
    let pv = chars_of(p);
    if ends_with_exec(s, &pv) {
        let v = slice_chars(s, 0, s.len() - pv.len());
        assert(v@ =~= s@.take(s@.len() - pv@.len()));
        Some(v)
    } else {
        None
    }
}

// ---------------------------------------------------------------------------
// Trimming
// ---------------------------------------------------------------------------

/// `str::trim_start`.
pub open spec fn trim_start(s: Seq<char>) -> Seq<char>
    decreases s.len(),
{
    if s.len() > 0 && is_ws(s[0]) {
        trim_start(s.drop_first())
    } else {
        s
    }
}

/// `str::trim_end`.
pub open spec fn trim_end(s: Seq<char>) -> Seq<char>
    decreases s.len(),
{
    if s.len() > 0 && is_ws(s.last()) {
        trim_end(s.drop_last())
    } else {
        s
    }
}

/// `str::trim`.
pub open spec fn trim(s: Seq<char>) -> Seq<char> {
    trim_end(trim_start(s))
}

/// `str::trim_end_matches(c)` for a single character.
pub open spec fn trim_end_char(s: Seq<char>, c: char) -> Seq<char>
    decreases s.len(),
{
    if s.len() > 0 && s.last() == c {
        trim_end_char(s.drop_last(), c)
    } else {
        s
    }
}

/// `str::trim_start_matches(c)` for a single character.
pub open spec fn trim_start_char(s: Seq<char>, c: char) -> Seq<char>
    decreases s.len(),
{
    if s.len() > 0 && s[0] == c {
        trim_start_char(s.drop_first(), c)
    } else {
        s
    }
}

pub fn trim_start_exec(s: &[char]) -> (r: Vec<char>)
    ensures
        r@ == trim_start(s@),
{
    let mut i: usize = 0;
    assert(s@.skip(0) =~= s@);
    while i < s.len() && is_ws_exec(s[i])
        invariant
            i <= s@.len(),
            trim_start(s@) == trim_start(s@.skip(i as int)),
        decreases s@.len() - i,
    {
        assert(s@.skip(i as int).drop_first() =~= s@.skip(i + 1));
        i = i + 1;
    }
    slice_chars(s, i, s.len())
}

pub fn trim_end_exec(s: &[char]) -> (r: Vec<char>)
    ensures
        r@ == trim_end(s@),
{
    let mut n: usize = s.len();
    assert(s@.take(n as int) =~= s@);
    while n > 0 && is_ws_exec(s[n - 1])
        invariant
            n <= s@.len(),
            trim_end(s@) == trim_end(s@.take(n as int)),
        decreases n,
    {
        assert(s@.take(n as int).drop_last() =~= s@.take(n - 1));
        n = n - 1;
    }
    let r = slice_chars(s, 0, n);
    assert(r@ =~= s@.take(n as int));
    r
}

pub fn trim_exec(s: &[char]) -> (r: Vec<char>)
    ensures
        r@ == trim(s@),
{
    let a = trim_start_exec(s);
    trim_end_exec(&a)
}

pub fn trim_end_char_exec(s: &[char], c: char) -> (r: Vec<char>)
    ensures
        r@ == trim_end_char(s@, c),
{
    let mut n: usize = s.len();
    assert(s@.take(n as int) =~= s@);
    while n > 0 && s[n - 1] == c
        invariant
            n <= s@.len(),
            trim_end_char(s@, c) == trim_end_char(s@.take(n as int), c),
        decreases n,
    {
        assert(s@.take(n as int).drop_last() =~= s@.take(n - 1));
        n = n - 1;
    }
    let r = slice_chars(s, 0, n);
    assert(r@ =~= s@.take(n as int));
    r
}

pub fn trim_start_char_exec(s: &[char], c: char) -> (r: Vec<char>)
    ensures
        r@ == trim_start_char(s@, c),
{
    let mut i: usize = 0;
    assert(s@.skip(0) =~= s@);
    while i < s.len() && s[i] == c
        invariant
            i <= s@.len(),
            trim_start_char(s@, c) == trim_start_char(s@.skip(i as int), c),
        decreases s@.len() - i,
    {
        assert(s@.skip(i as int).drop_first() =~= s@.skip(i + 1));
        i = i + 1;
    }
    slice_chars(s, i, s.len())
}


// ---------------------------------------------------------------------------
// Splitting
// ---------------------------------------------------------------------------

/// The character sequences held by a vector of character vectors.
pub open spec fn views(v: Seq<Vec<char>>) -> Seq<Seq<char>> {
    v.map_values(|x: Vec<char>| x@)
}

/// `str::split(sep)`, with `cur` the piece collected so far.
pub open spec fn split_acc(s: Seq<char>, sep: char, cur: Seq<char>) -> Seq<Seq<char>>
    decreases s.len(),
{
    if s.len() == 0 {
        seq![cur]
    } else if s[0] == sep {
        seq![cur] + split_acc(s.drop_first(), sep, Seq::empty())
    } else {
        split_acc(s.drop_first(), sep, cur.push(s[0]))
    }
}

/// `str::split(sep)` for a single-character separator.
pub open spec fn split(s: Seq<char>, sep: char) -> Seq<Seq<char>> {
    split_acc(s, sep, Seq::empty())
}

pub proof fn lemma_split_acc_nonempty(s: Seq<char>, sep: char, cur: Seq<char>)
    ensures
        split_acc(s, sep, cur).len() >= 1,
    decreases s.len(),
{
    if s.len() > 0 {
        if s[0] == sep {
            lemma_split_acc_nonempty(s.drop_first(), sep, Seq::empty());
        } else {
            lemma_split_acc_nonempty(s.drop_first(), sep, cur.push(s[0]));
        }
    }
}

pub fn split_exec(s: &[char], sep: char) -> (r: Vec<Vec<char>>)
    ensures
        views(r@) == split(s@, sep),
{
    let mut out: Vec<Vec<char>> = Vec::new();
    let mut cur: Vec<char> = Vec::new();
    let mut i: usize = 0;
    assert(s@.skip(0) =~= s@);
    while i < s.len()
        invariant
            i <= s@.len(),
            views(out@) + split_acc(s@.skip(i as int), sep, cur@) == split(s@, sep),
        decreases s@.len() - i,
    {
        let ghost rest = s@.skip(i as int);
        assert(rest.drop_first() =~= s@.skip(i + 1));
        let c = s[i];
        if c == sep {
            let ghost old_out = out@;
            let done = cur;
            out.push(done);
            cur = Vec::new();
            assert(views(out@) =~= views(old_out) + seq![done@]);
            assert(views(out@) + split_acc(s@.skip(i + 1), sep, cur@) =~= views(old_out) + (seq![
                done@] + split_acc(s@.skip(i + 1), sep, Seq::empty())));
        } else {
            cur.push(c);
        }
        i = i + 1;
    }
    let ghost old_out = out@;
    out.push(cur);
    assert(s@.skip(i as int) =~= Seq::<char>::empty());
    assert(views(out@) =~= views(old_out) + seq![out@.last()@]);
    out
}

/// `str::split_whitespace`, with `cur` the word collected so far.
pub open spec fn words_acc(s: Seq<char>, cur: Seq<char>) -> Seq<Seq<char>>
    decreases s.len(),
{
    if s.len() == 0 {
        if cur.len() == 0 {
            Seq::empty()
        } else {
            seq![cur]
        }
    } else if is_ws(s[0]) {
        (if cur.len() == 0 {
            Seq::empty()
        } else {
            seq![cur]
        }) + words_acc(s.drop_first(), Seq::empty())
    } else {
        words_acc(s.drop_first(), cur.push(s[0]))
    }
}

/// `str::split_whitespace`.
pub open spec fn words(s: Seq<char>) -> Seq<Seq<char>> {
    words_acc(s, Seq::empty())
}

pub fn words_exec(s: &[char]) -> (r: Vec<Vec<char>>)
    ensures
        views(r@) == words(s@),
{
    let mut out: Vec<Vec<char>> = Vec::new();
    let mut cur: Vec<char> = Vec::new();
    let mut i: usize = 0;
    assert(s@.skip(0) =~= s@);
    while i < s.len()
        invariant
            i <= s@.len(),
            views(out@) + words_acc(s@.skip(i as int), cur@) == words(s@),
        decreases s@.len() - i,
    {
        let ghost rest = s@.skip(i as int);
        assert(rest.drop_first() =~= s@.skip(i + 1));
        let c = s[i];
        if is_ws_exec(c) {
            if cur.len() > 0 {
                let ghost old_out = out@;
                let done = cur;
                out.push(done);
                cur = Vec::new();
                assert(views(out@) =~= views(old_out) + seq![done@]);
                assert(views(out@) + words_acc(s@.skip(i + 1), cur@) =~= views(old_out) + (seq![
                    done@] + words_acc(s@.skip(i + 1), Seq::empty())));
            } else {
                assert(cur@ =~= Seq::<char>::empty());
                assert(views(out@) + words_acc(s@.skip(i + 1), cur@) =~= views(out@) + (
                Seq::<Seq<char>>::empty() + words_acc(s@.skip(i + 1), Seq::empty())));
            }
        } else {
            cur.push(c);
        }
        i = i + 1;
    }
    assert(s@.skip(i as int) =~= Seq::<char>::empty());
    if cur.len() > 0 {
        let ghost old_out = out@;
        out.push(cur);
        assert(views(out@) =~= views(old_out) + seq![out@.last()@]);
    } else {
        assert(views(out@) =~= views(out@) + Seq::<Seq<char>>::empty());
    }
    out
}

/// Removes one trailing carriage return.
pub open spec fn strip_cr(l: Seq<char>) -> Seq<char> {
    if l.len() > 0 && l.last() == '\r' {
        l.drop_last()
    } else {
        l
    }
}

/// `str::lines`: pieces ended by `\n` (with one `\r` before it removed), then
/// the final piece when it is not empty.
pub open spec fn lines(s: Seq<char>) -> Seq<Seq<char>> {
    let parts = split(s, '\n');
    parts.drop_last().map_values(|l: Seq<char>| strip_cr(l)) + (if parts.last().len() == 0 {
        Seq::empty()
    } else {
        seq![parts.last()]
    })
}

pub fn strip_cr_exec(l: &[char]) -> (r: Vec<char>)
    ensures
        r@ == strip_cr(l@),
{
    if l.len() > 0 && l[l.len() - 1] == '\r' {
        let r = slice_chars(l, 0, l.len() - 1);
        assert(r@ =~= l@.drop_last());
        r
    } else {
        copy_chars(l)
    }
}

pub fn lines_exec(s: &[char]) -> (r: Vec<Vec<char>>)
    ensures
        views(r@) == lines(s@),
{
    let parts = split_exec(s, '\n');
    proof {
        lemma_split_acc_nonempty(s@, '\n', Seq::empty());
    }
    let ghost ps = split(s@, '\n');
    let mut out: Vec<Vec<char>> = Vec::new();
    let mut i: usize = 0;
    let n = parts.len();
    while i + 1 < n
        invariant
            n == parts@.len(),
            n >= 1,
            views(parts@) == ps,
            i + 1 <= n,
            views(out@) == ps.take(i as int).map_values(|l: Seq<char>| strip_cr(l)),
        decreases n - i,
    {
        let l = strip_cr_exec(&parts[i]);
        let ghost old_out = out@;
        out.push(l);
        assert(ps[i as int] == parts@[i as int]@);
        assert(views(out@) =~= views(old_out).push(l@));
        assert(ps.take(i + 1).map_values(|l: Seq<char>| strip_cr(l)) =~= ps.take(
            i as int,
        ).map_values(|l: Seq<char>| strip_cr(l)).push(strip_cr(ps[i as int])));
        i = i + 1;
    }
    assert(ps.take(i as int) =~= ps.drop_last());
    let last = &parts[n - 1];
    assert(last@ == ps.last());
    if last.len() > 0 {
        let ghost old_out = out@;
        out.push(copy_chars(last));
        assert(views(out@) =~= views(old_out) + seq![ps.last()]);
    } else {
        assert(views(out@) =~= views(out@) + Seq::<Seq<char>>::empty());
    }
    out
}

/// `str::lines` on a string slice.
pub fn lines_of(s: &str) -> (r: Vec<Vec<char>>)
    ensures
        views(r@) == lines(s@),
{
    let v = chars_of(s);
    lines_exec(&v)
}

/// Each line of `s`, trimmed.
pub open spec fn trimmed_lines(s: Seq<char>) -> Seq<Seq<char>> {
    lines(s).map_values(|l: Seq<char>| trim(l))
}

pub fn trimmed_lines_of(s: &str) -> (r: Vec<Vec<char>>)
    ensures
        views(r@) == trimmed_lines(s@),
{
    let ls = lines_of(s);
    let ghost vs = views(ls@);
    let mut out: Vec<Vec<char>> = Vec::new();
    let mut i: usize = 0;
    while i < ls.len()
        invariant
            i <= ls@.len(),
            vs == views(ls@),
            vs == lines(s@),
            views(out@) == vs.take(i as int).map_values(|l: Seq<char>| trim(l)),
        decreases ls@.len() - i,
    {
        let t = trim_exec(&ls[i]);
        let ghost before = out@;
        out.push(t);
        assert(vs[i as int] == ls@[i as int]@);
        assert(views(out@) =~= views(before).push(t@));
        assert(vs.take(i + 1).map_values(|l: Seq<char>| trim(l)) =~= vs.take(i as int).map_values(
            |l: Seq<char>| trim(l),
        ).push(trim(vs[i as int])));
        i = i + 1;
    }
    assert(vs.take(ls@.len() as int) =~= vs);
    out
}

/// The index of the first line equal to `t`.
pub open spec fn first_index(ls: Seq<Seq<char>>, t: Seq<char>) -> Option<int>
    decreases ls.len(),
{
    if ls.len() == 0 {
        None
    } else if ls[0] == t {
        Some(0)
    } else {
        match first_index(ls.drop_first(), t) {
            Some(k) => Some(k + 1),
            None => None,
        }
    }
}

pub open spec fn shifted(o: Option<int>, by: int) -> Option<int> {
    match o {
        Some(k) => Some(k + by),
        None => None,
    }
}

pub proof fn lemma_first_index_bounds(ls: Seq<Seq<char>>, t: Seq<char>)
    ensures
        first_index(ls, t) matches Some(k) ==> 0 <= k < ls.len() && ls[k] == t,
    decreases ls.len(),
{
    if ls.len() > 0 && ls[0] != t {
        lemma_first_index_bounds(ls.drop_first(), t);
    }
}

pub fn first_index_exec(ls: &[Vec<char>], t: &[char]) -> (r: Option<usize>)
    ensures
        match first_index(views(ls@), t@) {
            Some(k) => r == Some(k as usize),
            None => r is None,
        },
{
    let ghost vs = views(ls@);
    let mut i: usize = 0;
    assert(vs.skip(0) =~= vs);
    while i < ls.len()
        invariant
            i <= ls@.len(),
            vs == views(ls@),
            first_index(vs, t@) == shifted(first_index(vs.skip(i as int), t@), i as int),
        decreases ls@.len() - i,
    {
        assert(vs.skip(i as int)[0] == ls@[i as int]@);
        if seq_eq(&ls[i], t) {
            return Some(i);
        }
        assert(vs.skip(i as int).drop_first() =~= vs.skip(i + 1));
        i = i + 1;
    }
    assert(vs.skip(i as int) =~= Seq::<Seq<char>>::empty());
    None
}

/// The rest of the first line that starts with `p`, after `p`.
pub open spec fn first_stripped(ls: Seq<Seq<char>>, p: Seq<char>) -> Option<Seq<char>>
    decreases ls.len(),
{
    if ls.len() == 0 {
        None
    } else {
        match strip_prefix(ls[0], p) {
            Some(x) => Some(x),
            None => first_stripped(ls.drop_first(), p),
        }
    }
}

pub fn first_stripped_exec(ls: &[Vec<char>], p: &str) -> (r: Option<Vec<char>>)
    ensures
        match first_stripped(views(ls@), p@) {
            Some(x) => r matches Some(v) && v@ == x,
            None => r is None,
        },
{
    let ghost vs = views(ls@);
    let mut i: usize = 0;
    assert(vs.skip(0) =~= vs);
    while i < ls.len()
        invariant
            i <= ls@.len(),
            vs == views(ls@),
            first_stripped(vs, p@) == first_stripped(vs.skip(i as int), p@),
        decreases ls@.len() - i,
    {
        assert(vs.skip(i as int)[0] == ls@[i as int]@);
        match strip_prefix_str(&ls[i], p) {
            Some(x) => {
                return Some(x);
            },
            None => {},
        }
        assert(vs.skip(i as int).drop_first() =~= vs.skip(i + 1));
        i = i + 1;
    }
    assert(vs.skip(i as int) =~= Seq::<Seq<char>>::empty());
    None
}

// ---------------------------------------------------------------------------
// Searching
// ---------------------------------------------------------------------------

/// The first index at or after `i` where `p` occurs in `s`.
pub open spec fn find_from(s: Seq<char>, p: Seq<char>, i: int) -> Option<int>
    decreases s.len() + 1 - i,
{
    if i < 0 || i + p.len() > s.len() {
        None
    } else if matches_at(s, p, i) {
        Some(i)
    } else {
        find_from(s, p, i + 1)
    }
}

/// `str::find`: the first index where `p` occurs.
pub open spec fn find(s: Seq<char>, p: Seq<char>) -> Option<int> {
    find_from(s, p, 0)
}

/// The last index at or before `i` where `p` occurs in `s`.
pub open spec fn rfind_upto(s: Seq<char>, p: Seq<char>, i: int) -> Option<int>
    decreases i + 1,
{
    if i < 0 {
        None
    } else if matches_at(s, p, i) {
        Some(i)
    } else {
        rfind_upto(s, p, i - 1)
    }
}

/// `str::rfind`: the last index where `p` occurs.
pub open spec fn rfind(s: Seq<char>, p: Seq<char>) -> Option<int> {
    rfind_upto(s, p, s.len() - p.len())
}

pub open spec fn contains(s: Seq<char>, p: Seq<char>) -> bool {
    find(s, p) is Some
}

pub proof fn lemma_find_from_bounds(s: Seq<char>, p: Seq<char>, i: int)
    ensures
        find_from(s, p, i) matches Some(k) ==> i <= k && matches_at(s, p, k),
    decreases s.len() + 1 - i,
{
    if !(i < 0 || i + p.len() > s.len()) && !matches_at(s, p, i) {
        lemma_find_from_bounds(s, p, i + 1);
    }
}

pub proof fn lemma_rfind_upto_bounds(s: Seq<char>, p: Seq<char>, i: int)
    ensures
        rfind_upto(s, p, i) matches Some(k) ==> k <= i && matches_at(s, p, k),
    decreases i + 1,
{
    if i >= 0 && !matches_at(s, p, i) {
        lemma_rfind_upto_bounds(s, p, i - 1);
    }
}

pub fn find_exec(s: &[char], p: &[char]) -> (r: Option<usize>)
    ensures
        match r {
            Some(k) => find(s@, p@) == Some(k as int),
            None => find(s@, p@) is None,
        },
{
    if p.len() > s.len() {
        return None;
    }
    if p.len() == 0 {
        assert(s@.subrange(0, 0) =~= p@);
        return Some(0);
    }
    let n = s.len();
    let last = s.len() - p.len();
    let mut i: usize = 0;
    while i <= last
        invariant
            n == s@.len(),
            p@.len() >= 1,
            last + p@.len() == s@.len(),
            i <= last + 1,
            find(s@, p@) == find_from(s@, p@, i as int),
        decreases last + 1 - i,
    {
        if matches_at_exec(s, p, i) {
            return Some(i);
        }
        i = i + 1;
    }
    None
}

pub fn rfind_exec(s: &[char], p: &[char]) -> (r: Option<usize>)
    ensures
        match r {
            Some(k) => rfind(s@, p@) == Some(k as int),
            None => rfind(s@, p@) is None,
        },
{
    if p.len() > s.len() {
        return None;
    }
    let mut i: usize = s.len() - p.len();
    loop
        invariant
            i + p@.len() <= s@.len(),
            rfind(s@, p@) == rfind_upto(s@, p@, i as int),
        decreases i,
    {
        if matches_at_exec(s, p, i) {
            return Some(i);
        }
        if i == 0 {
            assert(rfind_upto(s@, p@, -1) is None);
            return None;
        }
        i = i - 1;
    }
}

pub fn find_str(s: &[char], p: &str) -> (r: Option<usize>)
    ensures
        match r {
            Some(k) => find(s@, p@) == Some(k as int),
            None => find(s@, p@) is None,
        },
{
    let v = chars_of(p);
    find_exec(s, &v)
}

pub fn contains_exec(s: &[char], p: &[char]) -> (r: bool)
    ensures
        r == contains(s@, p@),
{
    find_exec(s, p).is_some()
}

pub fn contains_str(s: &[char], p: &str) -> (r: bool)
    ensures
        r == contains(s@, p@),
{
    let v = chars_of(p);
    contains_exec(s, &v)
}

/// `contains` on string slices.
pub fn str_contains(s: &str, p: &str) -> (r: bool)
    ensures
        r == contains(s@, p@),
{
    let a = chars_of(s);
    contains_str(&a, p)
}

/// `str::split_once`.
pub open spec fn split_once(s: Seq<char>, p: Seq<char>) -> Option<(Seq<char>, Seq<char>)> {
    match find(s, p) {
        Some(i) => Some((s.take(i), s.skip(i + p.len()))),
        None => None,
    }
}

/// `str::rsplit_once`.
pub open spec fn rsplit_once(s: Seq<char>, p: Seq<char>) -> Option<(Seq<char>, Seq<char>)> {
    match rfind(s, p) {
        Some(i) => Some((s.take(i), s.skip(i + p.len()))),
        None => None,
    }
}

pub fn split_once_exec(s: &[char], p: &[char]) -> (r: Option<(Vec<char>, Vec<char>)>)
    ensures
        match r {
            Some((a, b)) => split_once(s@, p@) == Some((a@, b@)),
            None => split_once(s@, p@) is None,
        },
{
    match find_exec(s, p) {
        Some(i) => {
            proof {
                lemma_find_from_bounds(s@, p@, 0);
            }
            let n = s.len();
            let a = slice_chars(s, 0, i);
            let b = slice_chars(s, i + p.len(), n);
            assert(a@ =~= s@.take(i as int));
            Some((a, b))
        },
        None => None,
    }
}

pub fn rsplit_once_exec(s: &[char], p: &[char]) -> (r: Option<(Vec<char>, Vec<char>)>)
    ensures
        match r {
            Some((a, b)) => rsplit_once(s@, p@) == Some((a@, b@)),
            None => rsplit_once(s@, p@) is None,
        },
{
    match rfind_exec(s, p) {
        Some(i) => {
            proof {
                lemma_rfind_upto_bounds(s@, p@, s@.len() - p@.len());
            }
            let n = s.len();
            let a = slice_chars(s, 0, i);
            let b = slice_chars(s, i + p.len(), n);
            assert(a@ =~= s@.take(i as int));
            Some((a, b))
        },
        None => None,
    }
}

pub fn split_once_str(s: &[char], p: &str) -> (r: Option<(Vec<char>, Vec<char>)>)
    ensures
        match r {
            Some((a, b)) => split_once(s@, p@) == Some((a@, b@)),
            None => split_once(s@, p@) is None,
        },
{
    let v = chars_of(p);
    split_once_exec(s, &v)
}

pub fn rsplit_once_str(s: &[char], p: &str) -> (r: Option<(Vec<char>, Vec<char>)>)
    ensures
        match r {
            Some((a, b)) => rsplit_once(s@, p@) == Some((a@, b@)),
            None => rsplit_once(s@, p@) is None,
        },
{
    let v = chars_of(p);
    rsplit_once_exec(s, &v)
}

// ---------------------------------------------------------------------------
// Joining
// ---------------------------------------------------------------------------

/// `[T]::join(sep)`.
pub open spec fn join(parts: Seq<Seq<char>>, sep: Seq<char>) -> Seq<char>
    decreases parts.len(),
{
    if parts.len() == 0 {
        Seq::empty()
    } else if parts.len() == 1 {
        parts[0]
    } else {
        join(parts.drop_last(), sep) + sep + parts.last()
    }
}

pub fn join_exec(parts: &[Vec<char>], sep: &[char]) -> (r: Vec<char>)
    ensures
        r@ == join(views(parts@), sep@),
{
    let mut r: Vec<char> = Vec::new();
    let mut i: usize = 0;
    while i < parts.len()
        invariant
            i <= parts@.len(),
            r@ == join(views(parts@.take(i as int)), sep@),
        decreases parts@.len() - i,
    {
        let ghost prev = views(parts@.take(i as int));
        assert(views(parts@.take(i + 1)).drop_last() =~= prev);
        if i > 0 {
            append(&mut r, sep);
        }
        append(&mut r, &parts[i]);
        i = i + 1;
        assert(views(parts@.take(i as int)).last() == parts@[i - 1]@);
        if i == 1 {
            assert(views(parts@.take(1))[0] == parts@[0]@);
        }
    }
    assert(parts@.take(parts@.len() as int) =~= parts@);
    r
}

/// `[String]::join(sep)`.
pub fn join_strings(parts: &[String], sep: &str) -> (r: String)
    ensures
        r@ == join(string_views(parts@), sep@),
{
    let sc = chars_of(sep);
    let mut r: Vec<char> = Vec::new();
    let mut i: usize = 0;
    while i < parts.len()
        invariant
            i <= parts@.len(),
            sc@ == sep@,
            r@ == join(string_views(parts@.take(i as int)), sep@),
        decreases parts@.len() - i,
    {
        let ghost prev = string_views(parts@.take(i as int));
        assert(string_views(parts@.take(i + 1)).drop_last() =~= prev);
        if i > 0 {
            append(&mut r, &sc);
        }
        append_str(&mut r, parts[i].as_str());
        i = i + 1;
        assert(string_views(parts@.take(i as int)).last() == parts@[i - 1]@);
        if i == 1 {
            assert(string_views(parts@.take(1))[0] == parts@[0]@);
        }
    }
    assert(parts@.take(parts@.len() as int) =~= parts@);
    string_of(&r)
}

/// A copy of a list of strings.
pub fn copy_strings(v: &[String]) -> (r: Vec<String>)
    ensures
        string_views(r@) == string_views(v@),
{
    let mut out: Vec<String> = Vec::new();
    let mut i: usize = 0;
    while i < v.len()
        invariant
            i <= v@.len(),
            string_views(out@) == string_views(v@.take(i as int)),
        decreases v@.len() - i,
    {
        push_str(&mut out, v[i].as_str());
        assert(string_views(v@.take(i + 1)) =~= string_views(v@.take(i as int)).push(v@[i as int]@));
        i = i + 1;
    }
    assert(v@.take(v@.len() as int) =~= v@);
    out
}

// ---------------------------------------------------------------------------
// Numbers
// ---------------------------------------------------------------------------

/// Every character of `s` is an ASCII decimal digit.
pub open spec fn all_digits(s: Seq<char>) -> bool {
    forall|i: int| 0 <= i < s.len() ==> is_digit(#[trigger] s[i])
}

pub open spec fn digit_value(c: char) -> nat {
    ((c as u32) - ('0' as u32)) as nat
}

/// The value of a sequence of decimal digits.
pub open spec fn digits_value(d: Seq<char>) -> nat
    decreases d.len(),
{
    if d.len() == 0 {
        0
    } else {
        digits_value(d.drop_last()) * 10 + digit_value(d.last())
    }
}

/// `str::parse::<uN>()` where `max` is the largest value of the type: an
/// optional `+`, then one or more decimal digits whose value fits.
pub open spec fn parse_uint(s: Seq<char>, max: nat) -> Option<nat> {
    let d = if s.len() > 0 && s[0] == '+' {
        s.drop_first()
    } else {
        s
    };
    if d.len() > 0 && all_digits(d) && digits_value(d) <= max {
        Some(digits_value(d))
    } else {
        None
    }
}

proof fn lemma_saturating_step(v: nat, m: nat, d: nat)
    requires
        d < 10,
    ensures
        (if v <= m + 1 { v } else { m + 1 }) * 10 + d >= m + 1 <==> v * 10 + d >= m + 1,
        v <= m + 1 ==> (if v <= m + 1 { v } else { m + 1 }) * 10 + d == v * 10 + d,
{
    if v > m + 1 {
        assert(v * 10 + d >= m + 1) by (nonlinear_arith)
            requires
                v > m + 1,
        ;
        assert((m + 1) * 10 + d >= m + 1) by (nonlinear_arith);
    }
}

/// Parses an unsigned decimal of at most `max`.
pub fn parse_uint_exec(s: &[char], max: u64) -> (r: Option<u64>)
    ensures
        match r {
            Some(v) => parse_uint(s@, max as nat) == Some(v as nat),
            None => parse_uint(s@, max as nat) is None,
        },
{
    let start: usize = if s.len() > 0 && s[0] == '+' {
        1
    } else {
        0
    };
    let ghost d = if s@.len() > 0 && s@[0] == '+' {
        s@.drop_first()
    } else {
        s@
    };
    assert(d =~= s@.skip(start as int));
    if start >= s.len() {
        return None;
    }
    let limit: u128 = (max as u128) + 1;
    let mut acc: u128 = 0;
    let mut i: usize = start;
    while i < s.len()
        invariant
            start <= i <= s@.len(),
            d == s@.skip(start as int),
            d == (if s@.len() > 0 && s@[0] == '+' {
                s@.drop_first()
            } else {
                s@
            }),
            limit == max + 1,
            all_digits(d.take(i - start)),
            acc == (if digits_value(d.take(i - start)) <= max + 1 {
                digits_value(d.take(i - start)) as int
            } else {
                max + 1
            }),
        decreases s@.len() - i,
    {
        let c = s[i];
        if !is_digit_exec(c) {
            assert(d[i - start] == c);
            return None;
        }
        let dv: u32 = (c as u32) - ('0' as u32);
        let ghost prev = d.take(i - start);
        let ghost next = d.take(i + 1 - start);
        assert(next.drop_last() =~= prev);
        assert(next.last() == c);
        proof {
            lemma_saturating_step(digits_value(prev), max as nat, dv as nat);
        }
        let stepped: u128 = acc * 10 + (dv as u128);
        acc = if stepped <= limit {
            stepped
        } else {
            limit
        };
        i = i + 1;
        assert(all_digits(d.take(i - start)));
    }
    assert(d.take(i - start) =~= d);
    if acc <= max as u128 {
        Some(acc as u64)
    } else {
        None
    }
}

pub fn parse_uint_str(s: &str, max: u64) -> (r: Option<u64>)
    ensures
        match r {
            Some(v) => parse_uint(s@, max as nat) == Some(v as nat),
            None => parse_uint(s@, max as nat) is None,
        },
{
    let v = chars_of(s);
    parse_uint_exec(&v, max)
}

pub open spec fn digit_char(n: nat) -> char {
    (('0' as u32) + n) as char
}

/// The decimal representation of `n` (as `u64::to_string`).
pub open spec fn decimal(n: nat) -> Seq<char>
    decreases n,
{
    if n < 10 {
        seq![digit_char(n)]
    } else {
        decimal(n / 10).push(digit_char(n % 10))
    }
}

pub fn decimal_exec(n: u64) -> (r: Vec<char>)
    ensures
        r@ == decimal(n as nat),
    decreases n,
{
    let d: u32 = (n % 10) as u32;
    let c = char_from_ascii(48 + d);
    if n < 10 {
        let mut r: Vec<char> = Vec::new();
        r.push(c);
        assert(r@ =~= seq![digit_char(n as nat)]);
        r
    } else {
        let mut r = decimal_exec(n / 10);
        r.push(c);
        r
    }
}

pub fn decimal_string(n: u64) -> (r: String)
    ensures
        r@ == decimal(n as nat),
{
    let v = decimal_exec(n);
    string_of(&v)
}

// ---------------------------------------------------------------------------
// Character mapping
// ---------------------------------------------------------------------------

/// Replaces every occurrence of character `c` by the sequence `r`.
pub open spec fn replace_char(s: Seq<char>, c: char, r: Seq<char>) -> Seq<char>
    decreases s.len(),
{
    if s.len() == 0 {
        Seq::empty()
    } else {
        replace_char(s.drop_last(), c, r) + (if s.last() == c {
            r
        } else {
            seq![s.last()]
        })
    }
}

pub fn replace_char_exec(s: &[char], c: char, r: &[char]) -> (out: Vec<char>)
    ensures
        out@ == replace_char(s@, c, r@),
{
    let mut out: Vec<char> = Vec::new();
    let mut i: usize = 0;
    while i < s.len()
        invariant
            i <= s@.len(),
            out@ == replace_char(s@.take(i as int), c, r@),
        decreases s@.len() - i,
    {
        assert(s@.take(i + 1).drop_last() =~= s@.take(i as int));
        if s[i] == c {
            append(&mut out, r);
        } else {
            out.push(s[i]);
        }
        i = i + 1;
    }
    assert(s@.take(s@.len() as int) =~= s@);
    out
}

/// Keeps the characters that satisfy `p`.
pub open spec fn keep(s: Seq<char>, p: spec_fn(char) -> bool) -> Seq<char>
    decreases s.len(),
{
    if s.len() == 0 {
        Seq::empty()
    } else if p(s.last()) {
        keep(s.drop_last(), p).push(s.last())
    } else {
        keep(s.drop_last(), p)
    }
}

/// The longest prefix of `s` whose UTF-8 encoding has at most `n` bytes
/// (a prefix that ends on a character boundary).
pub open spec fn utf8_prefix(s: Seq<char>, n: nat) -> Seq<char>
    decreases s.len(),
{
    if s.len() == 0 || char_utf8_len(s[0]) > n {
        Seq::empty()
    } else {
        seq![s[0]] + utf8_prefix(s.drop_first(), (n - char_utf8_len(s[0])) as nat)
    }
}

pub fn utf8_prefix_exec(s: &[char], n: usize) -> (r: Vec<char>)
    ensures
        r@ == utf8_prefix(s@, n as nat),
{
    let mut out: Vec<char> = Vec::new();
    let mut budget: usize = n;
    let mut i: usize = 0;
    let mut going = true;
    assert(s@.skip(0) =~= s@);
    while going && i < s.len()
        invariant
            i <= s@.len(),
            budget <= n,
            going ==> utf8_prefix(s@, n as nat) == out@ + utf8_prefix(s@.skip(i as int), budget as nat),
            !going ==> utf8_prefix(s@, n as nat) == out@,
        decreases s@.len() - i, if going { 1int } else { 0int },
    {
        let c = s[i];
        let w = char_utf8_len_exec(c);
        assert(s@.skip(i as int)[0] == c);
        if w > budget {
            going = false;
        } else {
            assert(s@.skip(i as int).drop_first() =~= s@.skip(i + 1));
            let ghost before = out@;
            out.push(c);
            assert(out@ =~= before + seq![c]);
            budget = budget - w;
            i = i + 1;
        }
    }
    proof {
        if going {
            assert(s@.skip(i as int) =~= Seq::<char>::empty());
            assert(out@ + Seq::<char>::empty() =~= out@);
        }
    }
    out
}

/// `str::replace("\r\n", "\n")`.
pub open spec fn replace_crlf(s: Seq<char>) -> Seq<char>
    decreases s.len(),
{
    if s.len() == 0 {
        Seq::empty()
    } else if s.len() >= 2 && s[0] == '\r' && s[1] == '\n' {
        seq!['\n'] + replace_crlf(s.skip(2))
    } else {
        seq![s[0]] + replace_crlf(s.drop_first())
    }
}

pub fn replace_crlf_exec(s: &[char]) -> (r: Vec<char>)
    ensures
        r@ == replace_crlf(s@),
{
    let mut out: Vec<char> = Vec::new();
    let mut i: usize = 0;
    assert(s@.skip(0) =~= s@);
    while i < s.len()
        invariant
            i <= s@.len(),
            replace_crlf(s@) == out@ + replace_crlf(s@.skip(i as int)),
        decreases s@.len() - i,
    {
        let ghost rest = s@.skip(i as int);
        let ghost before = out@;
        if i + 1 < s.len() && s[i] == '\r' && s[i + 1] == '\n' {
            assert(rest[0] == '\r' && rest[1] == '\n');
            assert(rest.skip(2) =~= s@.skip(i + 2));
            out.push('\n');
            assert(out@ =~= before + seq!['\n']);
            i = i + 2;
        } else {
            assert(rest[0] == s@[i as int]);
            assert(rest.drop_first() =~= s@.skip(i + 1));
            out.push(s[i]);
            assert(out@ =~= before + seq![s@[i as int]]);
            i = i + 1;
        }
    }
    assert(s@.skip(i as int) =~= Seq::<char>::empty());
    assert(out@ + Seq::<char>::empty() =~= out@);
    out
}

/// The first `n` characters (`chars().take(n)`).
pub open spec fn take_chars(s: Seq<char>, n: nat) -> Seq<char> {
    if s.len() <= n {
        s
    } else {
        s.take(n as int)
    }
}

pub fn take_chars_exec(s: &[char], n: usize) -> (r: Vec<char>)
    ensures
        r@ == take_chars(s@, n as nat),
{
    if s.len() <= n {
        copy_chars(s)
    } else {
        let r = slice_chars(s, 0, n);
        assert(r@ =~= s@.take(n as int));
        r
    }
}

// ---------------------------------------------------------------------------
// UTF-8 length
// ---------------------------------------------------------------------------

/// Number of bytes in the UTF-8 encoding of `c`.
pub open spec fn char_utf8_len(c: char) -> nat {
    if (c as u32) < 0x80 {
        1
    } else if (c as u32) < 0x800 {
        2
    } else if (c as u32) < 0x10000 {
        3
    } else {
        4
    }
}

/// Number of bytes in the UTF-8 encoding of `s` (`str::len`).
pub open spec fn utf8_len(s: Seq<char>) -> nat
    decreases s.len(),
{
    if s.len() == 0 {
        0
    } else {
        utf8_len(s.drop_last()) + char_utf8_len(s.last())
    }
}

pub fn char_utf8_len_exec(c: char) -> (n: usize)
    ensures
        n == char_utf8_len(c),
{
    let u = c as u32;
    if u < 0x80 {
        1
    } else if u < 0x800 {
        2
    } else if u < 0x10000 {
        3
    } else {
        4
    }
}

pub proof fn lemma_utf8_len_bounds(s: Seq<char>)
    ensures
        s.len() <= utf8_len(s) <= 4 * s.len(),
    decreases s.len(),
{
    if s.len() > 0 {
        lemma_utf8_len_bounds(s.drop_last());
    }
}

/// Whether the UTF-8 encoding of `s` has at most `max` bytes.
pub fn utf8_fits(s: &[char], max: usize) -> (r: bool)
    ensures
        r == (utf8_len(s@) <= max),
{
    let mut total: usize = 0;
    let mut over = false;
    let mut i: usize = 0;
    while i < s.len()
        invariant
            i <= s@.len(),
            over == (utf8_len(s@.take(i as int)) > max),
            !over ==> total == utf8_len(s@.take(i as int)),
        decreases s@.len() - i,
    {
        assert(s@.take(i + 1).drop_last() =~= s@.take(i as int));
        let w = char_utf8_len_exec(s[i]);
        if !over {
            if w > max - total {
                over = true;
            } else {
                total = total + w;
            }
        }
        i = i + 1;
    }
    assert(s@.take(s@.len() as int) =~= s@);
    !over
}

/// The UTF-8 byte length of `s`, saturated at `cap`.
pub fn utf8_len_capped(s: &[char], cap: usize) -> (n: usize)
    ensures
        n == if utf8_len(s@) <= cap { utf8_len(s@) } else { cap as nat },
{
    let mut total: usize = 0;
    let mut i: usize = 0;
    while i < s.len()
        invariant
            i <= s@.len(),
            total == if utf8_len(s@.take(i as int)) <= cap { utf8_len(s@.take(i as int)) } else {
                cap as nat
            },
        decreases s@.len() - i,
    {
        assert(s@.take(i + 1).drop_last() =~= s@.take(i as int));
        let w = char_utf8_len_exec(s[i]);
        if total < cap && w <= cap - total {
            total = total + w;
        } else {
            total = cap;
        }
        i = i + 1;
    }
    assert(s@.take(s@.len() as int) =~= s@);
    total
}


// ---------------------------------------------------------------------------
// Lines and argument lists
// ---------------------------------------------------------------------------

/// The character sequences held by a sequence of strings.
pub open spec fn string_views(v: Seq<String>) -> Seq<Seq<char>> {
    v.map_values(|x: String| x@)
}

/// Some line of `ls`, once trimmed, equals `t`.
pub open spec fn has_trimmed_line(ls: Seq<Seq<char>>, t: Seq<char>) -> bool {
    exists|i: int| 0 <= i < ls.len() && trim(#[trigger] ls[i]) == t
}

pub fn has_trimmed_line_exec(ls: &[Vec<char>], t: &str) -> (r: bool)
    ensures
        r == has_trimmed_line(views(ls@), t@),
{
    let ghost vs = views(ls@);
    let mut i: usize = 0;
    while i < ls.len()
        invariant
            vs == views(ls@),
            i <= ls@.len(),
            forall|j: int| 0 <= j < i ==> trim(#[trigger] vs[j]) != t@,
        decreases ls@.len() - i,
    {
        let l = trim_exec(&ls[i]);
        assert(vs[i as int] == ls@[i as int]@);
        if eq_str(&l, t) {
            return true;
        }
        i = i + 1;
    }
    false
}

/// The first line of `ls` that is not blank, trimmed.
pub open spec fn first_nonblank(ls: Seq<Seq<char>>) -> Option<Seq<char>>
    decreases ls.len(),
{
    if ls.len() == 0 {
        None
    } else if trim(ls[0]).len() > 0 {
        Some(trim(ls[0]))
    } else {
        first_nonblank(ls.drop_first())
    }
}

pub fn first_nonblank_exec(ls: &[Vec<char>]) -> (r: Option<Vec<char>>)
    ensures
        match r {
            Some(v) => first_nonblank(views(ls@)) == Some(v@),
            None => first_nonblank(views(ls@)) is None,
        },
{
    let ghost vs = views(ls@);
    let mut i: usize = 0;
    assert(vs.skip(0) =~= vs);
    while i < ls.len()
        invariant
            vs == views(ls@),
            i <= ls@.len(),
            first_nonblank(vs) == first_nonblank(vs.skip(i as int)),
        decreases ls@.len() - i,
    {
        let l = trim_exec(&ls[i]);
        assert(vs.skip(i as int)[0] == ls@[i as int]@);
        if l.len() > 0 {
            return Some(l);
        }
        assert(vs.skip(i as int).drop_first() =~= vs.skip(i + 1));
        i = i + 1;
    }
    None
}

/// Appends a copy of `s` to a list of strings.
pub fn push_str(v: &mut Vec<String>, s: &str)
    ensures
        string_views(final(v)@) == string_views(old(v)@).push(s@),
{
    let ghost before = v@;
    v.push(copy_str(s));
    assert(string_views(v@) =~= string_views(before).push(s@));
}

/// Appends `s` to a list of strings.
pub fn push_string(v: &mut Vec<String>, s: String)
    ensures
        string_views(final(v)@) == string_views(old(v)@).push(s@),
{
    let ghost before = v@;
    let ghost sv = s@;
    v.push(s);
    assert(string_views(v@) =~= string_views(before).push(sv));
}

/// The lines of `a` followed by the lines of `b`.
pub fn concat_lines(a: &[Vec<char>], b: &[Vec<char>]) -> (r: Vec<Vec<char>>)
    ensures
        views(r@) == views(a@) + views(b@),
{
    let mut r: Vec<Vec<char>> = Vec::new();
    let mut i: usize = 0;
    while i < a.len()
        invariant
            i <= a@.len(),
            views(r@) == views(a@).take(i as int),
        decreases a@.len() - i,
    {
        let ghost before = r@;
        let c = copy_chars(&a[i]);
        r.push(c);
        assert(views(r@) =~= views(before).push(a@[i as int]@));
        assert(views(a@).take(i + 1) =~= views(a@).take(i as int).push(a@[i as int]@));
        i = i + 1;
    }
    let mut j: usize = 0;
    while j < b.len()
        invariant
            j <= b@.len(),
            views(r@) == views(a@) + views(b@).take(j as int),
        decreases b@.len() - j,
    {
        let ghost before = r@;
        let c = copy_chars(&b[j]);
        r.push(c);
        assert(views(r@) =~= views(before).push(b@[j as int]@));
        assert(views(b@).take(j + 1) =~= views(b@).take(j as int).push(b@[j as int]@));
        assert(views(r@) =~= views(a@) + views(b@).take(j + 1));
        j = j + 1;
    }
    assert(views(a@).take(a@.len() as int) =~= views(a@));
    assert(views(b@).take(b@.len() as int) =~= views(b@));
    r
}

// ---------------------------------------------------------------------------
// Optional strings and key/value lists
// ---------------------------------------------------------------------------

/// The characters of an optional string.
pub open spec fn opt_view(o: Option<String>) -> Option<Seq<char>> {
    match o {
        Some(s) => Some(s@),
        None => None,
    }
}

/// The character sequences of a list of key/value pairs.
pub open spec fn pair_views(v: Seq<(String, String)>) -> Seq<(Seq<char>, Seq<char>)> {
    v.map_values(|p: (String, String)| (p.0@, p.1@))
}

/// The value of the last pair with the given key, as a map built from the
/// list in order keeps it.
pub open spec fn lookup(props: Seq<(Seq<char>, Seq<char>)>, key: Seq<char>) -> Option<Seq<char>>
    decreases props.len(),
{
    if props.len() == 0 {
        None
    } else if props.last().0 == key {
        Some(props.last().1)
    } else {
        lookup(props.drop_last(), key)
    }
}

pub fn lookup_exec(props: &[(String, String)], key: &str) -> (r: Option<String>)
    ensures
        opt_view(r) == lookup(pair_views(props@), key@),
{
    let ghost ps = pair_views(props@);
    let mut i: usize = props.len();
    assert(ps.take(props@.len() as int) =~= ps);
    while i > 0
        invariant
            ps == pair_views(props@),
            i <= props@.len(),
            lookup(ps, key@) == lookup(ps.take(i as int), key@),
        decreases i,
    {
        assert(ps.take(i as int).last() == ps[i - 1]);
        if eq_str_str(&props[i - 1].0, key) {
            return Some(copy_string(&props[i - 1].1));
        }
        assert(ps.take(i as int).drop_last() =~= ps.take(i - 1));
        i = i - 1;
    }
    None
}

/// Copies a string.
pub fn copy_string(s: &String) -> (r: String)
    ensures
        r@ == s@,
{
    copy_str(s.as_str())
}

/// Equality of two string slices by their characters.
pub fn eq_str_str(a: &str, b: &str) -> (r: bool)
    ensures
        r == (a@ == b@),
{
    let v = chars_of(a);
    eq_str(&v, b)
}

/// The concatenation of two strings.
pub fn concat_strs(a: &str, b: &str) -> (r: String)
    ensures
        r@ == a@ + b@,
{
    let mut v = chars_of(a);
    append_str(&mut v, b);
    string_of(&v)
}

// ---------------------------------------------------------------------------
// Ordering of strings
// ---------------------------------------------------------------------------

/// The order of `String`'s `Ord`: lexicographic by character, which is the
/// order of the UTF-8 bytes.
pub open spec fn lex_lt(a: Seq<char>, b: Seq<char>) -> bool
    decreases a.len(),
{
    if a.len() == 0 {
        b.len() > 0
    } else if b.len() == 0 {
        false
    } else if a[0] != b[0] {
        a[0] < b[0]
    } else {
        lex_lt(a.drop_first(), b.drop_first())
    }
}

pub proof fn lemma_lex_irreflexive(a: Seq<char>)
    ensures
        !lex_lt(a, a),
    decreases a.len(),
{
    if a.len() > 0 {
        lemma_lex_irreflexive(a.drop_first());
    }
}

pub proof fn lemma_lex_total(a: Seq<char>, b: Seq<char>)
    ensures
        a == b || lex_lt(a, b) || lex_lt(b, a),
        !(lex_lt(a, b) && lex_lt(b, a)),
    decreases a.len(),
{
    if a.len() > 0 && b.len() > 0 && a[0] == b[0] {
        lemma_lex_total(a.drop_first(), b.drop_first());
        if a.drop_first() == b.drop_first() {
            assert(a =~= seq![a[0]] + a.drop_first());
            assert(b =~= seq![b[0]] + b.drop_first());
        }
    }
    if a.len() == 0 && b.len() == 0 {
        assert(a =~= b);
    }
}

pub proof fn lemma_lex_transitive(a: Seq<char>, b: Seq<char>, c: Seq<char>)
    requires
        lex_lt(a, b),
        lex_lt(b, c),
    ensures
        lex_lt(a, c),
    decreases a.len(),
{
    if a.len() > 0 && b.len() > 0 && c.len() > 0 && a[0] == b[0] && b[0] == c[0] {
        lemma_lex_transitive(a.drop_first(), b.drop_first(), c.drop_first());
    }
}

pub fn lex_less(a: &[char], b: &[char]) -> (r: bool)
    ensures
        r == lex_lt(a@, b@),
{
    let mut i: usize = 0;
    assert(a@.skip(0) =~= a@);
    assert(b@.skip(0) =~= b@);
    while i < a.len() && i < b.len() && a[i] == b[i]
        invariant
            i <= a@.len(),
            i <= b@.len(),
            lex_lt(a@, b@) == lex_lt(a@.skip(i as int), b@.skip(i as int)),
        decreases a@.len() - i,
    {
        assert(a@.skip(i as int).drop_first() =~= a@.skip(i + 1));
        assert(b@.skip(i as int).drop_first() =~= b@.skip(i + 1));
        i = i + 1;
    }
    if i == a.len() {
        i < b.len()
    } else if i == b.len() {
        false
    } else {
        a[i] < b[i]
    }
}

// ---------------------------------------------------------------------------
// Splitting at a separator string
// ---------------------------------------------------------------------------

/// `str::split(sep)` for a non-empty separator string.
pub open spec fn split_on(s: Seq<char>, sep: Seq<char>) -> Seq<Seq<char>>
    decreases s.len(),
{
    if sep.len() == 0 {
        seq![s]
    } else {
        match find(s, sep) {
            Some(i) => {
                proof {
                    lemma_find_from_bounds(s, sep, 0);
                }
                seq![s.take(i)] + split_on(s.skip(i + sep.len()), sep)
            },
            None => seq![s],
        }
    }
}

pub fn split_on_exec(s: &[char], sep: &str) -> (r: Vec<Vec<char>>)
    requires
        sep@.len() > 0,
    ensures
        views(r@) == split_on(s@, sep@),
{
    let p = chars_of(sep);
    let mut out: Vec<Vec<char>> = Vec::new();
    let mut rest = copy_chars(s);
    loop
        invariant
            p@ == sep@,
            p@.len() > 0,
            views(out@) + split_on(rest@, sep@) == split_on(s@, sep@),
        decreases rest@.len(),
    {
        match find_exec(&rest, &p) {
            Some(i) => {
                proof {
                    lemma_find_from_bounds(rest@, p@, 0);
                    assert(find(rest@, p@) == find_from(rest@, p@, 0));
                    assert(matches_at(rest@, p@, i as int));
                }
                let n = rest.len();
                assert(i + p@.len() <= n);
                let plen = p.len();
                assert(plen == p@.len());
                let head = slice_chars(&rest, 0, i);
                let tail = slice_chars(&rest, i + plen, n);
                let ghost before = out@;
                out.push(head);
                assert(head@ =~= rest@.take(i as int));
                assert(views(out@) =~= views(before) + seq![head@]);
                assert(views(out@) + split_on(tail@, sep@) =~= views(before) + split_on(
                    rest@,
                    sep@,
                ));
                rest = tail;
            },
            None => {
                let ghost before = out@;
                out.push(rest);
                assert(views(out@) =~= views(before) + seq![out@.last()@]);
                return out;
            },
        }
    }
}

/// The lowercase hexadecimal digit of `n < 16`.
pub open spec fn hex_digit(n: nat) -> char {
    if n < 10 {
        ((n + 48) as u32) as char
    } else {
        ((n + 87) as u32) as char
    }
}

/// Each byte as two lowercase hexadecimal digits (`{:02x}`).
pub open spec fn hex(bytes: Seq<u8>) -> Seq<char>
    decreases bytes.len(),
{
    if bytes.len() == 0 {
        Seq::empty()
    } else {
        hex(bytes.drop_last()) + seq![hex_digit((bytes.last() / 16) as nat), hex_digit((bytes.last() % 16) as nat)]
    }
}

/// A lowercase hexadecimal digit.
pub open spec fn is_lower_hex(c: char) -> bool {
    ('0' <= c && c <= '9') || ('a' <= c && c <= 'f')
}

/// `hex` gives two lowercase ASCII digits per byte.
pub proof fn lemma_hex_shape(bytes: Seq<u8>)
    ensures
        hex(bytes).len() == 2 * bytes.len(),
        utf8_len(hex(bytes)) == 2 * bytes.len(),
        forall|i: int| 0 <= i < hex(bytes).len() ==> is_lower_hex(#[trigger] hex(bytes)[i]),
    decreases bytes.len(),
{
    if bytes.len() > 0 {
        let p = hex(bytes.drop_last());
        lemma_hex_shape(bytes.drop_last());
        let hi = (bytes.last() / 16) as nat;
        let lo = (bytes.last() % 16) as nat;
        let d1 = hex_digit(hi);
        let d2 = hex_digit(lo);
        let h = hex(bytes);
        assert(h == p + seq![d1, d2]);
        assert(is_lower_hex(d1) && (d1 as u32) < 0x80);
        assert(is_lower_hex(d2) && (d2 as u32) < 0x80);
        assert(h.drop_last() =~= p + seq![d1]);
        assert((p + seq![d1]).drop_last() =~= p);
        assert(char_utf8_len(d1) == 1 && char_utf8_len(d2) == 1);
        assert(utf8_len(p + seq![d1]) == utf8_len(p) + 1);
        assert(utf8_len(h) == utf8_len(h.drop_last()) + 1);
        assert forall|i: int| 0 <= i < h.len() implies is_lower_hex(#[trigger] h[i]) by {
            if i < p.len() {
                assert(h[i] == p[i]);
            }
        }
    }
}

fn hex_digit_exec(n: u8) -> (c: char)
    requires
        n < 16,
    ensures
        c == hex_digit(n as nat),
{
    if n < 10 {
        char_from_ascii(48 + n as u32)
    } else {
        char_from_ascii(87 + n as u32)
    }
}

pub fn hex_bytes(bytes: &[u8]) -> (r: String)
    ensures
        r@ == hex(bytes@),
{
    let mut v: Vec<char> = Vec::new();
    let mut i: usize = 0;
    while i < bytes.len()
        invariant
            i <= bytes@.len(),
            v@ == hex(bytes@.take(i as int)),
        decreases bytes@.len() - i,
    {
        let b = bytes[i];
        assert(bytes@.take(i + 1).drop_last() =~= bytes@.take(i as int));
        assert(bytes@.take(i + 1).last() == b);
        v.push(hex_digit_exec(b / 16));
        v.push(hex_digit_exec(b % 16));
        i = i + 1;
    }
    assert(bytes@.take(bytes@.len() as int) =~= bytes@);
    string_of(&v)
}

// ---------------------------------------------------------------------------
// Sorted sets of strings
// ---------------------------------------------------------------------------

/// The strings are in strictly increasing order (so each occurs once), as a
/// `BTreeSet<String>` yields them.
pub open spec fn sorted_set(v: Seq<Seq<char>>) -> bool {
    forall|i: int, j: int| 0 <= i < j < v.len() ==> lex_lt(#[trigger] v[i], #[trigger] v[j])
}

fn str_less(a: &str, b: &[char]) -> (r: bool)
    ensures
        r == lex_lt(a@, b@),
{
    let c = chars_of(a);
    lex_less(&c, b)
}

proof fn lemma_insert_contains(s: Seq<Seq<char>>, p: int, x: Seq<char>, y: Seq<char>)
    requires
        0 <= p <= s.len(),
    ensures
        s.insert(p, y).contains(x) <==> (s.contains(x) || x == y),
{
    let nv = s.insert(p, y);
    if nv.contains(x) {
        let i = choose|i: int| 0 <= i < nv.len() && nv[i] == x;
        if i < p {
            assert(s[i] == x);
        } else if i > p {
            assert(s[i - 1] == x);
        }
    }
    if s.contains(x) {
        let j = choose|j: int| 0 <= j < s.len() && s[j] == x;
        if j < p {
            assert(nv[j] == x);
        } else {
            assert(nv[j + 1] == x);
        }
    }
    if x == y {
        assert(nv[p] == x);
    }
}

/// Adds a string to an ordered set of strings.
#[verifier::spinoff_prover]
pub fn insert_sorted_unique(v: &mut Vec<String>, s: &str)
    requires
        sorted_set(string_views(old(v)@)),
    ensures
        sorted_set(string_views(final(v)@)),
        forall|x: Seq<char>|
            string_views(final(v)@).contains(x) <==> (string_views(old(v)@).contains(x) || x == s@),
{
    let ghost old_k = string_views(v@);
    let k = chars_of(s);
    let mut p: usize = 0;
    while p < v.len() && str_less(v[p].as_str(), &k)
        invariant
            p <= v@.len(),
            old_k == string_views(v@),
            k@ == s@,
            sorted_set(old_k),
            forall|i: int| 0 <= i < p ==> lex_lt(#[trigger] old_k[i], s@),
        decreases v@.len() - p,
    {
        p = p + 1;
    }
    proof {
        if p < v@.len() {
            assert(!lex_lt(old_k[p as int], s@));
        }
    }
    if p < v.len() && eq_str_str(v[p].as_str(), s) {
        assert(old_k[p as int] == s@);
        return;
    }
    proof {
        if p < v@.len() {
            lemma_lex_total(old_k[p as int], s@);
        }
    }
    v.insert(p, copy_str(s));
    assert(string_views(v@) =~= old_k.insert(p as int, s@));
    assert forall|i: int, j: int| 0 <= i < j < string_views(v@).len() implies lex_lt(
        #[trigger] string_views(v@)[i],
        #[trigger] string_views(v@)[j],
    ) by {
        let nv = string_views(v@);
        if j == p {
            assert(nv[i] == old_k[i]);
        } else if i == p {
            assert(nv[j] == old_k[j - 1]);
            if j - 1 > p {
                lemma_lex_transitive(s@, old_k[p as int], old_k[j - 1]);
            }
        } else if j < p {
            assert(nv[i] == old_k[i]);
            assert(nv[j] == old_k[j]);
        } else if i < p {
            assert(nv[i] == old_k[i]);
            assert(nv[j] == old_k[j - 1]);
            if i < j - 1 {
            } else {
                assert(i < p && p < j);
            }
        } else {
            assert(nv[i] == old_k[i - 1]);
            assert(nv[j] == old_k[j - 1]);
        }
    }
    assert(old_k == string_views(old(v)@));
    assert forall|x: Seq<char>| string_views(v@).contains(x) <==> (string_views(old(v)@).contains(x) || x == s@) by {
        lemma_insert_contains(old_k, p as int, x, s@);
    }
}

/// `{}` of a signed integer.
pub open spec fn int_text(n: int) -> Seq<char> {
    if n < 0 {
        seq!['-'] + decimal((-n) as nat)
    } else {
        decimal(n as nat)
    }
}

pub fn int_string(n: i32) -> (r: String)
    ensures
        r@ == int_text(n as int),
{
    if n < 0 {
        let m: i64 = -(n as i64);
        let d = decimal_exec(m as u64);
        let mut c: Vec<char> = vec!['-'];
        append(&mut c, &d);
        string_of(&c)
    } else {
        decimal_string(n as u64)
    }
}

/// `{:?}` of an optional exit status: `Some(n)` or `None`.
pub open spec fn debug_status(o: Option<i32>) -> Seq<char> {
    match o {
        Some(n) => "Some("@ + int_text(n as int) + seq![')'],
        None => "None"@,
    }
}

pub fn debug_status_string(o: Option<i32>) -> (r: String)
    ensures
        r@ == debug_status(o),
{
    match o {
        Some(n) => {
            let d = int_string(n);
            let mut c = chars_of("Some(");
            append_str(&mut c, d.as_str());
            c.push(')');
            string_of(&c)
        },
        None => copy_str("None"),
    }
}

/// `{}` of a boolean.
pub open spec fn bool_text(b: bool) -> Seq<char> {
    if b {
        "true"@
    } else {
        "false"@
    }
}

pub fn bool_string(b: bool) -> (r: String)
    ensures
        r@ == bool_text(b),
{
    if b {
        copy_str("true")
    } else {
        copy_str("false")
    }
}

} // verus!
