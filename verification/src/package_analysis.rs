//! What a package analysis reports: the MD5 of the package, the native
//! architectures found in its archive, the metadata read from an IPA's
//! `Info.plist`, and how the APK analyzers' outcomes become the source and
//! warnings of the report.
use crate::error::{is_error, ApiError, ProcessOutput};
use crate::packages::{self, entry_abi, PackageMetadata};
use crate::text;
use vstd::prelude::*;

verus! {

// ---------------------------------------------------------------------------
// MD5
// ---------------------------------------------------------------------------

/// The MD5 digest that the `md-5` crate computes for `data`.
pub uninterp spec fn md5_of(data: Seq<u8>) -> Seq<u8>;

/// `md5::Md5::digest`: the 16-byte digest of the data (its output size is
/// 16 bytes by type). The digest itself is named, not described.
#[verifier::external_body]
fn md5_digest(data: &[u8]) -> (r: Vec<u8>)
    ensures
        r@ == md5_of(data@),
        r@.len() == 16,
{
    <md5::Md5 as md5::Digest>::digest(data).to_vec()
}

/// The MD5 of a package as lowercase hexadecimal (`{:x}` of the digest).
pub fn md5_hex(data: &[u8]) -> (r: String)
    ensures
        r@ == text::hex(md5_of(data@)),
        r@.len() == 32,
{
    let digest = md5_digest(data);
    proof {
        text::lemma_hex_shape(digest@);
    }
    text::hex_bytes(&digest)
}

/// The MD5 hasher of the `md-5` crate (`md5::Md5`), held opaque: Verus
/// cannot take a declaration of the generic block-buffer type it is made of.
#[verifier::external_body]
pub struct Md5Hasher {
    inner: md5::Md5,
}

/// The bytes an MD5 hasher has been fed, in the order they were fed.
pub uninterp spec fn md5_fed(hasher: Md5Hasher) -> Seq<u8>;

/// `Digest::new` for `md5::Md5`: a hasher that has been fed nothing.
#[verifier::external_body]
fn md5_new() -> (h: Md5Hasher)
    ensures
        md5_fed(h) == Seq::<u8>::empty(),
{
    Md5Hasher { inner: <md5::Md5 as md5::Digest>::new() }
}

/// `Digest::update` for `md5::Md5`: feeds `data` after what was fed before.
#[verifier::external_body]
fn md5_update(hasher: &mut Md5Hasher, data: &[u8])
    ensures
        md5_fed(*final(hasher)) == md5_fed(*old(hasher)) + data@,
{
    <md5::Md5 as md5::Digest>::update(&mut hasher.inner, data)
}

/// `Digest::finalize` for `md5::Md5`: the 16-byte digest of everything fed,
/// the same that `Digest::digest` gives for those bytes at once.
#[verifier::external_body]
fn md5_finalize(hasher: Md5Hasher) -> (r: Vec<u8>)
    ensures
        r@ == md5_of(md5_fed(hasher)),
        r@.len() == 16,
{
    <md5::Md5 as md5::Digest>::finalize(hasher.inner).to_vec()
}

/// The MD5 of a package read piece by piece.
pub struct Md5Stream {
    hasher: Md5Hasher,
}

impl Md5Stream {
    /// The bytes handed in so far.
    pub closed spec fn fed(&self) -> Seq<u8> {
        md5_fed(self.hasher)
    }

    pub fn new() -> (s: Self)
        ensures
            s.fed() == Seq::<u8>::empty(),
    {
        Md5Stream { hasher: md5_new() }
    }

    /// Hands in the next piece.
    pub fn update(&mut self, data: &[u8])
        ensures
            final(self).fed() == old(self).fed() + data@,
    {
        md5_update(&mut self.hasher, data);
    }

    /// The digest of every piece handed in, as `md5_hex` gives it for
    /// those bytes at once.
    pub fn finish_hex(self) -> (r: String)
        ensures
            r@ == text::hex(md5_of(self.fed())),
            r@.len() == 32,
    {
        let digest = md5_finalize(self.hasher);
        proof {
            text::lemma_hex_shape(digest@);
        }
        text::hex_bytes(&digest)
    }
}

// ---------------------------------------------------------------------------
// Architectures
// ---------------------------------------------------------------------------

/// The sorted set of strings `v` holds exactly the given elements.
pub open spec fn set_of(v: Seq<Seq<char>>, elems: spec_fn(Seq<char>) -> bool) -> bool {
    text::sorted_set(v) && forall|x: Seq<char>| v.contains(x) <==> elems(x)
}

/// The native ABIs of an APK: each `lib/<abi>/<library>.so` file among the
/// first 50 000 archive entries, each ABI once, in order.
pub fn apk_architecture_set(entries: &[(String, bool)]) -> (r: Vec<String>)
    ensures
        text::sorted_set(text::string_views(r@)),
        forall|x: Seq<char>|
            text::string_views(r@).contains(x) <==> exists|k: int|
                0 <= k < entries@.len() && k < packages::MAX_ARCHIVE_ENTRIES && !(#[trigger] entries@[k]).1
                    && entry_abi(entries@[k].0@) == Some(x),
{
    let mut out: Vec<String> = Vec::new();
    let mut i: usize = 0;
    let n: usize = if entries.len() < 50_000 { entries.len() } else { 50_000 };
    while i < n
        invariant
            n <= entries@.len(),
            n <= packages::MAX_ARCHIVE_ENTRIES,
            i <= n,
            text::sorted_set(text::string_views(out@)),
            forall|x: Seq<char>|
                text::string_views(out@).contains(x) <==> exists|k: int|
                    0 <= k < i && !(#[trigger] entries@[k]).1 && entry_abi(entries@[k].0@) == Some(x),
        decreases n - i,
    {
        let ghost before = text::string_views(out@);
        if !entries[i].1 {
            match packages::apk_architecture_from_entry(entries[i].0.as_str()) {
                Some(a) => text::insert_sorted_unique(&mut out, a.as_str()),
                None => {},
            }
        }
        assert forall|x: Seq<char>| text::string_views(out@).contains(x) <==> exists|k: int|
            0 <= k < i + 1 && !(#[trigger] entries@[k]).1 && entry_abi(entries@[k].0@) == Some(x) by {
            if exists|k: int| 0 <= k < i + 1 && !(#[trigger] entries@[k]).1 && entry_abi(entries@[k].0@) == Some(x) {
                let k = choose|k: int| 0 <= k < i + 1 && !(#[trigger] entries@[k]).1 && entry_abi(entries@[k].0@) == Some(x);
                if k < i {
                    assert(before.contains(x));
                }
            }
        }
        i = i + 1;
    }
    assert forall|x: Seq<char>| text::string_views(out@).contains(x) <==> exists|k: int|
        0 <= k < entries@.len() && k < packages::MAX_ARCHIVE_ENTRIES && !(#[trigger] entries@[k]).1
            && entry_abi(entries@[k].0@) == Some(x) by {
        if exists|k: int| 0 <= k < entries@.len() && k < packages::MAX_ARCHIVE_ENTRIES && !(#[trigger] entries@[k]).1
            && entry_abi(entries@[k].0@) == Some(x) {
            let k = choose|k: int| 0 <= k < entries@.len() && k < packages::MAX_ARCHIVE_ENTRIES && !(#[trigger] entries@[k]).1
                && entry_abi(entries@[k].0@) == Some(x);
            assert(k < n);
        }
    }
    out
}

/// The native architectures of an IPA: every architecture that the Mach-O
/// headers read from its binaries name, each once, in order.
pub fn ipa_architecture_set(headers: &[Vec<u8>]) -> (r: Vec<String>)
    ensures
        text::sorted_set(text::string_views(r@)),
        forall|x: Seq<char>|
            text::string_views(r@).contains(x) <==> exists|k: int|
                0 <= k < headers@.len() && packages::macho_arch(#[trigger] headers@[k]@, x),
{
    let mut out: Vec<String> = Vec::new();
    assert(text::string_views(out@) =~= Seq::<Seq<char>>::empty());
    let mut i: usize = 0;
    while i < headers.len()
        invariant
            i <= headers@.len(),
            text::sorted_set(text::string_views(out@)),
            forall|x: Seq<char>|
                text::string_views(out@).contains(x) <==> exists|k: int|
                    0 <= k < i && packages::macho_arch(#[trigger] headers@[k]@, x),
        decreases headers@.len() - i,
    {
        let found = packages::parse_macho_architectures(headers[i].as_slice());
        let ghost before = text::string_views(out@);
        let ghost fv = text::string_views(found@);
        let mut j: usize = 0;
        while j < found.len()
            invariant
                j <= found@.len(),
                fv == text::string_views(found@),
                text::sorted_set(text::string_views(out@)),
                forall|x: Seq<char>|
                    #[trigger] text::string_views(out@).contains(x) <==> (before.contains(x) || fv.take(j as int).contains(x)),
            decreases found@.len() - j,
        {
            let ghost mid = text::string_views(out@);
            text::insert_sorted_unique(&mut out, found[j].as_str());
            proof {
                let t0 = fv.take(j as int);
                let t1 = fv.take(j + 1);
                assert(t1 =~= t0.push(fv[j as int]));
                assert(fv[j as int] == found@[j as int]@);
                assert forall|x: Seq<char>| t1.contains(x) <==> (t0.contains(x) || x == fv[j as int]) by {
                    if t1.contains(x) {
                        let m = choose|m: int| 0 <= m < t1.len() && t1[m] == x;
                        if m < j {
                            assert(t0[m] == x);
                        }
                    }
                    if t0.contains(x) {
                        let m = choose|m: int| 0 <= m < t0.len() && t0[m] == x;
                        assert(t1[m] == x);
                    }
                    if x == fv[j as int] {
                        assert(t1[j as int] == x);
                    }
                }
                assert forall|x: Seq<char>| text::string_views(out@).contains(x) <==> (before.contains(x)
                    || t1.contains(x)) by {
                    assert(mid.contains(x) <==> (before.contains(x) || t0.contains(x)));
                    assert(t1.contains(x) <==> (t0.contains(x) || x == fv[j as int]));
                }
            }
            j = j + 1;
        }
        proof {
            assert(j == found@.len());
            assert(fv.take(j as int) =~= fv);
        }
        assert forall|x: Seq<char>| text::string_views(out@).contains(x) <==> exists|k: int|
            0 <= k < i + 1 && packages::macho_arch(#[trigger] headers@[k]@, x) by {
            assert(fv.contains(x) <==> packages::macho_arch(headers@[i as int]@, x)) by {
                if fv.contains(x) {
                    let m = choose|m: int| 0 <= m < fv.len() && fv[m] == x;
                    assert(text::string_views(found@).contains(found@[m]@));
                }
                if packages::macho_arch(headers@[i as int]@, x) {
                    assert(text::string_views(found@).contains(x));
                }
            }
            assert(text::string_views(out@).contains(x) <==> (before.contains(x) || fv.take(j as int).contains(x)));
            if fv.contains(x) {
                assert(packages::macho_arch(headers@[i as int]@, x));
            }
            if exists|k: int| 0 <= k < i + 1 && packages::macho_arch(#[trigger] headers@[k]@, x) {
                let k = choose|k: int| 0 <= k < i + 1 && packages::macho_arch(#[trigger] headers@[k]@, x);
                if k < i {
                    assert(before.contains(x));
                }
            }
        }
        i = i + 1;
    }
    out
}

/// A binary of the IPA's application worth reading a Mach-O header from: a
/// dynamic library or a file inside a framework, below the application.
pub open spec fn binary_candidate(name: Seq<char>, app_prefix: Seq<char>) -> bool {
    text::starts_with(name, app_prefix) && (text::ends_with(name, ".dylib"@) || text::contains(
        name,
        ".framework/"@,
    )) && !text::ends_with(name, "/"@)
}

/// The executable named by `CFBundleExecutable`, when it is a plain name.
pub open spec fn executable_candidate(app_prefix: Seq<char>, executable: Option<Seq<char>>) -> Seq<Seq<char>> {
    match executable {
        Some(e) => if text::contains(e, "/"@) || text::contains(e, "\\"@) {
            Seq::empty()
        } else {
            seq![app_prefix + e]
        },
        None => Seq::empty(),
    }
}

/// The files read for architectures: the executable, then the libraries
/// and framework files in archive order, each once, at most 33 in all.
pub open spec fn candidates_from(start: Seq<Seq<char>>, names: Seq<Seq<char>>, app_prefix: Seq<char>) -> Seq<Seq<char>>
    decreases names.len(),
{
    if names.len() == 0 || start.len() >= 33 {
        start
    } else {
        let n = names[0];
        let next = if binary_candidate(n, app_prefix) && !start.contains(n) {
            start.push(n)
        } else {
            start
        };
        candidates_from(next, names.drop_first(), app_prefix)
    }
}

/// The Mach-O files to read, and the warning about an unusable executable
/// name, if any.
pub fn ipa_binary_candidates(app_prefix: &str, executable: Option<&str>, entry_names: &[String]) -> (r: (
    Vec<String>,
    Option<String>,
))
    ensures
        ({
            let e = match executable {
                Some(x) => Some(x@),
                None => None,
            };
            let first = executable_candidate(app_prefix@, e);
            let limited = if entry_names@.len() <= packages::MAX_ARCHIVE_ENTRIES {
                text::string_views(entry_names@)
            } else {
                text::string_views(entry_names@).take(packages::MAX_ARCHIVE_ENTRIES as int)
            };
            &&& text::string_views(r.0@) == candidates_from(first, limited, app_prefix@)
            &&& text::opt_view(r.1) == (if e is Some && first.len() == 0 {
                Some("CFBundleExecutable contains an invalid path and was ignored"@)
            } else {
                None
            })
        }),
{
    let mut out: Vec<String> = Vec::new();
    let mut warning: Option<String> = None;
    match executable {
        Some(e) => {
            let ev = text::chars_of(e);
            if text::contains_str(&ev, "/") || text::contains_str(&ev, "\\") {
                warning = Some(text::copy_str("CFBundleExecutable contains an invalid path and was ignored"));
            } else {
                text::push_string(&mut out, text::concat_strs(app_prefix, e));
            }
        },
        None => {},
    }
    let ghost first = text::string_views(out@);
    let ghost ev = match executable {
        Some(x) => Some(x@),
        None => None,
    };
    assert(first =~= executable_candidate(app_prefix@, ev));
    assert(text::opt_view(warning) == (if ev is Some && first.len() == 0 {
        Some("CFBundleExecutable contains an invalid path and was ignored"@)
    } else {
        None
    }));
    let n: usize = if entry_names.len() < 50_000 { entry_names.len() } else { 50_000 };
    let ghost limited = text::string_views(entry_names@.take(n as int));
    assert(limited == (if entry_names@.len() <= packages::MAX_ARCHIVE_ENTRIES {
        text::string_views(entry_names@)
    } else {
        text::string_views(entry_names@).take(packages::MAX_ARCHIVE_ENTRIES as int)
    })) by {
        if entry_names@.len() <= packages::MAX_ARCHIVE_ENTRIES {
            assert(entry_names@.take(n as int) =~= entry_names@);
        }
    }
    let mut i: usize = 0;
    assert(limited.skip(0) =~= limited);
    while i < n && out.len() < 33
        invariant
            n <= entry_names@.len(),
            i <= n,
            limited == text::string_views(entry_names@.take(n as int)),
            candidates_from(first, limited, app_prefix@) == candidates_from(
                text::string_views(out@),
                limited.skip(i as int),
                app_prefix@,
            ),
        decreases n - i,
    {
        let name = entry_names[i].as_str();
        let nv = text::chars_of(name);
        assert(limited.skip(i as int)[0] == name@);
        assert(limited.skip(i as int).drop_first() =~= limited.skip(i + 1));
        let ghost cur = text::string_views(out@);
        let wanted = text::starts_with_str(&nv, app_prefix) && (text::ends_with_str(&nv, ".dylib")
            || text::contains_str(&nv, ".framework/")) && !text::ends_with_str(&nv, "/");
        if wanted {
            let mut seen = false;
            let mut k: usize = 0;
            while k < out.len() && !seen
                invariant
                    k <= out@.len(),
                    seen ==> text::string_views(out@).contains(name@),
                    !seen ==> forall|j: int| 0 <= j < k ==> (#[trigger] out@[j])@ != name@,
                decreases out@.len() - k + (if seen { 0int } else { 1int }),
            {
                if text::eq_str_str(out[k].as_str(), name) {
                    seen = true;
                    assert(text::string_views(out@)[k as int] == name@);
                } else {
                    k = k + 1;
                }
            }
            proof {
                if !seen {
                    assert forall|j: int| 0 <= j < text::string_views(out@).len() implies text::string_views(out@)[j] != name@ by {
                        assert(text::string_views(out@)[j] == out@[j]@);
                    }
                }
            }
            if !seen {
                text::push_str(&mut out, name);
            }
        }
        i = i + 1;
    }
    proof {
        if i >= n {
            assert(limited.skip(i as int).len() == 0);
        }
        assert(candidates_from(text::string_views(out@), limited.skip(i as int), app_prefix@)
            == text::string_views(out@));
    }
    (out, warning)
}

/// The warning when no architecture could be read.
pub fn no_architecture_warning(architectures: &[String]) -> (r: Option<String>)
    ensures
        architectures@.len() == 0 ==> text::opt_view(r) == Some(
            "No supported Mach-O architecture header could be read from the IPA; architecture was left unknown"@,
        ),
        architectures@.len() > 0 ==> r is None,
{
    if architectures.len() == 0 {
        Some(
            text::copy_str(
                "No supported Mach-O architecture header could be read from the IPA; architecture was left unknown",
            ),
        )
    } else {
        None
    }
}

// ---------------------------------------------------------------------------
// The root Info.plist of an IPA
// ---------------------------------------------------------------------------

/// The path components of an archive name: `/`-separated, with empty and
/// `.` parts dropped.
pub open spec fn components(name: Seq<char>) -> Seq<Seq<char>> {
    kept_parts(text::split(name, '/'))
}

pub open spec fn kept_parts(parts: Seq<Seq<char>>) -> Seq<Seq<char>>
    decreases parts.len(),
{
    if parts.len() == 0 {
        Seq::empty()
    } else {
        let rest = kept_parts(parts.drop_last());
        let p = parts.last();
        if p.len() > 0 && p != "."@ {
            rest.push(p)
        } else {
            rest
        }
    }
}

/// `Payload/<App>.app/Info.plist` and nothing deeper.
pub open spec fn root_plist_name(name: Seq<char>, is_dir: bool) -> bool {
    let c = components(name);
    !is_dir && c.len() == 3 && c[0] == "Payload"@ && text::ends_with(c[1], ".app"@) && c[2] == "Info.plist"@
}

fn components_exec(name: &str) -> (r: Vec<Vec<char>>)
    ensures
        text::views(r@) == components(name@),
{
    let cs = text::chars_of(name);
    let parts = text::split_exec(&cs, '/');
    let ghost pv = text::views(parts@);
    let mut out: Vec<Vec<char>> = Vec::new();
    let mut i: usize = 0;
    while i < parts.len()
        invariant
            i <= parts@.len(),
            pv == text::views(parts@),
            pv.len() == parts@.len(),
            text::views(out@) == kept_parts(pv.take(i as int)),
        decreases parts@.len() - i,
    {
        let p = &parts[i];
        assert(pv.take(i + 1).drop_last() =~= pv.take(i as int));
        assert(pv.take(i + 1).last() == p@);
        if p.len() > 0 && !text::eq_str(p, ".") {
            out.push(text::copy_chars(p));
            assert(text::views(out@) =~= kept_parts(pv.take(i + 1)));
        } else {
            assert(text::views(out@) =~= kept_parts(pv.take(i + 1)));
        }
        i = i + 1;
    }
    assert(pv.take(pv.len() as int) =~= pv);
    out
}

/// Whether an archive entry is the application's own `Info.plist`, judged
/// on its sanitized name.
pub fn is_root_ipa_info_plist(enclosed_name: &str, is_dir: bool) -> (r: bool)
    ensures
        r == root_plist_name(enclosed_name@, is_dir),
{
    if is_dir {
        return false;
    }
    let c = components_exec(enclosed_name);
    c.len() == 3 && text::eq_str(&c[0], "Payload") && text::ends_with_str(&c[1], ".app") && text::eq_str(
        &c[2],
        "Info.plist",
    )
}

/// The single root `Info.plist` among the matching entries, or the error for
/// none or several.
pub fn single_root_plist(matches: &[usize]) -> (r: Result<usize, ApiError>)
    ensures
        matches@.len() == 1 ==> r == Ok::<usize, ApiError>(matches@[0]),
        matches@.len() == 0 ==> (r matches Err(e) && is_error(
            e,
            "ipa_info_plist_missing"@,
            "IPA has no canonical Payload/<App>.app/Info.plist"@,
        )),
        matches@.len() > 1 ==> (r matches Err(e) && is_error(
            e,
            "ipa_info_plist_ambiguous"@,
            "IPA contains multiple root application Info.plist entries"@,
        )),
{
    if matches.len() == 1 {
        Ok(matches[0])
    } else if matches.len() == 0 {
        Err(ApiError::new("ipa_info_plist_missing", "IPA has no canonical Payload/<App>.app/Info.plist"))
    } else {
        Err(ApiError::new("ipa_info_plist_ambiguous", "IPA contains multiple root application Info.plist entries"))
    }
}

// ---------------------------------------------------------------------------
// Info.plist
// ---------------------------------------------------------------------------

/// A property-list value as far as the analysis reads it.
#[derive(Debug)]
pub enum PlistNode {
    String(String),
    Boolean(bool),
    Array(Vec<PlistNode>),
    /// Keys and values in the order of the document.
    Dictionary(Vec<(String, PlistNode)>),
    Other,
}

/// Whether a key names icon files.
pub open spec fn icon_key(key: Option<Seq<char>>) -> bool {
    match key {
        Some(k) => text::contains(k, "IconFiles"@),
        None => false,
    }
}

pub open spec fn string_key(key: Option<Seq<char>>) -> bool {
    match key {
        Some(k) => k == "CFBundleIconName"@ || text::contains(k, "IconFiles"@),
        None => false,
    }
}

/// The strings of an array.
pub open spec fn array_strings(items: Seq<PlistNode>) -> Seq<Seq<char>>
    decreases items.len(),
{
    if items.len() == 0 {
        Seq::empty()
    } else {
        array_strings(items.drop_last()) + match items.last() {
            PlistNode::String(s) => seq![s@],
            _ => Seq::empty(),
        }
    }
}

/// The icon names a plist value holds, found depth first: the strings of
/// every array under an `…IconFiles…` key, and every string under such a key
/// or under `CFBundleIconName`.
pub open spec fn icon_names(node: PlistNode, key: Option<Seq<char>>) -> Seq<Seq<char>>
    decreases node, 1int,
{
    match node {
        PlistNode::Dictionary(entries) => entry_icon_names(entries@),
        PlistNode::Array(items) => if icon_key(key) {
            array_strings(items@)
        } else {
            item_icon_names(items@, key)
        },
        PlistNode::String(s) => if string_key(key) {
            seq![s@]
        } else {
            Seq::empty()
        },
        _ => Seq::empty(),
    }
}

pub open spec fn entry_icon_names(entries: Seq<(String, PlistNode)>) -> Seq<Seq<char>>
    decreases entries, 0int,
{
    if entries.len() == 0 {
        Seq::empty()
    } else {
        entry_icon_names(entries.drop_last()) + icon_names(entries.last().1, Some(entries.last().0@))
    }
}

pub open spec fn item_icon_names(items: Seq<PlistNode>, key: Option<Seq<char>>) -> Seq<Seq<char>>
    decreases items, 0int,
{
    if items.len() == 0 {
        Seq::empty()
    } else {
        item_icon_names(items.drop_last(), key) + icon_names(items.last(), key)
    }
}

pub open spec fn key_view(key: Option<&str>) -> Option<Seq<char>> {
    match key {
        Some(k) => Some(k@),
        None => None,
    }
}

fn push_array_strings(items: &Vec<PlistNode>, names: &mut Vec<String>)
    ensures
        text::string_views(final(names)@) == text::string_views(old(names)@) + array_strings(items@),
{
    let ghost start = text::string_views(names@);
    let mut i: usize = 0;
    while i < items.len()
        invariant
            i <= items@.len(),
            text::string_views(names@) == start + array_strings(items@.take(i as int)),
        decreases items@.len() - i,
    {
        assert(items@.take(i + 1).drop_last() =~= items@.take(i as int));
        match &items[i] {
            PlistNode::String(s) => {
                text::push_string(names, text::copy_string(s));
            },
            _ => {},
        }
        assert(text::string_views(names@) =~= start + array_strings(items@.take(i + 1)));
        i = i + 1;
    }
    assert(items@.take(items@.len() as int) =~= items@);
}

/// Adds the icon names of a plist value to `names`.
pub fn collect_ipa_icon_names(node: &PlistNode, key: Option<&str>, names: &mut Vec<String>)
    ensures
        text::string_views(final(names)@) == text::string_views(old(names)@) + icon_names(*node, key_view(key)),
    decreases node,
{
    let ghost start = text::string_views(names@);
    match node {
        PlistNode::Dictionary(entries) => {
            let mut i: usize = 0;
            while i < entries.len()
                invariant
                    i <= entries@.len(),
                    *node == PlistNode::Dictionary(*entries),
                    text::string_views(names@) == start + entry_icon_names(entries@.take(i as int)),
                decreases entries@.len() - i,
            {
                assert(entries@.take(i + 1).drop_last() =~= entries@.take(i as int));
                assert(entries@.take(i + 1).last() == entries@[i as int]);
                assert(decreases_to!(*node => (*node)->Dictionary_0));
                assert((*node)->Dictionary_0 == *entries);
                assert(decreases_to!(*entries => entries@));
                assert(decreases_to!(entries@ => entries@[i as int]));
                assert(decreases_to!(entries@[i as int] => entries@[i as int].1));
                assert(decreases_to!(*node => entries@[i as int].1));
                collect_ipa_icon_names(&entries[i].1, Some(entries[i].0.as_str()), names);
                assert(text::string_views(names@) =~= start + entry_icon_names(entries@.take(i + 1)));
                i = i + 1;
            }
            assert(entries@.take(entries@.len() as int) =~= entries@);
        },
        PlistNode::Array(items) => {
            let icon = match key {
                Some(k) => text::str_contains(k, "IconFiles"),
                None => false,
            };
            if icon {
                push_array_strings(items, names);
            } else {
                let mut i: usize = 0;
                while i < items.len()
                    invariant
                        i <= items@.len(),
                        *node == PlistNode::Array(*items),
                        text::string_views(names@) == start + item_icon_names(items@.take(i as int), key_view(key)),
                    decreases items@.len() - i,
                {
                    assert(items@.take(i + 1).drop_last() =~= items@.take(i as int));
                    assert(items@.take(i + 1).last() == items@[i as int]);
                    assert(decreases_to!(*node => (*node)->Array_0));
                    assert((*node)->Array_0 == *items);
                    assert(decreases_to!(*items => items@));
                    assert(decreases_to!(items@ => items@[i as int]));
                    assert(decreases_to!(*node => items@[i as int]));
                    collect_ipa_icon_names(&items[i], key, names);
                    assert(text::string_views(names@) =~= start + item_icon_names(items@.take(i + 1), key_view(key)));
                    i = i + 1;
                }
                assert(items@.take(items@.len() as int) =~= items@);
            }
        },
        PlistNode::String(s) => {
            let wanted = match key {
                Some(k) => text::eq_str_str(k, "CFBundleIconName") || text::str_contains(k, "IconFiles"),
                None => false,
            };
            if wanted {
                text::push_string(names, text::copy_string(s));
            }
            assert(text::string_views(names@) =~= start + icon_names(*node, key_view(key)));
        },
        _ => {
            assert(text::string_views(names@) =~= start + icon_names(*node, key_view(key)));
        },
    }
}

/// The value of the first entry named `key`, when it is a string
/// (`Dictionary::get` and `as_string`; keys of a property list are unique).
pub open spec fn dict_string(entries: Seq<(String, PlistNode)>, key: Seq<char>) -> Option<Seq<char>>
    decreases entries.len(),
{
    if entries.len() == 0 {
        None
    } else if entries[0].0@ == key {
        match entries[0].1 {
            PlistNode::String(s) => Some(s@),
            _ => None,
        }
    } else {
        dict_string(entries.drop_first(), key)
    }
}

pub fn dictionary_string(entries: &Vec<(String, PlistNode)>, key: &str) -> (r: Option<String>)
    ensures
        text::opt_view(r) == dict_string(entries@, key@),
{
    let mut i: usize = 0;
    assert(entries@.skip(0) =~= entries@);
    while i < entries.len()
        invariant
            i <= entries@.len(),
            dict_string(entries@, key@) == dict_string(entries@.skip(i as int), key@),
        decreases entries@.len() - i,
    {
        assert(entries@.skip(i as int)[0] == entries@[i as int]);
        assert(entries@.skip(i as int).drop_first() =~= entries@.skip(i + 1));
        if text::eq_str_str(entries[i].0.as_str(), key) {
            return match &entries[i].1 {
                PlistNode::String(s) => Some(text::copy_string(s)),
                _ => None,
            };
        }
        i = i + 1;
    }
    None
}

/// Whether some entry is named `key`.
pub open spec fn dict_has(entries: Seq<(String, PlistNode)>, key: Seq<char>) -> bool {
    exists|k: int| 0 <= k < entries.len() && (#[trigger] entries[k]).0@ == key
}

/// A usage-description entry: a key ending in `UsageDescription` with a
/// string value.
pub open spec fn usage_entry(e: (String, PlistNode)) -> bool {
    text::ends_with(e.0@, "UsageDescription"@) && e.1 is String
}

/// The capabilities an `UIRequiredDeviceCapabilities` value requires: the
/// strings of an array, or the keys of a dictionary whose value is `true`.
pub open spec fn required_capability(v: PlistNode, x: Seq<char>) -> bool {
    match v {
        PlistNode::Array(items) => exists|k: int|
            0 <= k < items@.len() && (#[trigger] items@[k]) is String && items@[k]->String_0@ == x,
        PlistNode::Dictionary(entries) => exists|k: int|
            0 <= k < entries@.len() && (#[trigger] entries@[k]).0@ == x && entries@[k].1 == PlistNode::Boolean(true),
        _ => false,
    }
}

/// The value of the first entry named `key`.
pub open spec fn dict_value(entries: Seq<(String, PlistNode)>, key: Seq<char>) -> Option<PlistNode>
    decreases entries.len(),
{
    if entries.len() == 0 {
        None
    } else if entries[0].0@ == key {
        Some(entries[0].1)
    } else {
        dict_value(entries.drop_first(), key)
    }
}

/// `trim_end_matches(pattern)` for a non-empty pattern.
pub open spec fn trim_end_str(s: Seq<char>, p: Seq<char>) -> Seq<char>
    decreases s.len(),
{
    if p.len() > 0 && text::ends_with(s, p) && s.len() >= p.len() {
        trim_end_str(s.take(s.len() - p.len()), p)
    } else {
        s
    }
}

fn trim_end_str_exec(s: &str, p: &str) -> (r: String)
    requires
        p@.len() > 0,
    ensures
        r@ == trim_end_str(s@, p@),
{
    let mut cur = text::chars_of(s);
    let pv = text::chars_of(p);
    while text::ends_with_exec(&cur, &pv) && cur.len() >= pv.len()
        invariant
            pv@ == p@,
            p@.len() > 0,
            trim_end_str(s@, p@) == trim_end_str(cur@, p@),
        decreases cur@.len(),
    {
        cur = text::slice_chars(&cur, 0, cur.len() - pv.len());
    }
    text::string_of(&cur)
}

/// A hint below the application directory, or made relative to it.
pub open spec fn prefixed(hint: Seq<char>, prefix: Seq<char>) -> Seq<char> {
    if text::starts_with(hint, prefix) {
        hint
    } else {
        prefix + hint
    }
}

/// What the analysis reads from an IPA's `Info.plist`.
#[derive(Debug)]
pub struct IpaMetadata {
    pub package_name: Option<String>,
    pub display_name: Option<String>,
    pub version_name: Option<String>,
    pub version_code: Option<String>,
    pub minimum_os_version: Option<String>,
    pub executable: Option<String>,
    /// Usage-description keys and texts, in key order.
    pub usage_descriptions: Vec<(String, String)>,
    /// Usage-description keys and required capabilities, in order, each once.
    pub permissions: Vec<String>,
    /// Icon file hints, each below the application directory.
    pub icon_hints: Vec<String>,
    /// The application directory inside the archive (`Payload/<App>.app/`).
    pub app_prefix: String,
    pub has_icon_name: bool,
}

pub open spec fn pair_keys(v: Seq<(String, String)>) -> Seq<Seq<char>> {
    v.map_values(|p: (String, String)| p.0@)
}

/// Puts a key and value into a list ordered by key, replacing the value of
/// an equal key (`BTreeMap::insert`).
fn insert_pair_sorted(v: &mut Vec<(String, String)>, key: &str, value: String)
    requires
        text::sorted_set(pair_keys(old(v)@)),
    ensures
        text::sorted_set(pair_keys(final(v)@)),
        forall|x: Seq<char>| pair_keys(final(v)@).contains(x) <==> (pair_keys(old(v)@).contains(x) || x == key@),
        forall|j: int|
            0 <= j < final(v)@.len() ==> ((#[trigger] final(v)@[j]).0@ == key@ && final(v)@[j].1@ == value@)
                || old(v)@.contains(final(v)@[j]),
{
    let ghost o = v@;
    let ghost ok = pair_keys(o);
    let kc = text::chars_of(key);
    let mut p: usize = 0;
    while p < v.len() && text::lex_less(&text::chars_of(v[p].0.as_str()), &kc)
        invariant
            p <= v@.len(),
            v@ == o,
            ok == pair_keys(o),
            kc@ == key@,
            text::sorted_set(ok),
            forall|i: int| 0 <= i < p ==> text::lex_lt(#[trigger] ok[i], key@),
        decreases v@.len() - p,
    {
        assert(ok[p as int] == v@[p as int].0@);
        p = p + 1;
    }
    if p < v.len() && text::eq_str_str(v[p].0.as_str(), key) {
        let ghost old_entry = v@[p as int];
        v.set(p, (text::copy_str(key), value));
        assert(pair_keys(v@) =~= ok) by {
            assert(ok[p as int] == key@);
        }
        assert forall|j: int| 0 <= j < v@.len() implies ((#[trigger] v@[j]).0@ == key@ && v@[j].1@ == value@)
            || o.contains(v@[j]) by {
            if j != p {
                assert(v@[j] == o[j]);
            }
        }
        assert forall|x: Seq<char>| pair_keys(v@).contains(x) <==> (ok.contains(x) || x == key@) by {
            if x == key@ {
                assert(ok[p as int] == x);
            }
        }
        return;
    }
    proof {
        if p < v@.len() {
            assert(ok[p as int] == v@[p as int].0@);
            assert(!text::lex_lt(ok[p as int], key@));
            text::lemma_lex_total(ok[p as int], key@);
        }
    }
    v.insert(p, (text::copy_str(key), value));
    let ghost nk = pair_keys(v@);
    assert(nk =~= ok.insert(p as int, key@));
    assert forall|i: int, j: int| 0 <= i < j < nk.len() implies text::lex_lt(#[trigger] nk[i], #[trigger] nk[j]) by {
        if j == p {
            assert(nk[i] == ok[i]);
        } else if i == p {
            assert(nk[j] == ok[j - 1]);
            if j - 1 > p {
                text::lemma_lex_transitive(key@, ok[p as int], ok[j - 1]);
            }
        } else if j < p {
            assert(nk[i] == ok[i] && nk[j] == ok[j]);
        } else if i < p {
            assert(nk[i] == ok[i] && nk[j] == ok[j - 1]);
        } else {
            assert(nk[i] == ok[i - 1] && nk[j] == ok[j - 1]);
        }
    }
    assert forall|x: Seq<char>| nk.contains(x) <==> (ok.contains(x) || x == key@) by {
        if nk.contains(x) {
            let i = choose|i: int| 0 <= i < nk.len() && nk[i] == x;
            if i < p {
                assert(ok[i] == x);
            } else if i > p {
                assert(ok[i - 1] == x);
            }
        }
        if ok.contains(x) {
            let i = choose|i: int| 0 <= i < ok.len() && ok[i] == x;
            if i < p {
                assert(nk[i] == x);
            } else {
                assert(nk[i + 1] == x);
            }
        }
        if x == key@ {
            assert(nk[p as int] == x);
        }
    }
    assert forall|j: int| 0 <= j < v@.len() implies ((#[trigger] v@[j]).0@ == key@ && v@[j].1@ == value@)
        || o.contains(v@[j]) by {
        if j < p {
            assert(v@[j] == o[j]);
        } else if j > p {
            assert(v@[j] == o[j - 1]);
        }
    }
}

// ---------------------------------------------------------------------------
// Parsing Info.plist
// ---------------------------------------------------------------------------

/// The largest `Info.plist` read from an IPA, 4 MiB.
pub const MAX_PLIST_BYTES: u64 = 4194304;

/// A property-list value as text and structure, the view of a `PlistNode`.
pub enum PlistView {
    String(Seq<char>),
    Boolean(bool),
    Array(Seq<PlistView>),
    Dictionary(Seq<(Seq<char>, PlistView)>),
    Other,
}

pub open spec fn plist_view(node: PlistNode) -> PlistView
    decreases node, 1int,
{
    match node {
        PlistNode::String(s) => PlistView::String(s@),
        PlistNode::Boolean(b) => PlistView::Boolean(b),
        PlistNode::Array(items) => PlistView::Array(items_view(items@)),
        PlistNode::Dictionary(entries) => PlistView::Dictionary(entries_view(entries@)),
        PlistNode::Other => PlistView::Other,
    }
}

pub open spec fn items_view(items: Seq<PlistNode>) -> Seq<PlistView>
    decreases items, 0int,
{
    if items.len() == 0 {
        Seq::empty()
    } else {
        items_view(items.drop_last()).push(plist_view(items.last()))
    }
}

pub open spec fn entries_view(entries: Seq<(String, PlistNode)>) -> Seq<(Seq<char>, PlistView)>
    decreases entries, 0int,
{
    if entries.len() == 0 {
        Seq::empty()
    } else {
        entries_view(entries.drop_last()).push((entries.last().0@, plist_view(entries.last().1)))
    }
}

/// The document that the `plist` crate reads from `bytes` (in any of its
/// encodings), or `None` where it refuses them.
pub uninterp spec fn plist_parsed(bytes: Seq<u8>) -> Option<PlistView>;

#[verifier::external_type_specification]
#[verifier::external_body]
pub struct ExPlistValue(plist::Value);

/// The node for a parsed `plist::Value`: strings, booleans, arrays and
/// dictionaries (in document order) as they are, every other kind of value
/// as `Other`. What it returns is stated by `plist_from_bytes`.
#[verifier::external_body]
fn plist_node(value: plist::Value) -> PlistNode {
    match value {
        plist::Value::String(s) => PlistNode::String(s),
        plist::Value::Boolean(b) => PlistNode::Boolean(b),
        plist::Value::Array(items) => PlistNode::Array(items.into_iter().map(plist_node).collect()),
        plist::Value::Dictionary(d) => PlistNode::Dictionary(d.into_iter().map(|(k, v)| (k, plist_node(v))).collect()),
        _ => PlistNode::Other,
    }
}

/// `plist::Value::from_reader` over the bytes: the parsed document, or the
/// text of the parser's error. The error text is not stated.
#[verifier::external_body]
fn plist_from_bytes(bytes: &[u8]) -> (r: Result<PlistNode, String>)
    ensures
        r is Ok <==> plist_parsed(bytes@) is Some,
        r matches Ok(n) ==> plist_parsed(bytes@) == Some(plist_view(n)),
{
    plist::Value::from_reader(std::io::Cursor::new(bytes)).map(plist_node).map_err(|e| e.to_string())
}

/// The declared size of the `Info.plist` entry is within the limit.
pub fn check_plist_entry_size(declared_size: u64) -> (r: Result<(), ApiError>)
    ensures
        declared_size <= MAX_PLIST_BYTES ==> r is Ok,
        declared_size > MAX_PLIST_BYTES ==> (r matches Err(e) && is_error(
            e,
            "ipa_info_plist_too_large"@,
            "Info.plist exceeds the 4 MiB safety limit"@,
        )),
{
    if declared_size > MAX_PLIST_BYTES {
        return Err(ApiError::new("ipa_info_plist_too_large", "Info.plist exceeds the 4 MiB safety limit"));
    }
    Ok(())
}

/// Reads the IPA metadata from the bytes of the `Info.plist` entry at
/// `plist_path` (at most one byte more than the limit is read from the
/// archive): too large, undecodable, or the metadata of the document.
pub fn ipa_info_plist(plist_path: &str, bytes: &[u8]) -> (r: Result<IpaMetadata, ApiError>)
    ensures
        bytes@.len() > MAX_PLIST_BYTES ==> (r matches Err(e) && is_error(
            e,
            "ipa_info_plist_too_large"@,
            "Info.plist exceeds the 4 MiB decompression safety limit"@,
        )),
        bytes@.len() <= MAX_PLIST_BYTES && plist_parsed(bytes@) is None ==> (r matches Err(e)
            && e.code@ == "invalid_ipa_plist"@ && text::starts_with(e.message@, "Unable to decode Info.plist: "@)
            && e.details is None),
        bytes@.len() <= MAX_PLIST_BYTES && plist_parsed(bytes@) is Some ==> exists|n: PlistNode|
            plist_parsed(bytes@) == Some(plist_view(n)) && #[trigger] ipa_metadata_of(n, plist_path@, r),
{
    if bytes.len() as u64 > MAX_PLIST_BYTES {
        return Err(
            ApiError::new("ipa_info_plist_too_large", "Info.plist exceeds the 4 MiB decompression safety limit"),
        );
    }
    match plist_from_bytes(bytes) {
        Err(reason) => {
            let prefix = "Unable to decode Info.plist: ";
            let message = text::concat_strs(prefix, reason.as_str());
            assert(message@.take(prefix@.len() as int) =~= prefix@);
            Err(ApiError::with_message("invalid_ipa_plist", message))
        },
        Ok(node) => {
            let r = ipa_metadata(&node, plist_path);
            assert(ipa_metadata_of(node, plist_path@, r));
            r
        },
    }
}

/// The closing warnings of an IPA analysis: an asset-catalog icon that no
/// archive entry provides, and a missing bundle identifier.
pub fn finish_ipa_warnings(icon_found: bool, metadata: &IpaMetadata, warnings: &mut Vec<String>)
    ensures
        text::string_views(final(warnings)@) == text::string_views(old(warnings)@) + (if !icon_found
            && metadata.has_icon_name {
            seq![
                "The IPA references an asset-catalog icon; Assets.car cannot be decoded by the safe ZIP fallback"@,
            ]
        } else {
            Seq::empty()
        }) + (if metadata.package_name is None {
            seq!["CFBundleIdentifier is missing from Info.plist"@]
        } else {
            Seq::empty()
        }),
{
    let ghost start = text::string_views(warnings@);
    if !icon_found && metadata.has_icon_name {
        text::push_str(
            warnings,
            "The IPA references an asset-catalog icon; Assets.car cannot be decoded by the safe ZIP fallback",
        );
    }
    let ghost mid = text::string_views(warnings@);
    if metadata.package_name.is_none() {
        text::push_str(warnings, "CFBundleIdentifier is missing from Info.plist");
    }
    assert(text::string_views(warnings@) =~= start + (if !icon_found && metadata.has_icon_name {
        seq![
            "The IPA references an asset-catalog icon; Assets.car cannot be decoded by the safe ZIP fallback"@,
        ]
    } else {
        Seq::empty()
    }) + (if metadata.package_name is None {
        seq!["CFBundleIdentifier is missing from Info.plist"@]
    } else {
        Seq::empty()
    }));
}

/// What `ipa_metadata` gives for a parsed `Info.plist` at `plist_path`.
pub open spec fn ipa_metadata_of(root: PlistNode, plist_path: Seq<char>, r: Result<IpaMetadata, ApiError>) -> bool {
    &&& !(root is Dictionary) ==> (r matches Err(e) && is_error(
            e,
            "invalid_ipa_plist"@,
            "Info.plist root is not a dictionary"@,
        ))
    &&& root matches PlistNode::Dictionary(entries) ==> (r matches Ok(m) && {
            let d = entries@;
            let prefix = trim_end_str(plist_path, "Info.plist"@);
            &&& text::opt_view(m.package_name) == dict_string(d, "CFBundleIdentifier"@)
            &&& text::opt_view(m.display_name) == (if dict_string(d, "CFBundleDisplayName"@) is Some {
                dict_string(d, "CFBundleDisplayName"@)
            } else {
                dict_string(d, "CFBundleName"@)
            })
            &&& text::opt_view(m.version_name) == dict_string(d, "CFBundleShortVersionString"@)
            &&& text::opt_view(m.version_code) == dict_string(d, "CFBundleVersion"@)
            &&& text::opt_view(m.minimum_os_version) == dict_string(d, "MinimumOSVersion"@)
            &&& text::opt_view(m.executable) == dict_string(d, "CFBundleExecutable"@)
            &&& m.app_prefix@ == prefix
            &&& m.has_icon_name == dict_has(d, "CFBundleIconName"@)
            &&& text::string_views(m.icon_hints@) == icon_names(root, None).map_values(
                |h: Seq<char>| prefixed(h, prefix),
            )
            &&& text::sorted_set(pair_keys(m.usage_descriptions@))
            &&& forall|x: Seq<char>|
                pair_keys(m.usage_descriptions@).contains(x) <==> exists|k: int|
                    0 <= k < d.len() && usage_entry(#[trigger] d[k]) && d[k].0@ == x
            &&& forall|j: int|
                0 <= j < m.usage_descriptions@.len() ==> exists|k: int|
                    0 <= k < d.len() && #[trigger] d[k].0@ == (#[trigger] m.usage_descriptions@[j]).0@
                        && usage_entry(d[k]) && d[k].1->String_0@ == m.usage_descriptions@[j].1@
            &&& text::sorted_set(text::string_views(m.permissions@))
            &&& forall|x: Seq<char>|
                text::string_views(m.permissions@).contains(x) <==> (pair_keys(m.usage_descriptions@).contains(x)
                    || capabilities_of(d, x))
        })
}

/// Reads the metadata of an IPA from its parsed `Info.plist` found at
/// `plist_path` in the archive.
#[verifier::rlimit(40)]
pub fn ipa_metadata(root: &PlistNode, plist_path: &str) -> (r: Result<IpaMetadata, ApiError>)
    ensures
        ipa_metadata_of(*root, plist_path@, r),
{
    let entries = match root {
        PlistNode::Dictionary(entries) => entries,
        _ => {
            return Err(ApiError::new("invalid_ipa_plist", "Info.plist root is not a dictionary"));
        },
    };
    let package_name = dictionary_string(entries, "CFBundleIdentifier");
    let display = dictionary_string(entries, "CFBundleDisplayName");
    let display_name = match display {
        Some(d) => Some(d),
        None => dictionary_string(entries, "CFBundleName"),
    };
    let version_name = dictionary_string(entries, "CFBundleShortVersionString");
    let version_code = dictionary_string(entries, "CFBundleVersion");
    let minimum_os_version = dictionary_string(entries, "MinimumOSVersion");
    let executable = dictionary_string(entries, "CFBundleExecutable");
    let ghost d = entries@;
    let mut usage: Vec<(String, String)> = Vec::new();
    let mut has_icon_name = false;
    let mut i: usize = 0;
    while i < entries.len()
        invariant
            i <= entries@.len(),
            d == entries@,
            text::sorted_set(pair_keys(usage@)),
            forall|x: Seq<char>|
                pair_keys(usage@).contains(x) <==> exists|k: int|
                    0 <= k < i && usage_entry(#[trigger] d[k]) && d[k].0@ == x,
            forall|j: int|
                0 <= j < usage@.len() ==> exists|k: int|
                    0 <= k < d.len() && #[trigger] d[k].0@ == (#[trigger] usage@[j]).0@ && usage_entry(d[k])
                        && d[k].1->String_0@ == usage@[j].1@,
            has_icon_name == exists|k: int| 0 <= k < i && (#[trigger] d[k]).0@ == "CFBundleIconName"@,
        decreases entries@.len() - i,
    {
        let ghost before = pair_keys(usage@);
        let ghost old_usage = usage@;
        let key = entries[i].0.as_str();
        let kv = text::chars_of(key);
        if text::ends_with_str(&kv, "UsageDescription") {
            match &entries[i].1 {
                PlistNode::String(s) => {
                    insert_pair_sorted(&mut usage, key, text::copy_string(s));
                    assert forall|j: int| 0 <= j < usage@.len() implies exists|k: int|
                        0 <= k < d.len() && #[trigger] d[k].0@ == (#[trigger] usage@[j]).0@ && usage_entry(d[k])
                            && d[k].1->String_0@ == usage@[j].1@ by {
                        if old_usage.contains(usage@[j]) {
                            let w = choose|w: int| 0 <= w < old_usage.len() && old_usage[w] == usage@[j];
                            assert(old_usage[w] == usage@[j]);
                        } else {
                            assert(d[i as int].0@ == usage@[j].0@);
                        }
                    }
                },
                _ => {},
            }
        }
        if text::eq_str_str(key, "CFBundleIconName") {
            has_icon_name = true;
        }
        assert forall|x: Seq<char>| pair_keys(usage@).contains(x) <==> exists|k: int|
            0 <= k < i + 1 && usage_entry(#[trigger] d[k]) && d[k].0@ == x by {
            if exists|k: int| 0 <= k < i + 1 && usage_entry(#[trigger] d[k]) && d[k].0@ == x {
                let k = choose|k: int| 0 <= k < i + 1 && usage_entry(#[trigger] d[k]) && d[k].0@ == x;
                if k < i {
                    assert(before.contains(x));
                }
            }
        }
        i = i + 1;
    }
    let mut permissions: Vec<String> = Vec::new();
    let mut k: usize = 0;
    while k < usage.len()
        invariant
            k <= usage@.len(),
            text::sorted_set(text::string_views(permissions@)),
            forall|x: Seq<char>| text::string_views(permissions@).contains(x) <==> pair_keys(usage@).take(k as int).contains(x),
        decreases usage@.len() - k,
    {
        let ghost pk = pair_keys(usage@);
        let ghost t0 = pk.take(k as int);
        let ghost t1 = pk.take(k + 1);
        assert(t1 =~= t0.push(usage@[k as int].0@));
        text::insert_sorted_unique(&mut permissions, usage[k].0.as_str());
        assert forall|x: Seq<char>| text::string_views(permissions@).contains(x) <==> t1.contains(x) by {
            if t1.contains(x) {
                let w = choose|w: int| 0 <= w < k + 1 && #[trigger] t1[w] == x;
                if w < k {
                    assert(t0[w] == x);
                }
            }
            if t0.contains(x) {
                let w = choose|w: int| 0 <= w < k && #[trigger] t0[w] == x;
                assert(t1[w] == x);
            }
            if x == usage@[k as int].0@ {
                assert(t1[k as int] == x);
            }
        }
        k = k + 1;
    }
    assert(pair_keys(usage@).take(usage@.len() as int) =~= pair_keys(usage@));
    let caps = dictionary_capabilities(entries);
    let mut c: usize = 0;
    while c < caps.len()
        invariant
            c <= caps@.len(),
            text::sorted_set(text::string_views(permissions@)),
            forall|x: Seq<char>| text::string_views(permissions@).contains(x) <==> (pair_keys(usage@).contains(x)
                || text::string_views(caps@).take(c as int).contains(x)),
        decreases caps@.len() - c,
    {
        let ghost cs = text::string_views(caps@);
        let ghost c0 = cs.take(c as int);
        let ghost c1 = cs.take(c + 1);
        assert(c1 =~= c0.push(caps@[c as int]@));
        text::insert_sorted_unique(&mut permissions, caps[c].as_str());
        assert forall|x: Seq<char>| text::string_views(permissions@).contains(x) <==> (pair_keys(usage@).contains(x)
            || c1.contains(x)) by {
            if c1.contains(x) {
                let w = choose|w: int| 0 <= w < c + 1 && #[trigger] c1[w] == x;
                if w < c {
                    assert(c0[w] == x);
                } else {
                    assert(x == caps@[c as int]@);
                }
            }
            if c0.contains(x) {
                let w = choose|w: int| 0 <= w < c && #[trigger] c0[w] == x;
                assert(c1[w] == x);
            }
            if x == caps@[c as int]@ {
                assert(c1[c as int] == x);
            }
        }
        c = c + 1;
    }
    assert(text::string_views(caps@).take(caps@.len() as int) =~= text::string_views(caps@));
    proof {
        reveal_strlit("Info.plist");
    }
    let prefix = trim_end_str_exec(plist_path, "Info.plist");
    let mut raw: Vec<String> = Vec::new();
    collect_ipa_icon_names(root, None, &mut raw);
    assert(text::string_views(raw@) =~= icon_names(*root, None));
    let mut icon_hints: Vec<String> = Vec::new();
    let pv = text::chars_of(prefix.as_str());
    let mut h: usize = 0;
    while h < raw.len()
        invariant
            h <= raw@.len(),
            pv@ == prefix@,
            text::string_views(icon_hints@) == text::string_views(raw@).take(h as int).map_values(
                |x: Seq<char>| prefixed(x, prefix@),
            ),
        decreases raw@.len() - h,
    {
        let hv = text::chars_of(raw[h].as_str());
        if text::starts_with_exec(&hv, &pv) {
            text::push_str(&mut icon_hints, raw[h].as_str());
        } else {
            text::push_string(&mut icon_hints, text::concat_strs(prefix.as_str(), raw[h].as_str()));
        }
        assert(text::string_views(raw@).take(h + 1) =~= text::string_views(raw@).take(h as int).push(raw@[h as int]@));
        assert(text::string_views(icon_hints@) =~= text::string_views(raw@).take(h + 1).map_values(
            |x: Seq<char>| prefixed(x, prefix@),
        ));
        h = h + 1;
    }
    assert(text::string_views(raw@).take(raw@.len() as int) =~= text::string_views(raw@));
    Ok(
        IpaMetadata {
            package_name,
            display_name,
            version_name,
            version_code,
            minimum_os_version,
            executable,
            usage_descriptions: usage,
            permissions,
            icon_hints,
            app_prefix: prefix,
            has_icon_name,
        },
    )
}

pub open spec fn capabilities_of(d: Seq<(String, PlistNode)>, x: Seq<char>) -> bool {
    match dict_value(d, "UIRequiredDeviceCapabilities"@) {
        Some(v) => required_capability(v, x),
        None => false,
    }
}

fn node_capabilities(v: &PlistNode) -> (r: Vec<String>)
    ensures
        forall|x: Seq<char>| text::string_views(r@).contains(x) <==> required_capability(*v, x),
{
    let mut out: Vec<String> = Vec::new();
    match v {
        PlistNode::Array(items) => {
            let mut k: usize = 0;
            while k < items.len()
                invariant
                    k <= items@.len(),
                    forall|x: Seq<char>|
                        text::string_views(out@).contains(x) <==> exists|j: int|
                            0 <= j < k && (#[trigger] items@[j]) is String && items@[j]->String_0@ == x,
                decreases items@.len() - k,
            {
                let ghost before = text::string_views(out@);
                match &items[k] {
                    PlistNode::String(s) => text::push_string(&mut out, text::copy_string(s)),
                    _ => {},
                }
                assert forall|x: Seq<char>| text::string_views(out@).contains(x) <==> exists|j: int|
                    0 <= j < k + 1 && (#[trigger] items@[j]) is String && items@[j]->String_0@ == x by {
                    if text::string_views(out@).contains(x) && !before.contains(x) {
                        assert(items@[k as int] is String && items@[k as int]->String_0@ == x);
                    }
                    if before.contains(x) {
                        let w = choose|w: int| 0 <= w < before.len() && before[w] == x;
                        assert(text::string_views(out@)[w] == x);
                    }
                    if exists|j: int| 0 <= j < k + 1 && (#[trigger] items@[j]) is String && items@[j]->String_0@ == x {
                        let j = choose|j: int| 0 <= j < k + 1 && (#[trigger] items@[j]) is String && items@[j]->String_0@ == x;
                        if j == k {
                            assert(text::string_views(out@)[before.len() as int] == x);
                        }
                    }
                }
                k = k + 1;
            }
        },
        PlistNode::Dictionary(values) => {
            let mut k: usize = 0;
            while k < values.len()
                invariant
                    k <= values@.len(),
                    forall|x: Seq<char>|
                        text::string_views(out@).contains(x) <==> exists|j: int|
                            0 <= j < k && (#[trigger] values@[j]).0@ == x && values@[j].1 == PlistNode::Boolean(true),
                decreases values@.len() - k,
            {
                let ghost before = text::string_views(out@);
                let on = match &values[k].1 {
                    PlistNode::Boolean(b) => *b,
                    _ => false,
                };
                if on {
                    text::push_string(&mut out, text::copy_string(&values[k].0));
                }
                assert forall|x: Seq<char>| text::string_views(out@).contains(x) <==> exists|j: int|
                    0 <= j < k + 1 && (#[trigger] values@[j]).0@ == x && values@[j].1 == PlistNode::Boolean(true) by {
                    if text::string_views(out@).contains(x) && !before.contains(x) {
                        assert(values@[k as int].0@ == x);
                    }
                    if before.contains(x) {
                        let w = choose|w: int| 0 <= w < before.len() && before[w] == x;
                        assert(text::string_views(out@)[w] == x);
                    }
                    if exists|j: int| 0 <= j < k + 1 && (#[trigger] values@[j]).0@ == x && values@[j].1 == PlistNode::Boolean(true) {
                        let j = choose|j: int| 0 <= j < k + 1 && (#[trigger] values@[j]).0@ == x && values@[j].1 == PlistNode::Boolean(true);
                        if j == k {
                            assert(text::string_views(out@)[before.len() as int] == x);
                        }
                    }
                }
                k = k + 1;
            }
        },
        _ => {},
    }
    out
}

/// The capabilities required by the root dictionary.
fn dictionary_capabilities(entries: &Vec<(String, PlistNode)>) -> (r: Vec<String>)
    ensures
        forall|x: Seq<char>| text::string_views(r@).contains(x) <==> capabilities_of(entries@, x),
{
    let mut i: usize = 0;
    assert(entries@.skip(0) =~= entries@);
    while i < entries.len()
        invariant
            i <= entries@.len(),
            dict_value(entries@, "UIRequiredDeviceCapabilities"@) == dict_value(entries@.skip(i as int), "UIRequiredDeviceCapabilities"@),
        decreases entries@.len() - i,
    {
        assert(entries@.skip(i as int)[0] == entries@[i as int]);
        assert(entries@.skip(i as int).drop_first() =~= entries@.skip(i + 1));
        if text::eq_str_str(entries[i].0.as_str(), "UIRequiredDeviceCapabilities") {
            return node_capabilities(&entries[i].1);
        }
        i = i + 1;
    }
    Vec::new()
}

// ---------------------------------------------------------------------------
// APK analyzers
// ---------------------------------------------------------------------------

/// A manifest field that `apkanalyzer manifest <query>` prints.
#[derive(Debug, Clone, Copy, PartialEq, Eq, Structural)]
pub enum ApkanalyzerField {
    Package,
    VersionName,
    VersionCode,
    MinSdk,
    TargetSdk,
    Permissions,
}

pub open spec fn query_name(f: ApkanalyzerField) -> Seq<char> {
    match f {
        ApkanalyzerField::Package => "application-id"@,
        ApkanalyzerField::VersionName => "version-name"@,
        ApkanalyzerField::VersionCode => "version-code"@,
        ApkanalyzerField::MinSdk => "min-sdk"@,
        ApkanalyzerField::TargetSdk => "target-sdk"@,
        ApkanalyzerField::Permissions => "permissions"@,
    }
}

/// The fields queried, in order.
pub fn apkanalyzer_fields() -> (r: Vec<ApkanalyzerField>)
    ensures
        r@ == seq![
            ApkanalyzerField::Package,
            ApkanalyzerField::VersionName,
            ApkanalyzerField::VersionCode,
            ApkanalyzerField::MinSdk,
            ApkanalyzerField::TargetSdk,
            ApkanalyzerField::Permissions,
        ],
{
    let v = vec![
        ApkanalyzerField::Package,
        ApkanalyzerField::VersionName,
        ApkanalyzerField::VersionCode,
        ApkanalyzerField::MinSdk,
        ApkanalyzerField::TargetSdk,
        ApkanalyzerField::Permissions,
    ];
    assert(v@ =~= seq![
        ApkanalyzerField::Package,
        ApkanalyzerField::VersionName,
        ApkanalyzerField::VersionCode,
        ApkanalyzerField::MinSdk,
        ApkanalyzerField::TargetSdk,
        ApkanalyzerField::Permissions,
    ]);
    v
}

/// `apkanalyzer manifest <query> <apk>`; `None` asks for the whole manifest
/// (`print`).
pub fn apkanalyzer_args(field: Option<ApkanalyzerField>, apk_path: &str) -> (r: Vec<String>)
    ensures
        text::string_views(r@) == seq![
            "manifest"@,
            match field {
                Some(f) => query_name(f),
                None => "print"@,
            },
            apk_path@,
        ],
{
    let query = match field {
        Some(ApkanalyzerField::Package) => "application-id",
        Some(ApkanalyzerField::VersionName) => "version-name",
        Some(ApkanalyzerField::VersionCode) => "version-code",
        Some(ApkanalyzerField::MinSdk) => "min-sdk",
        Some(ApkanalyzerField::TargetSdk) => "target-sdk",
        Some(ApkanalyzerField::Permissions) => "permissions",
        None => "print",
    };
    let mut v: Vec<String> = Vec::new();
    text::push_str(&mut v, "manifest");
    text::push_str(&mut v, query);
    text::push_str(&mut v, apk_path);
    assert(text::string_views(v@) =~= seq![
        "manifest"@,
        match field {
            Some(f) => query_name(f),
            None => "print"@,
        },
        apk_path@,
    ]);
    v
}

/// The usable answer of a query: output of a run that exited 0 in time,
/// trimmed and not empty.
pub open spec fn answer(o: ProcessOutput) -> Option<Seq<char>> {
    if o.exit_code == Some(0i32) && !o.timed_out && text::trim(o.stdout@).len() > 0 {
        Some(text::trim(o.stdout@))
    } else {
        None
    }
}

/// Fills one field from its query's output; says whether the output was
/// usable. A single-valued field takes the first line, permissions take
/// every non-blank trimmed line.
#[verifier::spinoff_prover]
#[verifier::rlimit(40)]
pub fn apply_apkanalyzer_field(field: ApkanalyzerField, output: &ProcessOutput, metadata: &mut PackageMetadata) -> (r: bool)
    requires
        text::sorted_set(text::string_views(old(metadata).permissions@)),
    ensures
        r == answer(*output) is Some,
        text::sorted_set(text::string_views(final(metadata).permissions@)),
        !r ==> meta_view_eq(*final(metadata), *old(metadata)),
        r && field != ApkanalyzerField::Permissions ==> {
            let first = text::lines(answer(*output)->0)[0];
            &&& text::string_views(final(metadata).permissions@) == text::string_views(old(metadata).permissions@)
            &&& text::opt_view(final(metadata).display_name) == text::opt_view(old(metadata).display_name)
            &&& text::opt_view(final(metadata).package_name) == (if field == ApkanalyzerField::Package {
                Some(first)
            } else {
                text::opt_view(old(metadata).package_name)
            })
            &&& text::opt_view(final(metadata).version_name) == (if field == ApkanalyzerField::VersionName {
                Some(first)
            } else {
                text::opt_view(old(metadata).version_name)
            })
            &&& text::opt_view(final(metadata).version_code) == (if field == ApkanalyzerField::VersionCode {
                Some(first)
            } else {
                text::opt_view(old(metadata).version_code)
            })
            &&& text::opt_view(final(metadata).minimum_os_version) == (if field == ApkanalyzerField::MinSdk {
                Some(first)
            } else {
                text::opt_view(old(metadata).minimum_os_version)
            })
            &&& text::opt_view(final(metadata).target_sdk_version) == (if field == ApkanalyzerField::TargetSdk {
                Some(first)
            } else {
                text::opt_view(old(metadata).target_sdk_version)
            })
        },
        r && field == ApkanalyzerField::Permissions ==> forall|x: Seq<char>|
            text::string_views(final(metadata).permissions@).contains(x) <==> (text::string_views(
                old(metadata).permissions@,
            ).contains(x) || (trimmed_all(text::lines(answer(*output)->0)).contains(x)
                && x.len() > 0)),
{
    let ok = match output.exit_code {
        Some(c) => c == 0,
        None => false,
    };
    if !ok || output.timed_out {
        return false;
    }
    let t = text::trim_exec(&text::chars_of(output.stdout.as_str()));
    if t.len() == 0 {
        return false;
    }
    let ls = text::lines_exec(&t);
    proof {
        lemma_lines_nonempty(t@);
    }
    match field {
        ApkanalyzerField::Permissions => {
            let ghost lv = text::views(ls@);
            let ghost start = text::string_views(metadata.permissions@);
            let mut i: usize = 0;
            while i < ls.len()
                invariant
                    i <= ls@.len(),
                    lv == text::views(ls@),
                    lv.len() == ls@.len(),
                    text::sorted_set(text::string_views(metadata.permissions@)),
                    forall|x: Seq<char>|
                        text::string_views(metadata.permissions@).contains(x) <==> (start.contains(x) || (trimmed_all(lv.take(i as int)).contains(x) && x.len() > 0)),
                decreases ls@.len() - i,
            {
                let line = text::trim_exec(&ls[i]);
                let ghost before = text::string_views(metadata.permissions@);
                let ghost m0 = trimmed_all(lv.take(i as int));
                let ghost m1 = trimmed_all(lv.take(i + 1));
                assert(m1 =~= m0.push(line@));
                let line_text = text::string_of(&line);
                if line.len() > 0 {
                    text::insert_sorted_unique(&mut metadata.permissions, line_text.as_str());
                }
                assert(forall|x: Seq<char>| text::string_views(metadata.permissions@).contains(x) <==> (before.contains(x)
                    || (x == line@ && line@.len() > 0)));
                assert forall|x: Seq<char>| text::string_views(metadata.permissions@).contains(x) implies (start.contains(x)
                    || (m1.contains(x) && x.len() > 0)) by {
                    if before.contains(x) {
                        if m0.contains(x) {
                            let w = choose|w: int| 0 <= w < m0.len() && #[trigger] m0[w] == x;
                            assert(m1[w] == x);
                        }
                    } else {
                        assert(m1[i as int] == x);
                    }
                }
                assert forall|x: Seq<char>| (start.contains(x) || (m1.contains(x) && x.len() > 0)) implies text::string_views(
                    metadata.permissions@,
                ).contains(x) by {
                    if !start.contains(x) {
                        let w = choose|w: int| 0 <= w < m1.len() && #[trigger] m1[w] == x;
                        if w < i {
                            assert(m0[w] == x);
                            assert(m0.contains(x));
                        } else {
                            assert(x == line@);
                        }
                    }
                }
                i = i + 1;
            }
            assert(lv.take(lv.len() as int) =~= lv);
        },
        _ => {
            let first = text::string_of(&ls[0]);
            match field {
                ApkanalyzerField::Package => metadata.package_name = Some(first),
                ApkanalyzerField::VersionName => metadata.version_name = Some(first),
                ApkanalyzerField::VersionCode => metadata.version_code = Some(first),
                ApkanalyzerField::MinSdk => metadata.minimum_os_version = Some(first),
                _ => metadata.target_sdk_version = Some(first),
            }
        },
    }
    true
}

/// Each line trimmed.
pub open spec fn trimmed_all(ls: Seq<Seq<char>>) -> Seq<Seq<char>> {
    ls.map_values(|l: Seq<char>| text::trim(l))
}

/// The metadata views are equal.
pub open spec fn meta_view_eq(a: PackageMetadata, b: PackageMetadata) -> bool {
    &&& text::opt_view(a.package_name) == text::opt_view(b.package_name)
    &&& text::opt_view(a.display_name) == text::opt_view(b.display_name)
    &&& text::opt_view(a.version_name) == text::opt_view(b.version_name)
    &&& text::opt_view(a.version_code) == text::opt_view(b.version_code)
    &&& text::opt_view(a.minimum_os_version) == text::opt_view(b.minimum_os_version)
    &&& text::opt_view(a.target_sdk_version) == text::opt_view(b.target_sdk_version)
    &&& text::string_views(a.permissions@) == text::string_views(b.permissions@)
    &&& text::string_views(a.icon_hints@) == text::string_views(b.icon_hints@)
}

proof fn lemma_split_shape(s: Seq<char>, sep: char, cur: Seq<char>)
    requires
        cur.len() > 0 || s.len() > 0,
    ensures
        text::split_acc(s, sep, cur).len() >= 2 || text::split_acc(s, sep, cur).last().len() > 0,
    decreases s.len(),
{
    if s.len() > 0 {
        if s[0] == sep {
            text::lemma_split_acc_nonempty(s.drop_first(), sep, Seq::empty());
        } else {
            lemma_split_shape(s.drop_first(), sep, cur.push(s[0]));
        }
    }
}

proof fn lemma_lines_nonempty(t: Seq<char>)
    requires
        t.len() > 0,
    ensures
        text::lines(t).len() > 0,
{
    lemma_split_shape(t, '\n', Seq::empty());
    text::lemma_split_acc_nonempty(t, '\n', Seq::empty());
}

/// The application label of a printed manifest: the first `android:label`
/// that is not a resource reference.
pub open spec fn manifest_label(ls: Seq<Seq<char>>) -> Option<Seq<char>>
    decreases ls.len(),
{
    if ls.len() == 0 {
        None
    } else {
        match packages::xml_attr(ls[0], "android:label"@) {
            Some(v) => if !text::starts_with(v, "@"@) {
                Some(v)
            } else {
                manifest_label(ls.drop_first())
            },
            None => manifest_label(ls.drop_first()),
        }
    }
}

pub fn apkanalyzer_label(stdout: &str) -> (r: Option<String>)
    ensures
        text::opt_view(r) == manifest_label(text::lines(stdout@)),
{
    let ls = text::lines_of(stdout);
    let ghost lv = text::views(ls@);
    let mut i: usize = 0;
    assert(lv.skip(0) =~= lv);
    while i < ls.len()
        invariant
            i <= ls@.len(),
            lv == text::views(ls@),
            lv.len() == ls@.len(),
            lv == text::lines(stdout@),
            manifest_label(lv) == manifest_label(lv.skip(i as int)),
        decreases ls@.len() - i,
    {
        assert(lv.skip(i as int)[0] == ls@[i as int]@);
        assert(lv.skip(i as int).drop_first() =~= lv.skip(i + 1));
        let line = text::string_of(&ls[i]);
        match packages::xml_attribute(line.as_str(), "android:label") {
            Some(v) => {
                let vv = text::chars_of(v.as_str());
                if !text::starts_with_str(&vv, "@") {
                    return Some(v);
                }
            },
            None => {},
        }
        i = i + 1;
    }
    None
}

/// Where the APK metadata came from.
#[derive(Debug, Clone, Copy, PartialEq, Eq, Structural)]
pub enum ApkSource {
    ZipFallback,
    Aapt2,
    Apkanalyzer,
    Aapt2Apkanalyzer,
}

pub open spec fn source_text(s: ApkSource) -> Seq<char> {
    match s {
        ApkSource::ZipFallback => "zipFallback"@,
        ApkSource::Aapt2 => "aapt2"@,
        ApkSource::Apkanalyzer => "apkanalyzer"@,
        ApkSource::Aapt2Apkanalyzer => "aapt2+apkanalyzer"@,
    }
}

impl ApkSource {
    pub fn as_str(self) -> (r: &'static str)
        ensures
            r@ == source_text(self),
    {
        match self {
            ApkSource::ZipFallback => "zipFallback",
            ApkSource::Aapt2 => "aapt2",
            ApkSource::Apkanalyzer => "apkanalyzer",
            ApkSource::Aapt2Apkanalyzer => "aapt2+apkanalyzer",
        }
    }
}

/// How the `aapt2 dump badging` step went.
#[derive(Debug, Clone)]
pub enum AaptOutcome {
    /// aapt2 could not be resolved.
    Missing,
    /// aapt2 could not be run.
    Failed(String),
    /// aapt2 ran.
    Finished(ProcessOutput),
}

/// The first analyzer step: reads aapt2's badging when it exited 0 in time,
/// and reports what went wrong otherwise. Returns whether aapt2 gave usable
/// metadata (a package name, a version name or a permission).
pub fn apply_aapt(outcome: AaptOutcome, metadata: &mut PackageMetadata, warnings: &mut Vec<String>) -> (r: bool)
    requires
        text::sorted_set(text::string_views(old(metadata).permissions@)),
    ensures
        text::sorted_set(text::string_views(final(metadata).permissions@)),
        match outcome {
            AaptOutcome::Missing => !r && meta_view_eq(*final(metadata), *old(metadata))
                && text::string_views(final(warnings)@) == text::string_views(old(warnings)@).push(
                "aapt2 was not found; trying apkanalyzer"@,
            ),
            AaptOutcome::Failed(m) => !r && meta_view_eq(*final(metadata), *old(metadata))
                && text::string_views(final(warnings)@) == text::string_views(old(warnings)@).push(
                "aapt2 failed: "@ + m@,
            ),
            AaptOutcome::Finished(o) => if o.exit_code == Some(0i32) && !o.timed_out {
                &&& packages::meta_view(*final(metadata)) == packages::badging(
                    packages::meta_view(*old(metadata)),
                    text::lines(o.stdout@),
                )
                &&& r == (final(metadata).package_name is Some || final(metadata).version_name is Some
                    || final(metadata).permissions@.len() > 0)
                &&& text::string_views(final(warnings)@) == text::string_views(old(warnings)@) + (if r {
                    Seq::empty()
                } else {
                    seq!["aapt2 returned no usable package metadata"@]
                }) + (if o.truncated {
                    seq!["aapt2 output was truncated at the Mobius capture limit"@]
                } else {
                    Seq::empty()
                })
            } else {
                !r && meta_view_eq(*final(metadata), *old(metadata)) && text::string_views(final(warnings)@)
                    == text::string_views(old(warnings)@).push(
                    "aapt2 could not parse this APK (status "@ + text::debug_status(o.exit_code)
                        + ", timedOut="@ + text::bool_text(o.timed_out) + ")"@,
                )
            },
        },
{
    let ghost w0 = text::string_views(warnings@);
    match outcome {
        AaptOutcome::Missing => {
            text::push_str(warnings, "aapt2 was not found; trying apkanalyzer");
            false
        },
        AaptOutcome::Failed(m) => {
            text::push_string(warnings, text::concat_strs("aapt2 failed: ", m.as_str()));
            false
        },
        AaptOutcome::Finished(o) => {
            let ok = match o.exit_code {
                Some(c) => c == 0,
                None => false,
            };
            if ok && !o.timed_out {
                packages::parse_aapt_badging(o.stdout.as_str(), metadata);
                let usable = metadata.package_name.is_some() || metadata.version_name.is_some()
                    || metadata.permissions.len() > 0;
                if !usable {
                    text::push_str(warnings, "aapt2 returned no usable package metadata");
                }
                let ghost w1 = text::string_views(warnings@);
                if o.truncated {
                    text::push_str(warnings, "aapt2 output was truncated at the Mobius capture limit");
                }
                assert(text::string_views(warnings@) =~= w0 + (if usable {
                    Seq::empty()
                } else {
                    seq!["aapt2 returned no usable package metadata"@]
                }) + (if o.truncated {
                    seq!["aapt2 output was truncated at the Mobius capture limit"@]
                } else {
                    Seq::empty()
                }));
                usable
            } else {
                let mut m = text::chars_of("aapt2 could not parse this APK (status ");
                text::append_str(&mut m, text::debug_status_string(o.exit_code).as_str());
                text::append_str(&mut m, ", timedOut=");
                text::append_str(&mut m, text::bool_string(o.timed_out).as_str());
                text::append_str(&mut m, ")");
                text::push_string(warnings, text::string_of(&m));
                false
            }
        },
    }
}

/// apkanalyzer is asked when the package name or label is still unknown.
pub fn needs_apkanalyzer(metadata: &PackageMetadata) -> (r: bool)
    ensures
        r == (metadata.package_name is None || metadata.display_name is None),
{
    metadata.package_name.is_none() || metadata.display_name.is_none()
}

/// The source after the apkanalyzer step (`None` when it was not needed):
/// usable apkanalyzer metadata adds apkanalyzer to the source; otherwise
/// its failure is a warning. Returns the source and whether any analyzer
/// gave metadata.
pub fn apply_apkanalyzer(
    aapt_parsed: bool,
    analyzer: Option<Result<bool, String>>,
    warnings: &mut Vec<String>,
) -> (r: (ApkSource, bool))
    ensures
        match analyzer {
            Some(Ok(true)) => r == (if aapt_parsed {
                (ApkSource::Aapt2Apkanalyzer, true)
            } else {
                (ApkSource::Apkanalyzer, true)
            }) && text::string_views(final(warnings)@) == text::string_views(old(warnings)@),
            Some(Ok(false)) => r == (if aapt_parsed {
                (ApkSource::Aapt2, true)
            } else {
                (ApkSource::ZipFallback, false)
            }) && text::string_views(final(warnings)@) == text::string_views(old(warnings)@).push(
                "apkanalyzer returned no usable manifest metadata"@,
            ),
            Some(Err(m)) => r == (if aapt_parsed {
                (ApkSource::Aapt2, true)
            } else {
                (ApkSource::ZipFallback, false)
            }) && text::string_views(final(warnings)@) == text::string_views(old(warnings)@).push(m@),
            None => r == (if aapt_parsed {
                (ApkSource::Aapt2, true)
            } else {
                (ApkSource::ZipFallback, false)
            }) && text::string_views(final(warnings)@) == text::string_views(old(warnings)@),
        },
{
    let base = if aapt_parsed {
        (ApkSource::Aapt2, true)
    } else {
        (ApkSource::ZipFallback, false)
    };
    match analyzer {
        Some(Ok(true)) => {
            if aapt_parsed {
                (ApkSource::Aapt2Apkanalyzer, true)
            } else {
                (ApkSource::Apkanalyzer, true)
            }
        },
        Some(Ok(false)) => {
            text::push_str(warnings, "apkanalyzer returned no usable manifest metadata");
            base
        },
        Some(Err(m)) => {
            text::push_string(warnings, m);
            base
        },
        None => base,
    }
}

/// The closing warnings of an APK analysis: no analyzer succeeded, the
/// package identifier is unknown, the label is unknown.
pub fn finish_apk_warnings(parsed: bool, metadata: &PackageMetadata, warnings: &mut Vec<String>)
    ensures
        text::string_views(final(warnings)@) == text::string_views(old(warnings)@) + (if parsed {
            Seq::empty()
        } else {
            seq![
                "Manifest metadata is unavailable because AndroidManifest.xml is binary and no compatible Android analyzer succeeded"@,
            ]
        }) + (if metadata.package_name is None {
            seq!["Android package identifier could not be resolved"@]
        } else {
            Seq::empty()
        }) + (if metadata.display_name is None {
            seq!["Application label could not be resolved (it may only exist as a compiled resource)"@]
        } else {
            Seq::empty()
        }),
{
    let ghost w0 = text::string_views(warnings@);
    if !parsed {
        text::push_str(
            warnings,
            "Manifest metadata is unavailable because AndroidManifest.xml is binary and no compatible Android analyzer succeeded",
        );
    }
    let ghost w1 = text::string_views(warnings@);
    if metadata.package_name.is_none() {
        text::push_str(warnings, "Android package identifier could not be resolved");
    }
    let ghost w2 = text::string_views(warnings@);
    if metadata.display_name.is_none() {
        text::push_str(warnings, "Application label could not be resolved (it may only exist as a compiled resource)");
    }
    assert(text::string_views(warnings@) =~= w0 + (if parsed {
        Seq::empty()
    } else {
        seq![
            "Manifest metadata is unavailable because AndroidManifest.xml is binary and no compatible Android analyzer succeeded"@,
        ]
    }) + (if metadata.package_name is None {
        seq!["Android package identifier could not be resolved"@]
    } else {
        Seq::empty()
    }) + (if metadata.display_name is None {
        seq!["Application label could not be resolved (it may only exist as a compiled resource)"@]
    } else {
        Seq::empty()
    }));
}

} // verus!
