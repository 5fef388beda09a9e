//! Symbol names and the naming convention that correlates candidate
//! functions with their reference counterparts.
//!
//! A candidate function is considered only if its symbol demangles into a
//! structured path that is path-public (no leading path separator) and whose
//! first segment is the designated new-side marker. Its reference counterpart
//! is named by the same path with the leading marker swapped for the old-side
//! marker, byte for byte.

use vstd::prelude::*;

use crate::bytes::bytes_eq;

verus! {

/// What `rustc_demangle::demangle` renders, without the trailing hash
/// segment, for a given symbol. The rendering depends on the symbol alone.
pub uninterp spec fn demangled_of(name: Seq<u8>) -> Seq<u8>;

/// What `rustc_demangle::demangle` renders, hash segment included, for a
/// given symbol. The rendering depends on the symbol alone.
pub uninterp spec fn demangled_full_of(name: Seq<u8>) -> Seq<u8>;

/// Whether `rustc_demangle::try_demangle` recognises the symbol as mangled.
/// The answer depends on the symbol alone.
pub uninterp spec fn is_mangled(name: Seq<u8>) -> bool;

/// What `syn` parses a rendered path into, reduced to what the matcher
/// reads: whether the path opens with a leading separator, and the plain
/// identifier of each segment, in order. `None` when the text is no path.
/// The answer depends on the text alone.
pub uninterp spec fn parsed_path_of(text: Seq<u8>) -> Option<(bool, Seq<Seq<u8>>)>;

/// Relies on `rustc_demangle::demangle` and the alternate `Display` of
/// `Demangle`: the demangled path without its trailing hash segment, or the
/// input itself where the symbol is not mangled.
#[verifier::external_body]
pub(crate) fn demangle_no_hash(name: &Vec<u8>) -> (r: Vec<u8>)
    ensures
        r@ == demangled_of(name@),
{
    let text = String::from_utf8_lossy(name).into_owned();
    format!("{:#}", rustc_demangle::demangle(&text)).into_bytes()
}

/// Relies on `rustc_demangle::demangle` and the plain `Display` of
/// `Demangle`: the demangled path with its trailing hash segment, or the
/// input itself where the symbol is not mangled.
#[verifier::external_body]
pub(crate) fn demangle_full(name: &Vec<u8>) -> (r: Vec<u8>)
    ensures
        r@ == demangled_full_of(name@),
{
    let text = String::from_utf8_lossy(name).into_owned();
    format!("{}", rustc_demangle::demangle(&text)).into_bytes()
}

/// Relies on `rustc_demangle::try_demangle`: it recognises exactly the
/// mangled symbols, and returns the same demangling as
/// `rustc_demangle::demangle`, here rendered without the hash segment.
#[verifier::external_body]
pub(crate) fn try_demangle_no_hash(name: &Vec<u8>) -> (r: Option<Vec<u8>>)
    ensures
        match r {
            Some(d) => is_mangled(name@) && d@ == demangled_of(name@),
            None => !is_mangled(name@),
        },
{
    let text = String::from_utf8_lossy(name).into_owned();
    match rustc_demangle::try_demangle(&text) {
        Ok(d) => Some(format!("{:#}", d).into_bytes()),
        Err(_) => None,
    }
}

/// Relies on `syn::parse_str::<syn::Path>`: whether the text parses as a
/// path, whether that path has a leading separator, and each segment's
/// identifier.
#[verifier::external_body]
pub(crate) fn parse_path(text: &Vec<u8>) -> (r: Option<(bool, Vec<Vec<u8>>)>)
    ensures
        match r {
            Some(p) => parsed_path_of(text@) == Some((p.0, p.1.deep_view())),
            None => parsed_path_of(text@) is None,
        },
{
    let text = String::from_utf8_lossy(text).into_owned();
    match syn::parse_str::<syn::Path>(&text) {
        Ok(path) => {
            let absolute = path.leading_colon.is_some();
            let segments: Vec<Vec<u8>> = path
                .segments
                .iter()
                .map(|s| format!("{}", s.ident).into_bytes())
                .collect();
            Some((absolute, segments))
        },
        Err(_) => None,
    }
}

/// The leading path segment that designates candidate (new-side) code.
pub open spec fn new_marker() -> Seq<u8> {
    seq![110u8, 101u8, 119u8]  // the bytes of "new"
}

/// The leading path segment that designates reference (old-side) code.
pub open spec fn old_marker() -> Seq<u8> {
    seq![111u8, 108u8, 100u8]  // the bytes of "old"
}

/// Builds the new-side marker as a byte vector.
pub fn new_marker_bytes() -> (r: Vec<u8>)
    ensures
        r@ == new_marker(),
{
    let mut v: Vec<u8> = Vec::new();
    v.push(110u8);
    v.push(101u8);
    v.push(119u8);
    assert(v@ =~= new_marker());
    v
}

/// Builds the old-side marker as a byte vector.
pub fn old_marker_bytes() -> (r: Vec<u8>)
    ensures
        r@ == old_marker(),
{
    let mut v: Vec<u8> = Vec::new();
    v.push(111u8);
    v.push(108u8);
    v.push(100u8);
    assert(v@ =~= old_marker());
    v
}

/// The reference-side name owed to a demangled candidate path, if any: the
/// path must parse, must not open with a leading separator, and its first
/// segment must be the new-side marker; the reference name is then the same
/// text with the leading marker bytes swapped for the old-side marker.
pub open spec fn reference_name_of(text: Seq<u8>) -> Option<Seq<u8>> {
    match parsed_path_of(text) {
        None => None,
        Some(p) => {
            if p.0 {
                None
            } else if !(p.1.len() > 0 && p.1[0] == new_marker()) {
                None
            } else if text.len() < new_marker().len() {
                None
            } else {
                Some(old_marker() + text.skip(new_marker().len() as int))
            }
        },
    }
}

/// The naming-convention strategy: maps a demangled candidate path to the
/// reference-side name it is expected under, or `None` where the candidate
/// is not eligible (unparsable, not path-public, or not new-side).
pub fn old_name_for(text: &Vec<u8>) -> (r: Option<Vec<u8>>)
    ensures
        match r {
            Some(v) => reference_name_of(text@) == Some(v@),
            None => reference_name_of(text@) is None,
        },
{
    let parsed = parse_path(text);
    match parsed {
        None => None,
        Some((absolute, segments)) => {
            if absolute {
                return None;
            }
            if segments.len() == 0 {
                return None;
            }
            let marker = new_marker_bytes();
            if !bytes_eq(&segments[0], &marker) {
                assert(segments.deep_view()[0] == segments[0]@);
                return None;
            }
            assert(segments.deep_view()[0] == segments[0]@);
            if text.len() < 3 {
                return None;
            }
            let mut result = old_marker_bytes();
            let mut i: usize = 3;
            while i < text.len()
                invariant
                    3 <= i <= text@.len(),
                    result@ == old_marker() + text@.subrange(3, i as int),
                decreases text@.len() - i,
            {
                result.push(text[i]);
                assert(result@ =~= old_marker() + text@.subrange(3, i as int + 1));
                i += 1;
            }
            assert(text@.subrange(3, text@.len() as int) =~= text@.skip(3));
            Some(result)
        },
    }
}

} // verus!
