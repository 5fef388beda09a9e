//! The function matcher and the name lookup, exercised with real mangled
//! symbols.

use eqcheck::matcher::matched_pairs;
use eqcheck::names::old_name_for;
use eqcheck::program::{FuncDecl, Module, RetType, TypeDesc};

fn decl(name: &str, params: &[&str], ret: RetType) -> FuncDecl {
    FuncDecl {
        name: name.as_bytes().to_vec(),
        params: params
            .iter()
            .map(|p| TypeDesc { repr: p.as_bytes().to_vec() })
            .collect(),
        ret,
    }
}

fn u8_fn(name: &str) -> FuncDecl {
    decl(name, &["i8"], RetType::Sized { bits: 8 })
}

#[test]
fn matcher_pairs_mangled_counterparts() {
    let old_module = Module { fns: vec![u8_fn("_ZN3old3foo17h1111111111111111E")] };
    let new_module = Module { fns: vec![u8_fn("_ZN3new3foo17h2222222222222222E")] };
    let pairs = matched_pairs(&old_module, &new_module);
    assert_eq!(pairs.len(), 1);
    assert_eq!(pairs[0].old_name, b"old::foo".to_vec());
    assert_eq!(pairs[0].new_name, b"new::foo".to_vec());
}

#[test]
fn matcher_pairs_nested_path() {
    let old_module = Module { fns: vec![u8_fn("_ZN3old6nested3bar17h1111111111111111E")] };
    let new_module = Module { fns: vec![u8_fn("_ZN3new6nested3bar17h2222222222222222E")] };
    let pairs = matched_pairs(&old_module, &new_module);
    assert_eq!(pairs.len(), 1);
    assert_eq!(pairs[0].old_name, b"old::nested::bar".to_vec());
    assert_eq!(pairs[0].new_name, b"new::nested::bar".to_vec());
}

#[test]
fn matcher_skips_candidate_without_counterpart() {
    // The rewritten reference name has no counterpart: skipped, not an error.
    let old_module = Module { fns: vec![u8_fn("_ZN3old3foo17h1111111111111111E")] };
    let new_module = Module { fns: vec![u8_fn("_ZN3new3baz17h2222222222222222E")] };
    let pairs = matched_pairs(&old_module, &new_module);
    assert_eq!(pairs.len(), 0);
}

#[test]
fn matcher_skips_unmangled_symbol() {
    let old_module = Module { fns: vec![u8_fn("_ZN3old3foo17h1111111111111111E")] };
    let new_module = Module { fns: vec![u8_fn("memcpy")] };
    let pairs = matched_pairs(&old_module, &new_module);
    assert_eq!(pairs.len(), 0);
}

#[test]
fn matcher_skips_old_side_symbol() {
    // A symbol whose leading segment is not the new-side marker.
    let old_module = Module { fns: vec![u8_fn("_ZN3old3foo17h1111111111111111E")] };
    let new_module = Module { fns: vec![u8_fn("_ZN3old3foo17h3333333333333333E")] };
    let pairs = matched_pairs(&old_module, &new_module);
    assert_eq!(pairs.len(), 0);
}

#[test]
fn matcher_skips_closure_symbol() {
    // "new::foo::{{closure}}" is no plain path, so the candidate is skipped.
    let old_module = Module { fns: vec![u8_fn("_ZN3old3foo17h1111111111111111E")] };
    let new_module = Module {
        fns: vec![u8_fn("_ZN3new3foo28_$u7b$$u7b$closure$u7d$$u7d$17h4444444444444444E")],
    };
    let pairs = matched_pairs(&old_module, &new_module);
    assert_eq!(pairs.len(), 0);
}

#[test]
fn naming_convention_rewrites_public_new_path() {
    let rewritten = old_name_for(&b"new::foo".to_vec());
    assert_eq!(rewritten, Some(b"old::foo".to_vec()));
    let nested = old_name_for(&b"new::nested::bar".to_vec());
    assert_eq!(nested, Some(b"old::nested::bar".to_vec()));
}

#[test]
fn naming_convention_rejects_private_path() {
    // A leading path separator marks a non-path-public candidate.
    assert_eq!(old_name_for(&b"::new::foo".to_vec()), None);
}

#[test]
fn naming_convention_rejects_other_markers() {
    assert_eq!(old_name_for(&b"old::foo".to_vec()), None);
    assert_eq!(old_name_for(&b"newer::foo".to_vec()), None);
    assert_eq!(old_name_for(&b"not a path".to_vec()), None);
}

#[test]
fn lookup_answers_to_mangled_and_demangled_names() {
    let module = Module { fns: vec![u8_fn("_ZN3old3foo17h1111111111111111E")] };
    assert_eq!(module.lookup(&b"_ZN3old3foo17h1111111111111111E".to_vec()), Some(0));
    assert_eq!(module.lookup(&b"old::foo".to_vec()), Some(0));
    assert_eq!(module.lookup(&b"old::foo::h1111111111111111".to_vec()), Some(0));
    assert_eq!(module.lookup(&b"old::bar".to_vec()), None);
}
