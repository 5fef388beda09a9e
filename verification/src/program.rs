//! The library's model of one loaded, compiled artifact: an immutable
//! collection of function declarations, each carrying the structural type
//! descriptors of its parameters and the width of its return type.

use vstd::prelude::*;

use crate::bytes::bytes_eq;
use crate::names::demangle_full;
use crate::names::demangle_no_hash;
use crate::names::demangled_full_of;
use crate::names::demangled_of;

verus! {

/// The structural descriptor of one parameter type: a canonical rendering,
/// compared byte for byte and never coerced.
pub struct TypeDesc {
    pub repr: Vec<u8>,
}

impl View for TypeDesc {
    type V = Seq<u8>;

    open spec fn view(&self) -> Seq<u8> {
        self.repr@
    }
}

/// A function's return type, reduced to what the checker reads of it.
pub enum RetType {
    /// The function returns no value.
    Void,
    /// The function returns a value of this width in bits.
    Sized { bits: u32 },
    /// The return type is opaque: no width is known for it.
    Opaque,
}

/// One function of a module: its symbol name, its parameter type
/// descriptors in order, and its return type.
pub struct FuncDecl {
    pub name: Vec<u8>,
    pub params: Vec<TypeDesc>,
    pub ret: RetType,
}

/// Specification-level form of [`FuncDecl`].
pub struct FuncDeclView {
    pub name: Seq<u8>,
    pub params: Seq<Seq<u8>>,
    pub ret: RetType,
}

impl View for FuncDecl {
    type V = FuncDeclView;

    open spec fn view(&self) -> FuncDeclView {
        FuncDeclView {
            name: self.name@,
            params: self.params@.map_values(|t: TypeDesc| t@),
            ret: self.ret,
        }
    }
}

/// An immutable collection of functions loaded from one compiled artifact.
pub struct Module {
    pub fns: Vec<FuncDecl>,
}

impl View for Module {
    type V = Seq<FuncDeclView>;

    open spec fn view(&self) -> Seq<FuncDeclView> {
        self.fns@.map_values(|f: FuncDecl| f@)
    }
}

/// Whether a declared function answers to a queried name: by its symbol as
/// it stands, by its full demangled form, or by its demangled form without
/// the trailing hash segment.
pub open spec fn name_matches(f: FuncDeclView, query: Seq<u8>) -> bool {
    ||| f.name == query
    ||| demangled_full_of(f.name) == query
    ||| demangled_of(f.name) == query
}

/// The first function that answers to the queried name, if any.
pub open spec fn lookup_spec(fns: Seq<FuncDeclView>, query: Seq<u8>) -> Option<int>
    decreases fns.len(),
{
    if fns.len() == 0 {
        None
    } else if name_matches(fns[0], query) {
        Some(0)
    } else {
        match lookup_spec(fns.drop_first(), query) {
            Some(i) => Some(i + 1),
            None => None,
        }
    }
}

/// What `lookup_spec` answers, spelled out: the index it returns is in
/// range, its function answers to the query, and no earlier one does; and it
/// returns `None` exactly when no function answers at all.
pub proof fn lemma_lookup_spec_characterisation(fns: Seq<FuncDeclView>, query: Seq<u8>)
    ensures
        match lookup_spec(fns, query) {
            Some(i) => {
                &&& 0 <= i < fns.len()
                &&& name_matches(fns[i], query)
                &&& forall|j: int| 0 <= j < i ==> !name_matches(fns[j], query)
            },
            None => forall|j: int| 0 <= j < fns.len() ==> !name_matches(fns[j], query),
        },
    decreases fns.len(),
{
    if fns.len() == 0 {
    } else if name_matches(fns[0], query) {
    } else {
        lemma_lookup_spec_characterisation(fns.drop_first(), query);
        assert(forall|j: int| 0 < j < fns.len() ==> fns[j] == fns.drop_first()[j - 1]);
    }
}

/// The index at which the first match sits determines `lookup_spec`'s
/// answer.
pub proof fn lemma_lookup_spec_first_match(fns: Seq<FuncDeclView>, query: Seq<u8>, i: int)
    requires
        0 <= i < fns.len(),
        name_matches(fns[i], query),
        forall|j: int| 0 <= j < i ==> !name_matches(fns[j], query),
    ensures
        lookup_spec(fns, query) == Some(i),
{
    lemma_lookup_spec_characterisation(fns, query);
    match lookup_spec(fns, query) {
        Some(k) => {
            if k < i {
                assert(!name_matches(fns[k], query));
            } else if k > i {
                assert(!name_matches(fns[i], query));
            }
        },
        None => {
            assert(!name_matches(fns[i], query));
        },
    }
}

impl Module {
    /// Whether this declared function answers to the queried name.
    fn decl_matches(f: &FuncDecl, query: &Vec<u8>) -> (r: bool)
        ensures
            r == name_matches(f@, query@),
    {
        if bytes_eq(&f.name, query) {
            return true;
        }
        let full = demangle_full(&f.name);
        if bytes_eq(&full, query) {
            return true;
        }
        let no_hash = demangle_no_hash(&f.name);
        bytes_eq(&no_hash, query)
    }

    /// Searches the module for a function answering to the given name,
    /// mangled or demangled, and returns its index.
    pub fn lookup(&self, query: &Vec<u8>) -> (r: Option<usize>)
        ensures
            match r {
                Some(i) => i < self.fns@.len() && lookup_spec(self@, query@) == Some(i as int),
                None => lookup_spec(self@, query@) is None,
            },
    {
        let mut i: usize = 0;
        while i < self.fns.len()
            invariant
                i <= self.fns.len(),
                self@.len() == self.fns.len(),
                forall|j: int| 0 <= j < i ==> !name_matches(self@[j], query@),
            decreases self.fns.len() - i,
        {
            if Self::decl_matches(&self.fns[i], query) {
                proof {
                    lemma_lookup_spec_first_match(self@, query@, i as int);
                }
                return Some(i);
            }
            i += 1;
        }
        proof {
            lemma_lookup_spec_characterisation(self@, query@);
            match lookup_spec(self@, query@) {
                Some(k) => assert(!name_matches(self@[k], query@)),
                None => (),
            }
        }
        None
    }
}

} // verus!
