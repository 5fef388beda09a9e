//! The function matcher: scans the candidate module's functions, derives
//! each one's reference-side counterpart name by the naming convention, and
//! yields the pairs whose counterpart exists in the reference module.
//!
//! The matcher never fails: a symbol that does not demangle, a path that
//! does not parse or is not path-public, a first segment other than the
//! new-side marker, or a missing counterpart each make the candidate be
//! skipped, silently.

use vstd::prelude::*;

use crate::names::demangled_of;
use crate::names::is_mangled;
use crate::names::old_name_for;
use crate::names::reference_name_of;
use crate::names::try_demangle_no_hash;
use crate::program::FuncDeclView;
use crate::program::Module;
use crate::program::lemma_lookup_spec_characterisation;
use crate::program::lookup_spec;
use crate::program::name_matches;

verus! {

/// A correlated pair of function names: the reference-side name derived by
/// the naming convention, and the candidate's demangled path, under which
/// both sides are analysed further.
pub struct MatchedPair {
    pub old_name: Vec<u8>,
    pub new_name: Vec<u8>,
}

/// Specification-level form of [`MatchedPair`].
pub struct MatchedPairView {
    pub old_name: Seq<u8>,
    pub new_name: Seq<u8>,
}

impl View for MatchedPair {
    type V = MatchedPairView;

    open spec fn view(&self) -> MatchedPairView {
        MatchedPairView { old_name: self.old_name@, new_name: self.new_name@ }
    }
}

/// The views of a list of matched pairs, in order.
pub open spec fn pairs_view(v: Seq<MatchedPair>) -> Seq<MatchedPairView> {
    v.map_values(|p: MatchedPair| p@)
}

/// The pair owed to one candidate symbol, if any: the symbol must
/// demangle, the demangled path must rewrite under the naming convention,
/// and the rewritten name must resolve in the reference module.
pub open spec fn candidate_pair(
    old_module: Seq<FuncDeclView>,
    symbol: Seq<u8>,
) -> Option<MatchedPairView> {
    if !is_mangled(symbol) {
        None
    } else {
        match reference_name_of(demangled_of(symbol)) {
            None => None,
            Some(oldfn_name) => {
                if lookup_spec(old_module, oldfn_name) is Some {
                    Some(
                        MatchedPairView {
                            old_name: oldfn_name,
                            new_name: demangled_of(symbol),
                        },
                    )
                } else {
                    None
                }
            },
        }
    }
}

/// The pairs owed to a candidate module: one per function whose symbol
/// yields a candidate pair, in the module's order.
pub open spec fn matched_pairs_spec(
    old_module: Seq<FuncDeclView>,
    fns: Seq<FuncDeclView>,
) -> Seq<MatchedPairView>
    decreases fns.len(),
{
    if fns.len() == 0 {
        Seq::empty()
    } else {
        matched_pairs_spec(old_module, fns.drop_last()) + (match candidate_pair(
            old_module,
            fns.last().name,
        ) {
            Some(p) => seq![p],
            None => Seq::empty(),
        })
    }
}

/// Scans the candidate module and returns the matched pairs, as
/// `matched_pairs_spec` says. Anomalies degrade to a skip; this function
/// cannot fail.
#[verifier::loop_isolation(false)]
pub fn matched_pairs(old_module: &Module, new_module: &Module) -> (pairs: Vec<MatchedPair>)
    ensures
        pairs_view(pairs@) == matched_pairs_spec(old_module@, new_module@),
{
    let mut pairs: Vec<MatchedPair> = Vec::new();
    proof {
        assert(new_module@.take(0) =~= Seq::<FuncDeclView>::empty());
        assert(pairs_view(pairs@) =~= Seq::<MatchedPairView>::empty());
    }
    let mut i: usize = 0;
    while i < new_module.fns.len()
        invariant
            i <= new_module@.len(),
            pairs_view(pairs@) == matched_pairs_spec(old_module@, new_module@.take(i as int)),
        decreases new_module@.len() - i,
    {
        proof {
            assert(new_module@.take(i as int + 1).drop_last() =~= new_module@.take(i as int));
            assert(new_module@.take(i as int + 1).last() == new_module@[i as int]);
        }
        let symbol: &Vec<u8> = &new_module.fns[i].name;
        match try_demangle_no_hash(symbol) {
            None => (),
            Some(demangled) => {
                match old_name_for(&demangled) {
                    None => (),
                    Some(oldfn_name) => {
                        match old_module.lookup(&oldfn_name) {
                            None => (),
                            Some(_) => {
                                let ghost prior = pairs_view(pairs@);
                                let pair = MatchedPair {
                                    old_name: oldfn_name,
                                    new_name: demangled,
                                };
                                let ghost pv = pair@;
                                pairs.push(pair);
                                proof {
                                    assert(pairs_view(pairs@) =~= prior + seq![pv]);
                                }
                            },
                        }
                    },
                }
            },
        }
        i += 1;
    }
    proof {
        assert(new_module@.take(new_module@.len() as int) =~= new_module@);
    }
    pairs
}

/// Every emitted pair is owed to some candidate function of the new
/// module: its symbol demangles, the naming convention rewrites its
/// demangled path into the pair's reference name, that name resolves in the
/// reference module, and the pair's candidate name resolves in the new
/// module. In particular a candidate that is not path-public, or whose
/// rewritten name has no counterpart, is never emitted.
pub proof fn lemma_emitted_pair_is_a_candidate(
    old_module: Seq<FuncDeclView>,
    fns: Seq<FuncDeclView>,
    pair: MatchedPairView,
)
    requires
        matched_pairs_spec(old_module, fns).contains(pair),
    ensures
        exists|j: int|
            0 <= j < fns.len() && #[trigger] is_mangled(fns[j].name) && pair.new_name
                == demangled_of(fns[j].name),
        reference_name_of(pair.new_name) == Some(pair.old_name),
        lookup_spec(old_module, pair.old_name) is Some,
        lookup_spec(fns, pair.new_name) is Some,
    decreases fns.len(),
{
    if fns.len() == 0 {
    } else {
        let full = matched_pairs_spec(old_module, fns);
        let prefix = matched_pairs_spec(old_module, fns.drop_last());
        if prefix.contains(pair) {
            lemma_emitted_pair_is_a_candidate(old_module, fns.drop_last(), pair);
            let j = choose|j: int|
                0 <= j < fns.drop_last().len() && #[trigger] is_mangled(fns.drop_last()[j].name)
                    && pair.new_name == demangled_of(fns.drop_last()[j].name);
            assert(fns[j] == fns.drop_last()[j]);
            assert(0 <= j < fns.len() && is_mangled(fns[j].name)
                && pair.new_name == demangled_of(fns[j].name));
            lemma_lookup_spec_characterisation(fns, pair.new_name);
            if lookup_spec(fns, pair.new_name) is None {
                assert(!name_matches(fns[j], pair.new_name));
            }
        } else {
            let k = choose|k: int| 0 <= k < full.len() && full[k] == pair;
            match candidate_pair(old_module, fns.last().name) {
                None => {
                    assert(prefix + Seq::<MatchedPairView>::empty() =~= prefix);
                    assert(prefix[k] == pair);
                    assert(false);
                },
                Some(p) => {
                    assert(full == prefix + seq![p]);
                    if k < prefix.len() {
                        assert(prefix[k] == pair);
                        assert(false);
                    }
                    assert(pair == p);
                    let j = fns.len() - 1;
                    assert(fns.last() == fns[j]);
                    assert(candidate_pair(old_module, fns[j].name) == Some(pair));
                    assert(0 <= j < fns.len() && is_mangled(fns[j].name)
                        && pair.new_name == demangled_of(fns[j].name));
                    lemma_lookup_spec_characterisation(fns, pair.new_name);
                    if lookup_spec(fns, pair.new_name) is None {
                        assert(!name_matches(fns[j], pair.new_name));
                    }
                },
            }
        }
    }
}

} // verus!
