//! String interning on top of `lasso::Rodeo`.

use vstd::prelude::*;
use lasso::Key;

verus! {

#[verifier::external_type_specification]
#[verifier::external_body]
#[verifier::reject_recursive_types(K)]
#[verifier::reject_recursive_types(S)]
pub struct ExRodeo<K, S>(lasso::Rodeo<K, S>);

#[verifier::external_type_specification]
#[verifier::external_body]
pub struct ExSpur(lasso::Spur);

/// The strings held by a `lasso::Rodeo`, in the order of their keys.
pub uninterp spec fn rodeo_strings(rodeo: lasso::Rodeo) -> Seq<Seq<char>>;

/// `lasso::Rodeo::new`: an interner that holds no string.
#[verifier::external_body]
fn rodeo_new() -> (r: lasso::Rodeo)
    ensures
        rodeo_strings(r) == Seq::<Seq<char>>::empty(),
{
    lasso::Rodeo::new()
}

/// `lasso::Rodeo::get_or_intern`, with the key turned into its index (`Key::into_usize`).
/// The source looks the string up first: a string already held keeps its key and nothing
/// changes; otherwise it is pushed at index `len` and that index becomes its key. The key
/// space of `Spur` holds `u32::MAX` strings; beyond that the call panics.
#[verifier::external_body]
fn rodeo_get_or_intern(rodeo: &mut lasso::Rodeo, s: &str) -> (k: usize)
    requires
        rodeo_strings(*old(rodeo)).contains(s@) || rodeo_strings(*old(rodeo)).len() < u32::MAX,
    ensures
        rodeo_strings(*old(rodeo)).contains(s@) ==> {
            &&& rodeo_strings(*final(rodeo)) == rodeo_strings(*old(rodeo))
            &&& k < rodeo_strings(*old(rodeo)).len()
            &&& rodeo_strings(*old(rodeo))[k as int] == s@
        },
        !rodeo_strings(*old(rodeo)).contains(s@) ==> {
            &&& rodeo_strings(*final(rodeo)) == rodeo_strings(*old(rodeo)).push(s@)
            &&& k == rodeo_strings(*old(rodeo)).len()
        },
{
    rodeo.get_or_intern(s).into_usize()
}

/// `lasso::Rodeo::resolve` of the key with index `k` (`Spur::try_from_usize`): the string
/// held at that index.
#[verifier::external_body]
fn rodeo_resolve(rodeo: &lasso::Rodeo, k: usize) -> (s: &str)
    requires
        k < rodeo_strings(*rodeo).len(),
        k < u32::MAX,
    ensures
        s@ == rodeo_strings(*rodeo)[k as int],
{
    rodeo.resolve(&lasso::Spur::try_from_usize(k).unwrap())
}

/// An interned string: the index of the string in its [`Interner`].
#[derive(Debug, Clone, Copy, PartialEq, Eq, Hash, Structural)]
pub struct Sym(pub usize);

/// Whether no string occurs twice in `s`.
pub open spec fn no_dups(s: Seq<Seq<char>>) -> bool {
    forall|i: int, j: int| 0 <= i < s.len() && 0 <= j < s.len() && i != j ==> s[i] != s[j]
}

/// The interner's contents after interning `s` into `strs`, and the symbol that `s` gets.
pub open spec fn intern_spec(strs: Seq<Seq<char>>, s: Seq<char>) -> (Seq<Seq<char>>, Sym) {
    if strs.contains(s) {
        (strs, Sym(strs.index_of(s) as usize))
    } else {
        (strs.push(s), Sym(strs.len() as usize))
    }
}

/// A string interner: each distinct string gets the symbol of its first interning.
pub struct Interner {
    rodeo: lasso::Rodeo,
}

impl View for Interner {
    type V = Seq<Seq<char>>;

    closed spec fn view(&self) -> Seq<Seq<char>> {
        rodeo_strings(self.rodeo)
    }
}

impl Interner {
    /// No string is held twice, and the number of strings fits a `u32`.
    pub closed spec fn wf(&self) -> bool {
        &&& no_dups(rodeo_strings(self.rodeo))
        &&& rodeo_strings(self.rodeo).len() <= u32::MAX
    }

    /// Whether the interner can still take `n` new strings.
    pub open spec fn has_room(&self, n: nat) -> bool {
        self@.len() + n <= u32::MAX
    }

    /// Whether `sym` names a string of this interner.
    pub open spec fn holds(&self, sym: Sym) -> bool {
        sym.0 < self@.len()
    }

    /// An empty interner.
    pub fn new() -> (r: Interner)
        ensures
            r@ == Seq::<Seq<char>>::empty(),
            r.wf(),
    {
        let r = Interner { rodeo: rodeo_new() };
        r
    }

    /// The symbol of `s`, interning it if it is new.
    pub fn intern(&mut self, s: &str) -> (sym: Sym)
        requires
            old(self).wf(),
            old(self)@.contains(s@) || old(self)@.len() < u32::MAX,
        ensures
            final(self).wf(),
            (final(self)@, sym) == intern_spec(old(self)@, s@),
    {
        let ghost before = self@;
        let k = rodeo_get_or_intern(&mut self.rodeo, s);
        proof {
            if before.contains(s@) {
                let j = before.index_of(s@);
                assert(before[j] == s@);
            } else {
                assert forall|i: int, j: int| 0 <= i < self@.len() && 0 <= j < self@.len() && i != j
                    implies self@[i] != self@[j] by {
                    if i < before.len() && j < before.len() {
                    } else if i == before.len() {
                        assert(self@[i] == s@);
                        assert(self@[j] == before[j]);
                    } else {
                        assert(self@[j] == s@);
                        assert(self@[i] == before[i]);
                    }
                }
            }
        }
        Sym(k)
    }

    /// The string that `sym` stands for.
    pub fn resolve(&self, sym: Sym) -> (s: &str)
        requires
            self.wf(),
            self.holds(sym),
        ensures
            s@ == self@[sym.0 as int],
    {
        rodeo_resolve(&self.rodeo, sym.0)
    }

    /// The number of interned strings.
    pub fn len(&self) -> (n: usize)
        ensures
            n == self@.len(),
    {
        rodeo_len(&self.rodeo)
    }
}

/// `lasso::Rodeo::len`: the number of strings held.
#[verifier::external_body]
fn rodeo_len(rodeo: &lasso::Rodeo) -> (n: usize)
    ensures
        n == rodeo_strings(*rodeo).len(),
{
    rodeo.len()
}

/// Interning a string gives a symbol that stands for it, keeps the strings distinct, and
/// interning the same string again gives the same symbol and changes nothing.
pub proof fn law_intern_idempotent(strs: Seq<Seq<char>>, s: Seq<char>)
    requires
        no_dups(strs),
        strs.len() <= u32::MAX,
    ensures
        intern_spec(strs, s).1.0 < intern_spec(strs, s).0.len(),
        intern_spec(strs, s).0[intern_spec(strs, s).1.0 as int] == s,
        no_dups(intern_spec(strs, s).0),
        intern_spec(intern_spec(strs, s).0, s) == intern_spec(strs, s),
{
    let (strs2, sym) = intern_spec(strs, s);
    if strs.contains(s) {
        let i = strs.index_of(s);
        assert(strs[i] == s);
    } else {
        assert(strs2[strs.len() as int] == s);
        assert(strs2.contains(s));
        let i = strs2.index_of(s);
        assert(strs2[i] == s);
        if i < strs.len() {
            assert(strs[i] == s);
        }
        assert forall|a: int, b: int| 0 <= a < strs2.len() && 0 <= b < strs2.len() && a != b
            implies strs2[a] != strs2[b] by {
            if a < strs.len() && b < strs.len() {
            } else if a == strs.len() {
                assert(strs2[b] == strs[b]);
            } else {
                assert(strs2[a] == strs[a]);
            }
        }
    }
}

} // verus!
