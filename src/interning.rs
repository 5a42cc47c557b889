use lasso::Key;
use vstd::prelude::*;

verus! {

#[verifier::external_type_specification]
#[verifier::external_body]
#[verifier::reject_recursive_types(K)]
#[verifier::reject_recursive_types(S)]
pub struct ExRodeo<K, S>(lasso::Rodeo<K, S>);

#[verifier::external_type_specification]
#[verifier::external_body]
pub struct ExSpur(lasso::Spur);

#[verifier::external_type_specification]
#[verifier::external_body]
pub struct ExFxBuildHasher(rustc_hash::FxBuildHasher);

/// The string table that backs an [`Interner`].
pub type SymbolTable = lasso::Rodeo<lasso::Spur, rustc_hash::FxBuildHasher>;

/// The strings held by a symbol table, in the order of their keys: the string of
/// key `i` is at index `i`.
pub uninterp spec fn table_strings(t: SymbolTable) -> Seq<Seq<char>>;

/// Relies on `Rodeo::with_hasher`: a new table holds no string.
#[verifier::external_body]
fn table_new() -> (r: SymbolTable)
    ensures
        table_strings(r) == Seq::<Seq<char>>::empty(),
{
    lasso::Rodeo::with_hasher(rustc_hash::FxBuildHasher)
}

/// Relies on `Rodeo::get_or_intern`: a string already held keeps its key and the
/// table is unchanged; a new string is appended and gets the next key, the
/// table's length. It panics when a new string finds no key left (`Spur` keys
/// stop below `u32::MAX`), which `requires` rules out, and, like any allocation,
/// when memory runs out (its default memory limit is `usize::MAX`).
#[verifier::external_body]
fn table_get_or_intern(t: &mut SymbolTable, s: &str) -> (r: u32)
    requires
        table_strings(*old(t)).contains(s@) || table_strings(*old(t)).len() < u32::MAX,
    ensures
        table_strings(*old(t)).contains(s@) ==> {
            &&& (r as int) < table_strings(*old(t)).len()
            &&& table_strings(*old(t))[r as int] == s@
            &&& table_strings(*final(t)) == table_strings(*old(t))
        },
        !table_strings(*old(t)).contains(s@) ==> {
            &&& r as int == table_strings(*old(t)).len()
            &&& table_strings(*final(t)) == table_strings(*old(t)).push(s@)
        },
{
    t.get_or_intern(s).into_usize() as u32
}

/// Relies on `Rodeo::get`: the key of a string if the table holds it.
#[verifier::external_body]
fn table_get(t: &SymbolTable, s: &str) -> (r: Option<u32>)
    ensures
        r is Some <==> table_strings(*t).contains(s@),
        r matches Some(k) ==> (k as int) < table_strings(*t).len() && table_strings(*t)[k as int]
            == s@,
{
    t.get(s).map(|k| k.into_usize() as u32)
}

/// Relies on `Rodeo::resolve`: the string of a key that the table gave out.
#[verifier::external_body]
fn table_resolve(t: &SymbolTable, key: u32) -> (r: &str)
    requires
        (key as int) < table_strings(*t).len(),
    ensures
        r@ == table_strings(*t)[key as int],
{
    t.resolve(&lasso::Spur::try_from_usize(key as usize).unwrap())
}

/// Relies on `Rodeo::try_resolve`: the string of a key, or nothing where the
/// table holds no string of that key.
#[verifier::external_body]
fn table_try_resolve(t: &SymbolTable, key: u32) -> (r: Option<&str>)
    requires
        table_strings(*t).len() <= u32::MAX,
    ensures
        r is Some <==> (key as int) < table_strings(*t).len(),
        r matches Some(s) ==> s@ == table_strings(*t)[key as int],
{
    lasso::Spur::try_from_usize(key as usize).and_then(|k| t.try_resolve(&k))
}

/// Relies on `Rodeo::len`: the number of strings held.
#[verifier::external_body]
fn table_len(t: &SymbolTable) -> (r: usize)
    ensures
        r == table_strings(*t).len(),
{
    t.len()
}

/// The position of `s` in `names`, when it occurs there.
pub open spec fn index_in(names: Seq<Seq<char>>, s: Seq<char>) -> int {
    choose|i: int| 0 <= i < names.len() && names[i] == s
}

/// No string occurs twice.
pub open spec fn distinct(names: Seq<Seq<char>>) -> bool {
    forall|i: int, j: int| 0 <= i < j < names.len() ==> names[i] != names[j]
}

/// The key that interning `s` gives, given the strings held so far.
pub open spec fn intern_key(names: Seq<Seq<char>>, s: Seq<char>) -> int {
    if names.contains(s) {
        index_in(names, s)
    } else {
        names.len() as int
    }
}

/// The strings held after interning `s`.
pub open spec fn intern_names(names: Seq<Seq<char>>, s: Seq<char>) -> Seq<Seq<char>> {
    if names.contains(s) {
        names
    } else {
        names.push(s)
    }
}

pub proof fn lemma_index_in(names: Seq<Seq<char>>, s: Seq<char>, k: int)
    requires
        distinct(names),
        0 <= k < names.len(),
        names[k] == s,
    ensures
        index_in(names, s) == k,
{
    let i = index_in(names, s);
    assert(0 <= i < names.len() && names[i] == s);
}

/// A table of identifier text: each distinct string gets one key, and the key
/// gives the string back.
pub struct Interner {
    table: SymbolTable,
}

impl Interner {
    /// The strings interned so far, indexed by key.
    pub closed spec fn strings(&self) -> Seq<Seq<char>> {
        table_strings(self.table)
    }

    pub open spec fn wf(&self) -> bool {
        &&& distinct(self.strings())
        &&& self.strings().len() <= u32::MAX
    }

    pub fn new() -> (r: Interner)
        ensures
            r.wf(),
            r.strings() == Seq::<Seq<char>>::empty(),
    {
        Interner { table: table_new() }
    }

    /// The number of strings interned so far.
    pub fn len(&self) -> (r: usize)
        ensures
            r == self.strings().len(),
    {
        table_len(&self.table)
    }

    /// The text of `key`, if this interner gave it out.
    pub fn lookup(&self, key: InternedStr) -> (r: Option<&str>)
        requires
            self.wf(),
        ensures
            r is Some <==> (key.index as int) < self.strings().len(),
            r matches Some(s) ==> s@ == self.strings()[key.index as int],
    {
        table_try_resolve(&self.table, key.index)
    }

    /// The key of `s` if it was interned, without interning it.
    pub fn get(&self, s: &str) -> (r: Option<InternedStr>)
        requires
            self.wf(),
        ensures
            r is Some <==> self.strings().contains(s@),
            r matches Some(k) ==> k.index as int == index_in(self.strings(), s@),
    {
        match table_get(&self.table, s) {
            Some(k) => {
                proof {
                    lemma_index_in(self.strings(), s@, k as int);
                }
                Some(InternedStr { index: k })
            },
            None => None,
        }
    }
}

/// The identity of an interned string: two strings get equal identities exactly
/// when they are equal.
#[derive(Clone, Copy, PartialEq, Eq, Structural, Hash, Debug)]
pub struct InternedStr {
    pub index: u32,
}

impl InternedStr {
    pub fn intern(interner: &mut Interner, s: &str) -> (r: InternedStr)
        requires
            old(interner).wf(),
            old(interner).strings().contains(s@) || old(interner).strings().len() < u32::MAX,
        ensures
            final(interner).wf(),
            r.index as int == intern_key(old(interner).strings(), s@),
            final(interner).strings() == intern_names(old(interner).strings(), s@),
            final(interner).strings()[r.index as int] == s@,
    {
        let ghost names = interner.strings();
        let k = table_get_or_intern(&mut interner.table, s);
        proof {
            if names.contains(s@) {
                lemma_index_in(names, s@, k as int);
            } else {
                assert forall|i: int, j: int|
                    0 <= i < j < interner.strings().len() implies interner.strings()[i]
                    != interner.strings()[j] by {
                    if j == names.len() {
                        assert(names[i] == interner.strings()[i]);
                    }
                }
            }
        }
        InternedStr { index: k }
    }

    /// The text this identity was interned from.
    pub fn to_str(self, interner: &Interner) -> (r: &str)
        requires
            (self.index as int) < interner.strings().len(),
        ensures
            r@ == interner.strings()[self.index as int],
    {
        table_resolve(&interner.table, self.index)
    }
}

} // verus!
