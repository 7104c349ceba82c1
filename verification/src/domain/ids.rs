//! Dense identifiers and interned text.

use crate::text::same;
use crate::values::{Ordered, Value};
use vstd::prelude::*;

verus! {

/// Identifies a workspace by its position.
#[derive(Debug, Clone, Copy, PartialEq, Eq, Structural)]
pub struct WorkspaceId(pub u32);

impl WorkspaceId {
    /// The position that the identifier stands for.
    #[must_use]
    pub fn index(self) -> (r: usize)
        ensures
            r == self.0,
    {
        self.0 as usize
    }
}

/// Identifies a module by its position.
#[derive(Debug, Clone, Copy, PartialEq, Eq, Structural)]
pub struct ModuleId(pub u32);

impl ModuleId {
    /// The position that the identifier stands for.
    #[must_use]
    pub fn index(self) -> (r: usize)
        ensures
            r == self.0,
    {
        self.0 as usize
    }
}

/// Identifies an execution region by its position.
#[derive(Debug, Clone, Copy, PartialEq, Eq, Structural)]
pub struct ExecutionRegionId(pub u32);

impl ExecutionRegionId {
    /// The position that the identifier stands for.
    #[must_use]
    pub fn index(self) -> (r: usize)
        ensures
            r == self.0,
    {
        self.0 as usize
    }
}

/// Identifies a symbol by its position.
#[derive(Debug, Clone, Copy, PartialEq, Eq, Structural)]
pub struct SymbolId(pub u32);

impl SymbolId {
    /// The position that the identifier stands for.
    #[must_use]
    pub fn index(self) -> (r: usize)
        ensures
            r == self.0,
    {
        self.0 as usize
    }
}

/// Identifies a class member by its position.
#[derive(Debug, Clone, Copy, PartialEq, Eq, Structural)]
pub struct MemberId(pub u32);

impl MemberId {
    /// The position that the identifier stands for.
    #[must_use]
    pub fn index(self) -> (r: usize)
        ensures
            r == self.0,
    {
        self.0 as usize
    }
}

/// Identifies a package by its position.
#[derive(Debug, Clone, Copy, PartialEq, Eq, Structural)]
pub struct PackageId(pub u32);

impl PackageId {
    /// The position that the identifier stands for.
    #[must_use]
    pub fn index(self) -> (r: usize)
        ensures
            r == self.0,
    {
        self.0 as usize
    }
}

/// Identifies a manifest declaration by its position.
#[derive(Debug, Clone, Copy, PartialEq, Eq, Structural)]
pub struct ManifestDeclarationId(pub u32);

impl ManifestDeclarationId {
    /// The position that the identifier stands for.
    #[must_use]
    pub fn index(self) -> (r: usize)
        ensures
            r == self.0,
    {
        self.0 as usize
    }
}

/// Identifies a target profile by its position.
#[derive(Debug, Clone, Copy, PartialEq, Eq, Structural)]
pub struct TargetProfileId(pub u32);

impl TargetProfileId {
    /// The position that the identifier stands for.
    #[must_use]
    pub fn index(self) -> (r: usize)
        ensures
            r == self.0,
    {
        self.0 as usize
    }
}

/// Identifies an evidence node by its position.
#[derive(Debug, Clone, Copy, PartialEq, Eq, Structural)]
pub struct EvidenceId(pub u32);

impl EvidenceId {
    /// The position that the identifier stands for.
    #[must_use]
    pub fn index(self) -> (r: usize)
        ensures
            r == self.0,
    {
        self.0 as usize
    }
}

/// Identifies an interned text by its position.
#[derive(Debug, Clone, Copy, PartialEq, Eq, Structural)]
pub struct InternedStringId(pub u32);

impl InternedStringId {
    /// The position that the identifier stands for.
    #[must_use]
    pub fn index(self) -> (r: usize)
        ensures
            r == self.0,
    {
        self.0 as usize
    }
}

impl DeepView for EvidenceId {
    type V = EvidenceId;

    open spec fn deep_view(&self) -> EvidenceId {
        *self
    }
}

impl Value for EvidenceId {
    fn replicate(&self) -> (r: Self) {
        *self
    }

    fn same_value(&self, other: &Self) -> (r: bool) {
        *self == *other
    }
}

impl Ordered for EvidenceId {
    open spec fn before(a: EvidenceId, b: EvidenceId) -> bool {
        a.0 < b.0
    }

    fn is_before(&self, other: &Self) -> (r: bool) {
        self.0 < other.0
    }

    proof fn before_irreflexive(a: EvidenceId) {
    }

    proof fn before_transitive(a: EvidenceId, b: EvidenceId, c: EvidenceId) {
    }

    proof fn before_total(a: EvidenceId, b: EvidenceId) {
    }
}

impl DeepView for SymbolId {
    type V = SymbolId;

    open spec fn deep_view(&self) -> SymbolId {
        *self
    }
}

impl Value for SymbolId {
    fn replicate(&self) -> (r: Self) {
        *self
    }

    fn same_value(&self, other: &Self) -> (r: bool) {
        *self == *other
    }
}

impl Ordered for SymbolId {
    open spec fn before(a: SymbolId, b: SymbolId) -> bool {
        a.0 < b.0
    }

    fn is_before(&self, other: &Self) -> (r: bool) {
        assert(Self::before(*self, *other) == (self.0 < other.0));
        self.0 < other.0
    }

    proof fn before_irreflexive(a: SymbolId) {
    }

    proof fn before_transitive(a: SymbolId, b: SymbolId, c: SymbolId) {
    }

    proof fn before_total(a: SymbolId, b: SymbolId) {
    }
}

/// Deterministic shared storage for repeated paths, specifiers, and names.
#[derive(Debug)]
pub struct StringInterner {
    values: Vec<String>,
}

impl View for StringInterner {
    type V = Seq<Seq<char>>;

    closed spec fn view(&self) -> Seq<Seq<char>> {
        self.values.deep_view()
    }
}

impl Default for StringInterner {
    fn default() -> (r: Self)
        ensures
            r.wf(),
            r@ == Seq::<Seq<char>>::empty(),
    {
        let r = StringInterner { values: Vec::new() };
        assert(r@ =~= Seq::<Seq<char>>::empty());
        r
    }
}

impl StringInterner {
    /// No text is held twice, and every position has an identifier.
    pub open spec fn wf(&self) -> bool {
        self@.no_duplicates() && self@.len() <= u32::MAX + 1
    }

    /// Interns a text and returns its stable identifier.
    ///
    /// A text that is new needs an identifier that is still free.
    #[must_use]
    pub fn intern(&mut self, value: &str) -> (r: InternedStringId)
        requires
            old(self).wf(),
            old(self)@.contains(value@) || old(self)@.len() <= u32::MAX,
        ensures
            final(self).wf(),
            final(self)@ == interned(old(self)@, value@),
            r.0 < final(self)@.len(),
            final(self)@[r.0 as int] == value@,
    {
        let ghost model = self@;
        let mut i: usize = 0;
        while i < self.values.len()
            invariant
                i <= self.values.len(),
                model == self@,
                model.len() <= u32::MAX + 1,
                model.no_duplicates(),
                *self == *old(self),
                model == old(self)@,
                forall|j: int| 0 <= j < i ==> model[j] != value@,
            decreases self.values.len() - i,
        {
            assert(model[i as int] == self.values@[i as int]@);
            if same(&self.values[i], value) {
                return InternedStringId(i as u32);
            }
            i = i + 1;
        }
        assert(!model.contains(value@));
        let id = InternedStringId(self.values.len() as u32);
        self.values.push(value.to_owned());
        assert(self@ =~= model.push(value@));
        id
    }

    /// The text with this identifier.
    #[must_use]
    pub fn get(&self, id: InternedStringId) -> (r: Option<&str>)
        ensures
            match r {
                Some(text) => id.0 < self@.len() && text@ == self@[id.0 as int],
                None => id.0 >= self@.len(),
            },
    {
        let index = id.index();
        if index < self.values.len() {
            assert(self@[index as int] == self.values@[index as int]@);
            Some(self.values[index].as_str())
        } else {
            None
        }
    }

    /// How many texts are held.
    #[must_use]
    pub fn len(&self) -> (r: usize)
        ensures
            r == self@.len(),
    {
        self.values.len()
    }

    /// Whether no text is held.
    #[must_use]
    pub fn is_empty(&self) -> (r: bool)
        ensures
            r == (self@.len() == 0),
    {
        self.values.len() == 0
    }
}

/// What interning does to the texts held.
pub open spec fn interned(texts: Seq<Seq<char>>, value: Seq<char>) -> Seq<Seq<char>> {
    if texts.contains(value) {
        texts
    } else {
        texts.push(value)
    }
}

/// Interning is stable: a text keeps the position it has, whatever is interned later.
pub proof fn interning_is_stable(texts: Seq<Seq<char>>, value: Seq<char>, i: int)
    requires
        0 <= i < texts.len(),
    ensures
        i < interned(texts, value).len(),
        interned(texts, value)[i] == texts[i],
{
}

/// Interning a text a second time adds nothing and gives the same position.
pub proof fn interning_is_deduplicated(texts: Seq<Seq<char>>, value: Seq<char>, i: int, j: int)
    requires
        texts.no_duplicates(),
        0 <= i < interned(texts, value).len(),
        interned(texts, value)[i] == value,
        0 <= j < interned(interned(texts, value), value).len(),
        interned(interned(texts, value), value)[j] == value,
    ensures
        interned(interned(texts, value), value) == interned(texts, value),
        i == j,
{
    let once = interned(texts, value);
    assert(once.contains(value));
    assert(once.no_duplicates());
}

} // verus!
