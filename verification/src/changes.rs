use vstd::prelude::*;

use crate::category::ChangeCategory;
use crate::span::ExportRecord;
use crate::span::Span;
use vstd::std_specs::cmp::PartialEqSpec;
use vstd::std_specs::cmp::PartialOrdSpec;

verus! {

/// The ways a matched item can change between versions.
///
/// This is an open taxonomy: every future kind must be added together with
/// its arm in `category_spec` and `category`, so an unmapped kind is a
/// build-time error, never a runtime fault. Adding a kind never alters the
/// classification of the existing ones.
#[derive(Clone, Copy, Debug)]
pub enum BinaryChangeType {
    /// Any modification this analysis does not yet characterize further.
    Unknown,
}

impl BinaryChangeType {
    /// Severity of a modification of this kind. A modification that cannot
    /// be characterized is conservatively assumed to break downstream
    /// code: a false positive is preferred over silently missed breakage.
    pub open spec fn category_spec(self) -> ChangeCategory {
        match self {
            BinaryChangeType::Unknown => ChangeCategory::Breaking,
        }
    }

    pub fn category(&self) -> (r: ChangeCategory)
        ensures
            r == self.category_spec(),
    {
        match self {
            BinaryChangeType::Unknown => ChangeCategory::Breaking,
        }
    }
}

/// A change record of a change that introduced or removed an item.
///
/// Equality and order look only at the span of the underlying export:
/// events sort by where they appear in the source, and two events at the
/// same position collapse into one, whatever their kind or identifier.
/// This span-only identity is deliberate and is what the deduplication of
/// `ChangeSet` keys on.
pub enum UnaryChange {
    /// An item has been added.
    Addition(ExportRecord),
    /// An item has been removed.
    Removal(ExportRecord),
}

impl UnaryChange {
    /// The export the event is about, whichever way it went.
    pub open spec fn export_spec(self) -> ExportRecord {
        match self {
            UnaryChange::Addition(e) => e,
            UnaryChange::Removal(e) => e,
        }
    }

    /// The span that gives the event its place and identity.
    pub open spec fn span_spec(self) -> Span {
        self.export_spec().span
    }

    pub open spec fn is_addition(self) -> bool {
        self matches UnaryChange::Addition(_)
    }

    /// Severity of the event: an addition is only technically breaking,
    /// a removal is breaking.
    pub open spec fn category_spec(self) -> ChangeCategory {
        match self {
            UnaryChange::Addition(_) => ChangeCategory::TechnicallyBreaking,
            UnaryChange::Removal(_) => ChangeCategory::Breaking,
        }
    }

    fn export(&self) -> (r: &ExportRecord)
        ensures
            *r == self.export_spec(),
    {
        match self {
            UnaryChange::Addition(e) => e,
            UnaryChange::Removal(e) => e,
        }
    }

    pub fn span(&self) -> (r: &Span)
        ensures
            *r == self.span_spec(),
    {
        &self.export().span
    }

    pub fn ident(&self) -> (r: &String)
        ensures
            *r == self.export_spec().ident,
    {
        &self.export().ident
    }

    /// A display tag for the event's kind.
    pub fn type_(&self) -> (r: &'static str)
        ensures
            self.is_addition() ==> r@ == "Addition"@,
            !self.is_addition() ==> r@ == "Removal"@,
    {
        match self {
            UnaryChange::Addition(_) => "Addition",
            UnaryChange::Removal(_) => "Removal",
        }
    }

    pub fn category(&self) -> (r: ChangeCategory)
        ensures
            r == self.category_spec(),
    {
        match self {
            UnaryChange::Addition(_) => ChangeCategory::TechnicallyBreaking,
            UnaryChange::Removal(_) => ChangeCategory::Breaking,
        }
    }
}

impl PartialEq for UnaryChange {
    fn eq(&self, other: &UnaryChange) -> (r: bool) {
        self.export().span == other.export().span
    }
}

impl Eq for UnaryChange {

}

impl vstd::std_specs::cmp::PartialEqSpecImpl for UnaryChange {
    open spec fn obeys_eq_spec() -> bool {
        true
    }

    open spec fn eq_spec(&self, other: &UnaryChange) -> bool {
        self.span_spec() == other.span_spec()
    }
}

impl PartialOrd for UnaryChange {
    fn partial_cmp(&self, other: &UnaryChange) -> (r: Option<core::cmp::Ordering>) {
        let s = self.export().span;
        let o = other.export().span;
        if s.is_before(&o) {
            Some(core::cmp::Ordering::Less)
        } else if o.is_before(&s) {
            Some(core::cmp::Ordering::Greater)
        } else {
            Some(core::cmp::Ordering::Equal)
        }
    }
}

impl vstd::std_specs::cmp::PartialOrdSpecImpl for UnaryChange {
    open spec fn obeys_partial_cmp_spec() -> bool {
        true
    }

    open spec fn partial_cmp_spec(&self, other: &UnaryChange) -> Option<core::cmp::Ordering> {
        if self.span_spec().lt_spec(other.span_spec()) {
            Some(core::cmp::Ordering::Less)
        } else if other.span_spec().lt_spec(self.span_spec()) {
            Some(core::cmp::Ordering::Greater)
        } else {
            Some(core::cmp::Ordering::Equal)
        }
    }
}

/// A change record of an item that exists in both versions but changed.
///
/// Equality and order look only at the span of the `new` export — the more
/// recent, user-facing position — with the same collapsing caveat as for
/// `UnaryChange`. The identifier is read from the `old` export; identifiers
/// are assumed stable across a modification.
pub struct BinaryChange {
    pub type_: BinaryChangeType,
    pub old: ExportRecord,
    pub new: ExportRecord,
}

impl BinaryChange {
    /// Severity of the modification, given by its kind.
    pub open spec fn category_spec(self) -> ChangeCategory {
        self.type_.category_spec()
    }

    pub fn new(type_: BinaryChangeType, old: ExportRecord, new: ExportRecord) -> (r: BinaryChange)
        ensures
            r.type_ == type_,
            r.old == old,
            r.new == new,
    {
        BinaryChange { type_, old, new }
    }

    pub fn type_(&self) -> (r: &BinaryChangeType)
        ensures
            *r == self.type_,
    {
        &self.type_
    }

    pub fn new_span(&self) -> (r: &Span)
        ensures
            *r == self.new.span,
    {
        &self.new.span
    }

    pub fn old_span(&self) -> (r: &Span)
        ensures
            *r == self.old.span,
    {
        &self.old.span
    }

    pub fn ident(&self) -> (r: &String)
        ensures
            *r == self.old.ident,
    {
        &self.old.ident
    }

    pub fn category(&self) -> (r: ChangeCategory)
        ensures
            r == self.category_spec(),
    {
        self.type_.category()
    }
}

impl PartialEq for BinaryChange {
    fn eq(&self, other: &BinaryChange) -> (r: bool) {
        self.new.span == other.new.span
    }
}

impl Eq for BinaryChange {

}

impl vstd::std_specs::cmp::PartialEqSpecImpl for BinaryChange {
    open spec fn obeys_eq_spec() -> bool {
        true
    }

    open spec fn eq_spec(&self, other: &BinaryChange) -> bool {
        self.new.span == other.new.span
    }
}

impl PartialOrd for BinaryChange {
    fn partial_cmp(&self, other: &BinaryChange) -> (r: Option<core::cmp::Ordering>) {
        if self.new.span.is_before(&other.new.span) {
            Some(core::cmp::Ordering::Less)
        } else if other.new.span.is_before(&self.new.span) {
            Some(core::cmp::Ordering::Greater)
        } else {
            Some(core::cmp::Ordering::Equal)
        }
    }
}

impl vstd::std_specs::cmp::PartialOrdSpecImpl for BinaryChange {
    open spec fn obeys_partial_cmp_spec() -> bool {
        true
    }

    open spec fn partial_cmp_spec(&self, other: &BinaryChange) -> Option<core::cmp::Ordering> {
        if self.new.span.lt_spec(other.new.span) {
            Some(core::cmp::Ordering::Less)
        } else if other.new.span.lt_spec(self.new.span) {
            Some(core::cmp::Ordering::Greater)
        } else {
            Some(core::cmp::Ordering::Equal)
        }
    }
}

/// A single detected difference between two versions of a public API.
///
/// Within a variant, equality and order delegate to the contained event;
/// across variants, events at distinct spans order by span, and at equal
/// spans the unary event comes first. That explicit tie-break keeps the
/// order total, so an ordered container of changes is well defined.
pub enum Change {
    Unary(UnaryChange),
    Binary(BinaryChange),
}

impl Change {
    pub open spec fn is_unary(self) -> bool {
        self matches Change::Unary(_)
    }

    /// The span a change is keyed by: its own span for a unary change, the
    /// span of the new export for a binary one.
    pub open spec fn key_span(self) -> Span {
        match self {
            Change::Unary(u) => u.span_spec(),
            Change::Binary(b) => b.new.span,
        }
    }

    /// The identity of a change for ordering and deduplication: which class
    /// of change it is, and the span it is keyed by. Kind and identifier
    /// play no part in it.
    pub open spec fn key(self) -> (bool, Span) {
        (self.is_unary(), self.key_span())
    }

    /// Strict total order on changes: by key span, and at equal spans the
    /// unary change before the binary one.
    pub open spec fn lt_spec(self, other: Change) -> bool {
        self.key_span().lt_spec(other.key_span()) || (self.key_span() == other.key_span()
            && self.is_unary() && !other.is_unary())
    }

    /// Equality of changes: equality of keys.
    pub open spec fn same_key(self, other: Change) -> bool {
        self.key() == other.key()
    }

    /// Severity of the change, by its shape alone.
    pub open spec fn category_spec(self) -> ChangeCategory {
        match self {
            Change::Unary(u) => u.category_spec(),
            Change::Binary(b) => b.category_spec(),
        }
    }

    pub fn new_addition(export: ExportRecord) -> (r: Change)
        ensures
            r == Change::Unary(UnaryChange::Addition(export)),
    {
        Change::Unary(UnaryChange::Addition(export))
    }

    pub fn new_removal(export: ExportRecord) -> (r: Change)
        ensures
            r == Change::Unary(UnaryChange::Removal(export)),
    {
        Change::Unary(UnaryChange::Removal(export))
    }

    pub fn new_binary(type_: BinaryChangeType, old: ExportRecord, new: ExportRecord) -> (r: Change)
        ensures
            r == Change::Binary((BinaryChange { type_, old, new })),
    {
        Change::Binary(BinaryChange::new(type_, old, new))
    }

    pub fn category(&self) -> (r: ChangeCategory)
        ensures
            r == self.category_spec(),
    {
        match self {
            Change::Unary(u) => u.category(),
            Change::Binary(b) => b.category(),
        }
    }

    fn key_span_ex(&self) -> (r: Span)
        ensures
            r == self.key_span(),
    {
        match self {
            Change::Unary(u) => *u.span(),
            Change::Binary(b) => b.new.span,
        }
    }

    fn is_unary_ex(&self) -> (r: bool)
        ensures
            r == self.is_unary(),
    {
        match self {
            Change::Unary(_) => true,
            Change::Binary(_) => false,
        }
    }
}

impl PartialEq for Change {
    fn eq(&self, other: &Change) -> (r: bool) {
        let s = self.key_span_ex();
        let o = other.key_span_ex();
        self.is_unary_ex() == other.is_unary_ex() && s == o
    }
}

impl Eq for Change {

}

impl vstd::std_specs::cmp::PartialEqSpecImpl for Change {
    open spec fn obeys_eq_spec() -> bool {
        true
    }

    open spec fn eq_spec(&self, other: &Change) -> bool {
        self.same_key(*other)
    }
}

impl PartialOrd for Change {
    fn partial_cmp(&self, other: &Change) -> (r: Option<core::cmp::Ordering>) {
        let s = self.key_span_ex();
        let o = other.key_span_ex();
        if s.is_before(&o) {
            Some(core::cmp::Ordering::Less)
        } else if o.is_before(&s) {
            Some(core::cmp::Ordering::Greater)
        } else if self.is_unary_ex() && !other.is_unary_ex() {
            Some(core::cmp::Ordering::Less)
        } else if !self.is_unary_ex() && other.is_unary_ex() {
            Some(core::cmp::Ordering::Greater)
        } else {
            Some(core::cmp::Ordering::Equal)
        }
    }
}

impl vstd::std_specs::cmp::PartialOrdSpecImpl for Change {
    open spec fn obeys_partial_cmp_spec() -> bool {
        true
    }

    open spec fn partial_cmp_spec(&self, other: &Change) -> Option<core::cmp::Ordering> {
        if self.lt_spec(*other) {
            Some(core::cmp::Ordering::Less)
        } else if other.lt_spec(*self) {
            Some(core::cmp::Ordering::Greater)
        } else {
            Some(core::cmp::Ordering::Equal)
        }
    }
}

/// Transitivity of the change order: the strict order composes, key
/// equality composes, and so does the reversed strict order. Together with
/// `lemma_change_order_total` this makes `lt_spec` a strict total order
/// modulo `same_key` — the order the `==`, `<` and `>` operators on
/// `Change` follow.
pub proof fn lemma_change_order_transitive(c1: Change, c2: Change, c3: Change)
    ensures
        c1.lt_spec(c2) && c2.lt_spec(c3) ==> c1.lt_spec(c3),
        c1.same_key(c2) && c2.same_key(c3) ==> c1.same_key(c3),
        c2.lt_spec(c1) && c3.lt_spec(c2) ==> c3.lt_spec(c1),
{
}

/// Totality of the change order: any two changes compare, and exactly one
/// of `lt`, `gt` and key equality holds.
pub proof fn lemma_change_order_total(c1: Change, c2: Change)
    ensures
        c1.lt_spec(c2) || c2.lt_spec(c1) || c1.same_key(c2),
        c1.lt_spec(c2) ==> !c2.lt_spec(c1) && !c1.same_key(c2),
        c1.same_key(c2) ==> !c1.lt_spec(c2) && !c2.lt_spec(c1),
{
}

/// For unary changes, equality is exactly equality of the underlying
/// spans: the kinds and the identifiers of the two events play no part.
/// The first clause speaks of the `==` operator on `UnaryChange`, the
/// second of the key the aggregator deduplicates by.
pub proof fn lemma_unary_eq_iff_span_eq(c1: UnaryChange, c2: UnaryChange)
    ensures
        c1.eq_spec(&c2) <==> c1.span_spec() == c2.span_spec(),
        Change::Unary(c1).same_key(Change::Unary(c2)) <==> c1.span_spec() == c2.span_spec(),
{
}

/// The operators of `Change` follow the key order: `==` decides key
/// equality, and `partial_cmp` — hence `<` and `>` — decides the strict
/// order in each direction, never returning `None`.
pub proof fn lemma_change_operators_follow_order(c1: Change, c2: Change)
    ensures
        c1.eq_spec(&c2) == c1.same_key(c2),
        (c1.partial_cmp_spec(&c2) == Some(core::cmp::Ordering::Less)) == c1.lt_spec(c2),
        (c1.partial_cmp_spec(&c2) == Some(core::cmp::Ordering::Greater)) == c2.lt_spec(c1),
        (c1.partial_cmp_spec(&c2) == Some(core::cmp::Ordering::Equal)) == c1.same_key(c2),
{
    lemma_change_order_total(c1, c2);
}

} // verus!
