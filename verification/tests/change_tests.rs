use semcheck::category::ChangeCategory;
use semcheck::change_set::ChangeSet;
use semcheck::changes::BinaryChange;
use semcheck::changes::BinaryChangeType;
use semcheck::changes::Change;
use semcheck::changes::UnaryChange;
use semcheck::span::ExportRecord;
use semcheck::span::Span;

fn record(ident: &str, start: u32, end: u32) -> ExportRecord {
    ExportRecord::new(String::from(ident), Span::new(start, end))
}

#[test]
fn classify_addition_is_technically_breaking() {
    let c = Change::new_addition(record("foo", 10, 20));
    assert_eq!(c.category(), ChangeCategory::TechnicallyBreaking);
}

#[test]
fn classify_removal_is_breaking() {
    let c = Change::new_removal(record("foo", 10, 20));
    assert_eq!(c.category(), ChangeCategory::Breaking);
}

#[test]
fn classify_unclassified_modification_is_breaking() {
    let c = Change::new_binary(
        BinaryChangeType::Unknown,
        record("foo", 10, 20),
        record("foo", 30, 40),
    );
    assert_eq!(c.category(), ChangeCategory::Breaking);
}

#[test]
fn empty_aggregation_reports_patch() {
    let set = ChangeSet::default();
    let (changes, max) = set.report();
    assert_eq!(changes.len(), 0);
    assert_eq!(max, ChangeCategory::Patch);
}

#[test]
fn category_order_is_ascending() {
    assert!(ChangeCategory::Patch < ChangeCategory::NonBreaking);
    assert!(ChangeCategory::NonBreaking < ChangeCategory::TechnicallyBreaking);
    assert!(ChangeCategory::TechnicallyBreaking < ChangeCategory::Breaking);
    assert_eq!(ChangeCategory::default(), ChangeCategory::Patch);
}

#[test]
fn change_order_is_transitive_on_samples() {
    let c1 = Change::new_addition(record("a", 1, 2));
    let c2 = Change::new_removal(record("b", 1, 5));
    let c3 = Change::new_addition(record("c", 7, 8));
    assert!(c1 < c2);
    assert!(c2 < c3);
    assert!(c1 < c3);
    assert!(c3 > c2);
    assert!(c2 > c1);
    assert!(c3 > c1);
}

#[test]
fn unary_equality_is_span_equality() {
    // same span: equal, although kind and identifier differ
    let add = Change::new_addition(record("foo", 10, 20));
    let rem = Change::new_removal(record("bar", 10, 20));
    assert!(add == rem);
    // different spans: not equal, although kind and identifier agree
    let a1 = Change::new_addition(record("foo", 10, 20));
    let a2 = Change::new_addition(record("foo", 10, 21));
    assert!(a1 != a2);
}

#[test]
fn binary_equality_keyed_by_new_span() {
    let b1 = BinaryChange::new(
        BinaryChangeType::Unknown,
        record("foo", 1, 2),
        record("foo", 50, 60),
    );
    let b2 = BinaryChange::new(
        BinaryChangeType::Unknown,
        record("bar", 30, 40),
        record("bar", 50, 60),
    );
    let b3 = BinaryChange::new(
        BinaryChangeType::Unknown,
        record("foo", 1, 2),
        record("foo", 70, 80),
    );
    assert!(b1 == b2);
    assert!(b1 != b3);
    assert!(b1 < b3);
}

#[test]
fn unary_before_binary_at_equal_span() {
    let u = Change::new_addition(record("foo", 10, 20));
    let b = Change::new_binary(
        BinaryChangeType::Unknown,
        record("foo", 1, 2),
        record("foo", 10, 20),
    );
    assert!(u != b);
    assert!(u < b);
    assert!(b > u);
}

#[test]
fn unary_accessors() {
    let add = UnaryChange::Addition(record("foo", 10, 20));
    assert_eq!(*add.span(), Span::new(10, 20));
    assert_eq!(add.ident(), "foo");
    assert_eq!(add.type_(), "Addition");
    assert_eq!(add.category(), ChangeCategory::TechnicallyBreaking);
    let rem = UnaryChange::Removal(record("bar", 3, 4));
    assert_eq!(rem.type_(), "Removal");
    assert_eq!(rem.category(), ChangeCategory::Breaking);
}

#[test]
fn binary_accessors() {
    let b = BinaryChange::new(
        BinaryChangeType::Unknown,
        record("foo", 1, 2),
        record("foo2", 50, 60),
    );
    assert_eq!(*b.old_span(), Span::new(1, 2));
    assert_eq!(*b.new_span(), Span::new(50, 60));
    // the identifier is read from the old record
    assert_eq!(b.ident(), "foo");
    assert!(matches!(*b.type_(), BinaryChangeType::Unknown));
    assert_eq!(b.category(), ChangeCategory::Breaking);
}

#[test]
fn end_to_end_scenario() {
    let mut set = ChangeSet::default();
    set.add_change(Change::new_addition(record("foo", 10, 20)));
    set.add_change(Change::new_removal(record("bar", 30, 40)));
    let (changes, max) = set.report();
    assert_eq!(max, ChangeCategory::Breaking);
    assert_eq!(changes.len(), 2);
    match &changes[0] {
        Change::Unary(u) => {
            assert_eq!(u.type_(), "Addition");
            assert_eq!(u.ident(), "foo");
            assert_eq!(*u.span(), Span::new(10, 20));
        }
        Change::Binary(_) => panic!("expected a unary change first"),
    }
    match &changes[1] {
        Change::Unary(u) => {
            assert_eq!(u.type_(), "Removal");
            assert_eq!(u.ident(), "bar");
            assert_eq!(*u.span(), Span::new(30, 40));
        }
        Change::Binary(_) => panic!("expected a unary change second"),
    }
}

#[test]
fn insertion_is_idempotent() {
    let mut set = ChangeSet::default();
    set.add_change(Change::new_addition(record("foo", 10, 20)));
    let first_len = set.report().0.len();
    let first_max = set.report().1;
    set.add_change(Change::new_addition(record("foo", 10, 20)));
    let (changes, max) = set.report();
    assert_eq!(changes.len(), first_len);
    assert_eq!(max, first_max);
}

#[test]
fn duplicate_key_keeps_first_entry() {
    let mut set = ChangeSet::default();
    set.add_change(Change::new_addition(record("foo", 10, 20)));
    // same span, hence the same key: the addition stays in the set,
    // but the removal's severity still reaches the maximum
    set.add_change(Change::new_removal(record("other", 10, 20)));
    let (changes, max) = set.report();
    assert_eq!(changes.len(), 1);
    match &changes[0] {
        Change::Unary(u) => assert_eq!(u.type_(), "Addition"),
        Change::Binary(_) => panic!("expected a unary change"),
    }
    assert_eq!(max, ChangeCategory::Breaking);
}

#[test]
fn maximum_is_monotone() {
    let mut set = ChangeSet::default();
    set.add_change(Change::new_removal(record("gone", 1, 2)));
    assert_eq!(set.report().1, ChangeCategory::Breaking);
    // a milder change cannot lower the maximum
    set.add_change(Change::new_addition(record("fresh", 5, 6)));
    assert_eq!(set.report().1, ChangeCategory::Breaking);
}

#[test]
fn aggregation_is_order_independent() {
    let build = |order: &[u32]| {
        let mut set = ChangeSet::default();
        for &start in order {
            if start % 2 == 0 {
                set.add_change(Change::new_addition(record("even", start, start + 1)));
            } else {
                set.add_change(Change::new_removal(record("odd", start, start + 1)));
            }
        }
        set
    };
    let one = build(&[4, 1, 3, 2, 4, 0]);
    let two = build(&[0, 4, 2, 4, 3, 1]);
    let (changes1, max1) = one.report();
    let (changes2, max2) = two.report();
    assert_eq!(max1, max2);
    assert_eq!(changes1.len(), changes2.len());
    for (c1, c2) in changes1.iter().zip(changes2.iter()) {
        assert!(c1 == c2);
    }
}

#[test]
fn report_is_sorted_by_span() {
    let mut set = ChangeSet::default();
    set.add_change(Change::new_addition(record("c", 30, 31)));
    set.add_change(Change::new_addition(record("a", 10, 11)));
    set.add_change(Change::new_addition(record("b", 20, 21)));
    let (changes, _) = set.report();
    assert_eq!(changes.len(), 3);
    for w in changes.windows(2) {
        assert!(w[0] < w[1]);
    }
    match &changes[0] {
        Change::Unary(u) => assert_eq!(u.ident(), "a"),
        Change::Binary(_) => panic!("expected a unary change"),
    }
}

#[test]
fn span_order_is_lexicographic() {
    assert!(Span::new(1, 9).is_before(&Span::new(2, 0)));
    assert!(Span::new(1, 2).is_before(&Span::new(1, 3)));
    assert!(!Span::new(1, 3).is_before(&Span::new(1, 3)));
    assert!(!Span::new(2, 0).is_before(&Span::new(1, 9)));
}
