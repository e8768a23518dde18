//! The order in which a snapshot lists its files: natural order of the
//! paths, case ignored, largest first.

use vstd::prelude::*;

verus! {

/// How one text stands to another.
#[derive(Clone, Copy, Debug, PartialEq, Eq, Structural)]
pub enum Order {
    Less,
    Equal,
    Greater,
}

/// How `left` stands to `right` in natural order with case ignored: runs of
/// digits count by their number, so that `file2` is less than `file10`.
pub uninterp spec fn natural_order(left: Seq<char>, right: Seq<char>) -> Order;

/// Trusted: `natord::compare_ignore_case`. It walks the lower-cased
/// characters of both texts and reads nothing else, so its answer depends on
/// the two texts alone; the contract names the answer and says no more.
#[verifier::external_body]
pub(crate) fn compare_natural(left: &str, right: &str) -> (order: Order)
    ensures
        order == natural_order(left@, right@),
{
    match natord::compare_ignore_case(left, right) {
        std::cmp::Ordering::Less => Order::Less,
        std::cmp::Ordering::Equal => Order::Equal,
        std::cmp::Ordering::Greater => Order::Greater,
    }
}

/// `a` is less than `b`, character by character; a proper prefix is less.
pub open spec fn text_less(a: Seq<char>, b: Seq<char>) -> bool
    decreases a.len(),
{
    if b.len() == 0 {
        false
    } else if a.len() == 0 {
        true
    } else if a[0] != b[0] {
        a[0] < b[0]
    } else {
        text_less(a.drop_first(), b.drop_first())
    }
}

/// Tests whether `a` is less than `b`, character by character.
pub fn is_text_less(a: &[char], b: &[char]) -> (less: bool)
    ensures
        less == text_less(a@, b@),
{
    let mut i: usize = 0;
    assert(a@.skip(0) == a@ && b@.skip(0) == b@);
    while i < a.len() && i < b.len()
        invariant
            i <= a.len(),
            i <= b.len(),
            text_less(a@, b@) == text_less(a@.skip(i as int), b@.skip(i as int)),
        decreases a.len() - i,
    {
        if a[i] != b[i] {
            return a[i] < b[i];
        }
        assert(a@.skip(i as int).drop_first() == a@.skip(i + 1));
        assert(b@.skip(i as int).drop_first() == b@.skip(i + 1));
        i += 1;
    }
    i < b.len()
}

/// A file at `a` is listed before one at `b`, where `order` is how `b`
/// stands to `a` in natural order: `b` is less, or the two are equal there
/// and `b` is the lesser text.
pub open spec fn listed_before_given(order: Order, a: Seq<char>, b: Seq<char>) -> bool {
    match order {
        Order::Less => true,
        Order::Equal => text_less(b, a),
        Order::Greater => false,
    }
}

/// A file at `a` is listed before one at `b`: `a` is the greater path in
/// natural order, or the two are equal there and `a` is the greater text.
pub open spec fn listed_before(a: Seq<char>, b: Seq<char>) -> bool {
    listed_before_given(natural_order(b, a), a, b)
}

/// Decides whether a file at `a` is listed before one at `b`, given how `b`
/// stands to `a` in natural order.
pub fn listed_before_by(order: Order, a: &[char], b: &[char]) -> (before: bool)
    ensures
        before == listed_before_given(order, a@, b@),
{
    match order {
        Order::Less => true,
        Order::Equal => is_text_less(b, a),
        Order::Greater => false,
    }
}

/// Decides whether a file at `a` is listed before one at `b`.
pub fn is_listed_before(a: &str, b: &str) -> (before: bool)
    ensures
        before == listed_before(a@, b@),
{
    let order = compare_natural(b, a);
    let first = crate::text::chars_of(a);
    let second = crate::text::chars_of(b);
    listed_before_by(order, first.as_slice(), second.as_slice())
}

} // verus!
