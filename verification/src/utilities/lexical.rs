//! Comparison of texts: their lexicographic order, and whether one occurs
//! in, begins or ends another.

use crate::text::chars_of;
use crate::utilities::Comparison;
use core::cmp::Ordering;
use vstd::prelude::*;

verus! {

/// How the text `a` stands to the text `b` in the lexicographic order of
/// their characters: at the first place where they differ the smaller
/// character decides, and a text comes before every text that it begins.
pub open spec fn text_order(a: Seq<char>, b: Seq<char>) -> Ordering
    decreases a.len(),
{
    if a.len() == 0 {
        if b.len() == 0 {
            Ordering::Equal
        } else {
            Ordering::Less
        }
    } else if b.len() == 0 {
        Ordering::Greater
    } else if a[0] < b[0] {
        Ordering::Less
    } else if a[0] > b[0] {
        Ordering::Greater
    } else {
        text_order(a.drop_first(), b.drop_first())
    }
}

/// Whether `part` stands in `text` at the place `at`.
pub open spec fn stands_at(text: Seq<char>, part: Seq<char>, at: int) -> bool {
    0 <= at && at + part.len() <= text.len() && text.subrange(at, at + part.len()) == part
}

/// Whether `part` occurs somewhere in `text`.
pub open spec fn occurs_in(part: Seq<char>, text: Seq<char>) -> bool {
    exists|at: int| #[trigger] stands_at(text, part, at)
}

/// Whether `text` begins with `part`.
pub open spec fn begins_with(text: Seq<char>, part: Seq<char>) -> bool {
    stands_at(text, part, 0)
}

/// Whether `text` ends with `part`.
pub open spec fn ends_with(text: Seq<char>, part: Seq<char>) -> bool {
    stands_at(text, part, text.len() - part.len())
}

/// Texts are equal exactly where neither comes before the other.
pub proof fn lemma_text_order_equal(a: Seq<char>, b: Seq<char>)
    ensures
        text_order(a, b) == Ordering::Equal <==> a == b,
    decreases a.len(),
{
    if a.len() == 0 && b.len() == 0 {
        assert(a =~= b);
    }
    if a.len() > 0 && b.len() > 0 && a[0] == b[0] {
        lemma_text_order_equal(a.drop_first(), b.drop_first());
        if a.drop_first() == b.drop_first() {
            assert(a == seq![a[0]] + a.drop_first());
            assert(b == seq![b[0]] + b.drop_first());
        }
    }
}

/// The order of two texts that agree up to a place is the order of what
/// follows that place.
proof fn lemma_text_order_skips(a: Seq<char>, b: Seq<char>, upto: int)
    requires
        0 <= upto <= a.len(),
        upto <= b.len(),
        forall|i: int| 0 <= i < upto ==> a[i] == b[i],
    ensures
        text_order(a, b) == text_order(a.skip(upto), b.skip(upto)),
    decreases upto,
{
    if upto == 0 {
        assert(a.skip(0) == a);
        assert(b.skip(0) == b);
    } else {
        assert(a[0] == b[0]);
        lemma_text_order_skips(a.drop_first(), b.drop_first(), upto - 1);
        assert(a.drop_first().skip(upto - 1) == a.skip(upto));
        assert(b.drop_first().skip(upto - 1) == b.skip(upto));
    }
}

/// How the text `a` stands to the text `b` in lexicographic order.
pub fn order_of_texts(a: &Vec<char>, b: &Vec<char>) -> (o: Ordering)
    ensures
        o == text_order(a@, b@),
{
    let mut i: usize = 0;
    let ghost mut at: int = 0;
    while i < a.len() && i < b.len()
        invariant
            at == i,
            0 <= at <= a.len(),
            at <= b.len(),
            forall|j: int| 0 <= j < at ==> a@[j] == b@[j],
        decreases a.len() - at,
    {
        proof {
            lemma_text_order_skips(a@, b@, at);
            assert(a@.skip(at)[0] == a@[at]);
            assert(b@.skip(at)[0] == b@[at]);
        }
        if a[i] < b[i] {
            return Ordering::Less;
        }
        if a[i] > b[i] {
            return Ordering::Greater;
        }
        i = i + 1;
        proof {
            at = at + 1;
        }
    }
    proof {
        lemma_text_order_skips(a@, b@, at);
    }
    if i < b.len() {
        Ordering::Less
    } else if i < a.len() {
        Ordering::Greater
    } else {
        Ordering::Equal
    }
}

/// Whether `part` stands in `text` at the place `at`.
pub fn found_at(text: &Vec<char>, part: &Vec<char>, at: usize) -> (found: bool)
    ensures
        found == stands_at(text@, part@, at as int),
{
    if part.len() > text.len() || at > text.len() - part.len() {
        return false;
    }
    let mut i: usize = 0;
    while i < part.len()
        invariant
            i <= part.len(),
            at + part.len() <= text.len(),
            forall|j: int| 0 <= j < i ==> text@[at + j] == part@[j],
        decreases part.len() - i,
    {
        if text[at + i] != part[i] {
            assert(text@.subrange(at as int, at + part.len())[i as int] != part@[i as int]);
            return false;
        }
        i = i + 1;
    }
    assert(text@.subrange(at as int, at + part.len()) == part@);
    true
}

/// Whether `part` occurs somewhere in `text`.
pub fn found_in(part: &Vec<char>, text: &Vec<char>) -> (found: bool)
    ensures
        found == occurs_in(part@, text@),
{
    if part.len() > text.len() {
        assert(forall|at: int| !stands_at(text@, part@, at));
        return false;
    }
    let last = text.len() - part.len();
    let mut at: usize = 0;
    let mut more = true;
    while more
        invariant
            last == text.len() - part.len(),
            at <= last,
            more ==> forall|j: int| 0 <= j < at ==> !stands_at(text@, part@, j),
            !more ==> forall|j: int| 0 <= j <= last ==> !stands_at(text@, part@, j),
        decreases last - at + (if more { 1int } else { 0int }),
    {
        if found_at(text, part, at) {
            return true;
        }
        if at == last {
            more = false;
        } else {
            at = at + 1;
        }
    }
    assert(forall|j: int| !stands_at(text@, part@, j));
    false
}

impl Comparison {
    /// Whether the text `a` stands to the text `b` as the operator says: by
    /// lexicographic order for the six relational operators; `a` contains,
    /// starts with or ends with `b` for the other three.
    pub open spec fn holds_of_text(self, a: Seq<char>, b: Seq<char>) -> bool {
        match self {
            Comparison::Ne => a != b,
            Comparison::Eq => a == b,
            Comparison::Gt => text_order(a, b) == Ordering::Greater,
            Comparison::Ge => text_order(a, b) != Ordering::Less,
            Comparison::Lt => text_order(a, b) == Ordering::Less,
            Comparison::Le => text_order(a, b) != Ordering::Greater,
            Comparison::Contains => occurs_in(b, a),
            Comparison::StartsWith => begins_with(a, b),
            Comparison::EndsWith => ends_with(a, b),
        }
    }

    /// Compares two texts by the operator.
    pub fn compare_text(&self, a: &str, b: &str) -> (r: bool)
        ensures
            r == self.holds_of_text(a@, b@),
    {
        let x = chars_of(a);
        let y = chars_of(b);
        proof {
            lemma_text_order_equal(a@, b@);
        }
        match self {
            Comparison::Ne => !matches!(order_of_texts(&x, &y), Ordering::Equal),
            Comparison::Eq => matches!(order_of_texts(&x, &y), Ordering::Equal),
            Comparison::Gt => matches!(order_of_texts(&x, &y), Ordering::Greater),
            Comparison::Ge => !matches!(order_of_texts(&x, &y), Ordering::Less),
            Comparison::Lt => matches!(order_of_texts(&x, &y), Ordering::Less),
            Comparison::Le => !matches!(order_of_texts(&x, &y), Ordering::Greater),
            Comparison::Contains => found_in(&y, &x),
            Comparison::StartsWith => found_at(&x, &y, 0),
            Comparison::EndsWith => y.len() <= x.len() && found_at(&x, &y, x.len() - y.len()),
        }
    }
}

} // verus!
