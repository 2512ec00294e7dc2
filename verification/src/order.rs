//! Lexicographic order of texts, and sorting by it.

use vstd::prelude::*;
use vstd::relations::{sorted_by, total_ordering};
use crate::text::chars_of;

verus! {

/// `a` comes before `b` or equals it in lexicographic order of characters
/// (the order of their UTF-8 bytes, which is the order of `String`).
pub open spec fn text_le(a: Seq<char>, b: Seq<char>) -> bool
    decreases a.len(),
{
    if a.len() == 0 {
        true
    } else if b.len() == 0 {
        false
    } else if a[0] != b[0] {
        (a[0] as u32) < (b[0] as u32)
    } else {
        text_le(a.drop_first(), b.drop_first())
    }
}

/// [`text_le`] as a relation.
pub open spec fn text_order() -> spec_fn(Seq<char>, Seq<char>) -> bool {
    |a: Seq<char>, b: Seq<char>| text_le(a, b)
}

proof fn lemma_char_u32_injective(x: char, y: char)
    ensures
        (x as u32) == (y as u32) ==> x == y,
{
}

proof fn lemma_le_reflexive(a: Seq<char>)
    ensures
        text_le(a, a),
    decreases a.len(),
{
    if a.len() > 0 {
        lemma_le_reflexive(a.drop_first());
    }
}

proof fn lemma_le_antisymmetric(a: Seq<char>, b: Seq<char>)
    requires
        text_le(a, b),
        text_le(b, a),
    ensures
        a == b,
    decreases a.len(),
{
    if a.len() > 0 && b.len() > 0 {
        if a[0] == b[0] {
            lemma_le_antisymmetric(a.drop_first(), b.drop_first());
            assert(a =~= seq![a[0]] + a.drop_first());
            assert(b =~= seq![b[0]] + b.drop_first());
        }
    }
    if a.len() == 0 && b.len() == 0 {
        assert(a =~= b);
    }
}

proof fn lemma_le_transitive(a: Seq<char>, b: Seq<char>, c: Seq<char>)
    requires
        text_le(a, b),
        text_le(b, c),
    ensures
        text_le(a, c),
    decreases a.len(),
{
    if a.len() > 0 && b.len() > 0 && c.len() > 0 {
        if a[0] == b[0] && b[0] == c[0] {
            lemma_le_transitive(a.drop_first(), b.drop_first(), c.drop_first());
        } else {
            lemma_char_u32_injective(a[0], c[0]);
        }
    }
}

proof fn lemma_le_total(a: Seq<char>, b: Seq<char>)
    ensures
        text_le(a, b) || text_le(b, a),
    decreases a.len(),
{
    if a.len() > 0 && b.len() > 0 {
        if a[0] == b[0] {
            lemma_le_total(a.drop_first(), b.drop_first());
        } else {
            lemma_char_u32_injective(a[0], b[0]);
        }
    }
}

/// Lexicographic order is a total order.
pub proof fn lemma_text_order_total()
    ensures
        total_ordering(text_order()),
{
    assert forall|a: Seq<char>| #[trigger] text_order()(a, a) by {
        lemma_le_reflexive(a);
    }
    assert forall|a: Seq<char>, b: Seq<char>| #[trigger] text_order()(a, b) && #[trigger] text_order()(b, a) implies a == b by {
        lemma_le_antisymmetric(a, b);
    }
    assert forall|a: Seq<char>, b: Seq<char>, c: Seq<char>| #[trigger] text_order()(a, b) && #[trigger] text_order()(b, c) implies text_order()(a, c) by {
        lemma_le_transitive(a, b, c);
    }
    assert forall|a: Seq<char>, b: Seq<char>| #[trigger] text_order()(a, b) || #[trigger] text_order()(b, a) by {
        lemma_le_total(a, b);
    }
}

/// A text that is a prefix of another comes first.
pub proof fn lemma_prefix_le(a: Seq<char>, b: Seq<char>)
    requires
        a.is_prefix_of(b),
    ensures
        text_le(a, b),
    decreases a.len(),
{
    if a.len() > 0 {
        assert(a.drop_first().is_prefix_of(b.drop_first())) by {
            assert(a.drop_first() =~= b.drop_first().subrange(0, a.len() - 1));
        }
        lemma_prefix_le(a.drop_first(), b.drop_first());
    }
}

proof fn lemma_le_skip(a: Seq<char>, b: Seq<char>, i: int)
    requires
        0 <= i < a.len(),
        i < b.len(),
        a[i] == b[i],
    ensures
        text_le(a.skip(i), b.skip(i)) == text_le(a.skip(i + 1), b.skip(i + 1)),
{
    assert(a.skip(i).drop_first() =~= a.skip(i + 1));
    assert(b.skip(i).drop_first() =~= b.skip(i + 1));
}

/// Whether `a` comes before `b` or equals it (see [`text_le`]).
pub fn text_le_exec(a: &Vec<char>, b: &Vec<char>) -> (r: bool)
    ensures
        r == text_le(a@, b@),
{
    let mut i: usize = 0;
    assert(a@.skip(0) =~= a@);
    assert(b@.skip(0) =~= b@);
    while i < a.len() && i < b.len() && a[i] == b[i]
        invariant
            i <= a.len(),
            i <= b.len(),
            text_le(a@, b@) == text_le(a@.skip(i as int), b@.skip(i as int)),
        decreases a.len() - i,
    {
        proof {
            lemma_le_skip(a@, b@, i as int);
        }
        i += 1;
    }
    if i == a.len() {
        return true;
    }
    if i == b.len() {
        return false;
    }
    assert(a@.skip(i as int)[0] == a@[i as int]);
    assert(b@.skip(i as int)[0] == b@[i as int]);
    (a[i] as u32) < (b[i] as u32)
}

/// `texts` sorted in lexicographic order (see [`text_le`]); texts that are
/// equal keep their relative order.
pub fn sort_texts(texts: &Vec<String>) -> (r: Vec<String>)
    ensures
        sorted_by(r.deep_view(), text_order()),
        r.deep_view().to_multiset() == texts.deep_view().to_multiset(),
        r.deep_view() == texts.deep_view().sort_by(text_order()),
{
    broadcast use vstd::seq_lib::group_to_multiset_ensures;

    proof {
        lemma_text_order_total();
    }
    let ghost input = texts.deep_view();
    let mut out: Vec<String> = Vec::new();
    let mut i: usize = 0;
    while i < texts.len()
        invariant
            input == texts.deep_view(),
            total_ordering(text_order()),
            i <= texts.len(),
            sorted_by(out.deep_view(), text_order()),
            out.deep_view().to_multiset() == input.take(i as int).to_multiset(),
        decreases texts.len() - i,
    {
        let x = texts[i].clone();
        let xc = chars_of(x.as_str());
        let mut j: usize = 0;
        while j < out.len()
            invariant
                j <= out.len(),
                xc@ == x@,
                forall|k: int| 0 <= k < j ==> text_le(#[trigger] out.deep_view()[k], x@),
            ensures
                j <= out.len(),
                forall|k: int| 0 <= k < j ==> text_le(#[trigger] out.deep_view()[k], x@),
                j < out.len() ==> !text_le(out.deep_view()[j as int], x@),
            decreases out.len() - j,
        {
            let oc = chars_of(out[j].as_str());
            if !text_le_exec(&oc, &xc) {
                break;
            }
            j += 1;
        }
        let ghost before = out.deep_view();
        proof {
            if j < before.len() {
                lemma_le_total(before[j as int], x@);
            }
        }
        out.insert(j, x);
        proof {
            assert(out.deep_view() =~= before.insert(j as int, x@));
            assert forall|a: int, b: int| 0 <= a < b < out.deep_view().len() implies #[trigger] text_order()(
                out.deep_view()[a],
                out.deep_view()[b],
            ) by {
                let s = out.deep_view();
                if a < j && b == j {
                } else if a == j && b > j {
                    assert(text_le(x@, before[j as int]));
                    if b - 1 > j {
                        assert(text_order()(before[j as int], before[b - 1]));
                    } else {
                        lemma_le_reflexive(before[j as int]);
                    }
                    lemma_le_transitive(x@, before[j as int], before[b - 1]);
                } else if a < j && b > j {
                    assert(text_order()(before[a], before[b - 1]));
                } else if a > j {
                    assert(text_order()(before[a - 1], before[b - 1]));
                } else {
                    assert(text_order()(before[a], before[b]));
                }
            }
            assert(input.take(i + 1) =~= input.take(i as int).push(input[i as int]));
            assert(x@ == input[i as int]);
            vstd::seq_lib::to_multiset_build(input.take(i as int), input[i as int]);
            vstd::seq_lib::to_multiset_insert(before, j as int, x@);
        }
        i += 1;
    }
    proof {
        assert(input.take(texts.len() as int) =~= input);
        input.lemma_sort_by_ensures(text_order());
        vstd::seq_lib::lemma_sorted_unique(out.deep_view(), input.sort_by(text_order()), text_order());
    }
    out
}

} // verus!
