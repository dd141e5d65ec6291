//! How the emitted type shows a value: the flags that are set, in ascending
//! order of their values.

use vstd::prelude::*;
use vstd::string::*;
use crate::bit_flags::BitFlags;
use crate::declaration::{Declaration, DeclarationView, VariantView};

verus! {

/// Where a variant with the given value goes into a sequence in ascending
/// order: behind the last variant that is not greater.
pub open spec fn position(sorted: Seq<VariantView>, value: u128) -> int
    decreases sorted.len(),
{
    if sorted.len() == 0 || sorted.last().value <= value {
        sorted.len() as int
    } else {
        position(sorted.drop_last(), value)
    }
}

/// The variants in ascending order of their values. Variants with the same
/// value stay in the order of their declaration.
pub open spec fn ascending(variants: Seq<VariantView>) -> Seq<VariantView>
    decreases variants.len(),
{
    if variants.len() == 0 {
        Seq::empty()
    } else {
        let front = ascending(variants.drop_last());
        front.insert(position(front, variants.last().value), variants.last())
    }
}

/// The values do not decrease along the sequence.
pub open spec fn sorted_by_value(variants: Seq<VariantView>) -> bool {
    forall|a: int, b: int|
        #![trigger variants[a], variants[b]]
        0 <= a < b < variants.len() ==> variants[a].value <= variants[b].value
}

/// The values increase along the sequence.
pub open spec fn strictly_ascending(variants: Seq<VariantView>) -> bool {
    forall|a: int, b: int|
        #![trigger variants[a], variants[b]]
        0 <= a < b < variants.len() ==> variants[a].value < variants[b].value
}

/// No two variants have the same value.
pub open spec fn distinct_values(variants: Seq<VariantView>) -> bool {
    forall|a: int, b: int|
        #![trigger variants[a], variants[b]]
        0 <= a < b < variants.len() ==> variants[a].value != variants[b].value
}

/// The two sequences hold the same variants.
pub open spec fn same_variants(a: Seq<VariantView>, b: Seq<VariantView>) -> bool {
    &&& a.len() == b.len()
    &&& forall|i: int| 0 <= i < a.len() ==> b.contains(#[trigger] a[i])
    &&& forall|i: int| 0 <= i < b.len() ==> a.contains(#[trigger] b[i])
}

/// A flag is listed for a value if it is not the empty case and all of its
/// bits are set in the value.
pub open spec fn is_shown(variant: VariantView, value: u128) -> bool {
    variant.value != 0 && value & variant.value == variant.value
}

/// The names of the variants that are listed for a value, in the order of
/// the sequence.
pub open spec fn shown_names(variants: Seq<VariantView>, value: u128) -> Seq<Seq<char>>
    decreases variants.len(),
{
    if variants.len() == 0 {
        Seq::empty()
    } else {
        let front = shown_names(variants.drop_last(), value);
        if is_shown(variants.last(), value) {
            front.push(variants.last().name)
        } else {
            front
        }
    }
}

/// The texts one after the other, with the separator between each two.
pub open spec fn joined(texts: Seq<Seq<char>>, separator: Seq<char>) -> Seq<char>
    decreases texts.len(),
{
    if texts.len() == 0 {
        Seq::empty()
    } else if texts.len() == 1 {
        texts[0]
    } else {
        joined(texts.drop_last(), separator) + separator + texts.last()
    }
}

impl DeclarationView {
    /// What the emitted type shows for a value: the name of the type, and in
    /// parentheses the name of the empty case for zero, else the names of
    /// the flags whose bits are all set, in ascending order of their values,
    /// with ` | ` between them.
    pub open spec fn display_text(self, value: u128) -> Seq<char> {
        let inner = if value == 0 {
            self.args.none_case
        } else {
            joined(shown_names(ascending(self.variants), value), " | "@)
        };
        self.name + " ("@ + inner + ")"@
    }
}

/// The position is in range, everything from it on is greater than the
/// value, and what stands just before it is not.
pub proof fn lemma_position(sorted: Seq<VariantView>, value: u128)
    ensures
        0 <= position(sorted, value) <= sorted.len(),
        forall|k: int|
            position(sorted, value) <= k < sorted.len() ==> (#[trigger] sorted[k]).value > value,
        position(sorted, value) > 0 ==> sorted[position(sorted, value) - 1].value <= value,
    decreases sorted.len(),
{
    if sorted.len() == 0 || sorted.last().value <= value {
    } else {
        let front = sorted.drop_last();
        lemma_position(front, value);
        assert forall|k: int| position(sorted, value) <= k < sorted.len() implies (
        #[trigger] sorted[k]).value > value by {
            if k < front.len() {
                assert(front[k] == sorted[k]);
            }
        }
    }
}

/// Sorting keeps the variants and their number, and puts them in ascending
/// order; where no two have the same value, each is smaller than the next.
pub proof fn lemma_ascending(variants: Seq<VariantView>)
    ensures
        same_variants(variants, ascending(variants)),
        sorted_by_value(ascending(variants)),
        distinct_values(variants) ==> strictly_ascending(ascending(variants)),
    decreases variants.len(),
{
    let result = ascending(variants);
    if variants.len() > 0 {
        let rest = variants.drop_last();
        let last = variants.last();
        let front = ascending(rest);
        lemma_ascending(rest);
        lemma_position(front, last.value);
        let p = position(front, last.value);
        assert(result == front.insert(p, last));
        assert(result.len() == variants.len());
        assert forall|k: int| 0 <= k < result.len() implies #[trigger] result[k] == (if k < p {
            front[k]
        } else if k == p {
            last
        } else {
            front[k - 1]
        }) by {}
        assert forall|i: int| 0 <= i < variants.len() implies result.contains(
            #[trigger] variants[i],
        ) by {
            if i < rest.len() {
                assert(rest[i] == variants[i]);
                assert(front.contains(rest[i]));
                let k = choose|k: int| 0 <= k < front.len() && front[k] == rest[i];
                if k < p {
                    assert(result[k] == variants[i]);
                } else {
                    assert(result[k + 1] == variants[i]);
                }
            } else {
                assert(result[p] == variants[i]);
            }
        }
        assert forall|i: int| 0 <= i < result.len() implies variants.contains(
            #[trigger] result[i],
        ) by {
            if i == p {
                assert(variants[variants.len() - 1] == result[i]);
            } else {
                let k = if i < p {
                    i
                } else {
                    i - 1
                };
                assert(front[k] == result[i]);
                assert(rest.contains(front[k]));
                let j = choose|j: int| 0 <= j < rest.len() && rest[j] == front[k];
                assert(variants[j] == result[i]);
            }
        }
        assert forall|a: int, b: int| 0 <= a < b < result.len() implies (#[trigger] result[a]).value
            <= (#[trigger] result[b]).value by {
            lemma_insert_sorted(front, last, a, b);
        }
        if distinct_values(variants) {
            assert forall|a: int, b: int| 0 <= a < b < rest.len() implies (#[trigger] rest[a]).value
                != (#[trigger] rest[b]).value by {
                assert(rest[a] == variants[a]);
                assert(rest[b] == variants[b]);
            }
            assert forall|a: int, b: int| 0 <= a < b < result.len() implies (
            #[trigger] result[a]).value < (#[trigger] result[b]).value by {
                lemma_insert_sorted(front, last, a, b);
                if result[a].value == result[b].value {
                    let ia = choose|j: int| 0 <= j < variants.len() && variants[j] == result[a];
                    let ib = choose|j: int| 0 <= j < variants.len() && variants[j] == result[b];
                    if a != p && b != p {
                        let ka = if a < p {
                            a
                        } else {
                            a - 1
                        };
                        let kb = if b < p {
                            b
                        } else {
                            b - 1
                        };
                        assert(front[ka].value < front[kb].value);
                    } else {
                        let k = if a == p {
                            b - 1
                        } else {
                            a
                        };
                        assert(front[k].value == last.value);
                        assert(rest.contains(front[k]));
                        let j = choose|j: int| 0 <= j < rest.len() && rest[j] == front[k];
                        assert(variants[j].value == variants[variants.len() - 1].value);
                    }
                }
            }
        }
    }
}

/// Two entries of a sorted sequence into which a variant was put at its
/// position stand in order.
proof fn lemma_insert_sorted(front: Seq<VariantView>, last: VariantView, a: int, b: int)
    requires
        sorted_by_value(front),
        0 <= a < b <= front.len(),
    ensures
        front.insert(position(front, last.value), last)[a].value <= front.insert(
            position(front, last.value),
            last,
        )[b].value,
{
    lemma_position(front, last.value);
    let p = position(front, last.value);
    let result = front.insert(p, last);
    if b < p {
        assert(result[a] == front[a] && result[b] == front[b]);
    } else if b == p {
        assert(result[a] == front[a] && result[b] == last);
        assert(front[a].value <= front[p - 1].value);
    } else if a < p {
        assert(result[a] == front[a] && result[b] == front[b - 1]);
        if a < b - 1 {
            assert(front[a].value <= front[b - 1].value);
        }
    } else if a == p {
        assert(result[a] == last && result[b] == front[b - 1]);
        assert(front[b - 1].value > last.value);
    } else {
        assert(result[a] == front[a - 1] && result[b] == front[b - 1]);
    }
}

/// Two sequences that hold the same variants, each in strictly ascending
/// order, are the same sequence.
proof fn lemma_ascending_unique(a: Seq<VariantView>, b: Seq<VariantView>)
    requires
        same_variants(a, b),
        strictly_ascending(a),
        strictly_ascending(b),
    ensures
        a == b,
    decreases a.len(),
{
    if a.len() > 0 {
        let n = a.len() - 1;
        assert(b.contains(a[n]));
        assert(a.contains(b[n]));
        let j = choose|j: int| 0 <= j < b.len() && b[j] == a[n];
        let i = choose|i: int| 0 <= i < a.len() && a[i] == b[n];
        if i < n {
            assert(a[i].value < a[n].value);
            if j < n {
                assert(b[j].value < b[n].value);
            }
        }
        assert(a[n] == b[n]);
        let fa = a.drop_last();
        let fb = b.drop_last();
        assert forall|k: int| 0 <= k < fa.len() implies fb.contains(#[trigger] fa[k]) by {
            assert(fa[k] == a[k]);
            assert(b.contains(a[k]));
            let m = choose|m: int| 0 <= m < b.len() && b[m] == a[k];
            if m == n {
                assert(a[k].value < a[n].value);
            }
            assert(fb[m] == fa[k]);
        }
        assert forall|k: int| 0 <= k < fb.len() implies fa.contains(#[trigger] fb[k]) by {
            assert(fb[k] == b[k]);
            assert(a.contains(b[k]));
            let m = choose|m: int| 0 <= m < a.len() && a[m] == b[k];
            if m == n {
                assert(b[k].value < b[n].value);
            }
            assert(fa[m] == fb[k]);
        }
        assert forall|x: int, y: int| 0 <= x < y < fa.len() implies (#[trigger] fa[x]).value < (
        #[trigger] fa[y]).value by {
            assert(fa[x] == a[x] && fa[y] == a[y]);
        }
        assert forall|x: int, y: int| 0 <= x < y < fb.len() implies (#[trigger] fb[x]).value < (
        #[trigger] fb[y]).value by {
            assert(fb[x] == b[x] && fb[y] == b[y]);
        }
        lemma_ascending_unique(fa, fb);
        assert(a =~= fa.push(a[n]));
        assert(b =~= fb.push(b[n]));
    } else {
        assert(a =~= b);
    }
}

/// The order in which flags are shown does not depend on the order in which
/// they were declared: two declarations of the same flags, no two of them
/// with the same value, show every value alike. The flags come in strictly
/// ascending order of their values.
pub proof fn lemma_display_order(a: DeclarationView, b: DeclarationView, value: u128)
    requires
        same_variants(a.variants, b.variants),
        distinct_values(a.variants),
        distinct_values(b.variants),
        a.name == b.name,
        a.args.none_case == b.args.none_case,
    ensures
        strictly_ascending(ascending(a.variants)),
        ascending(a.variants) == ascending(b.variants),
        a.display_text(value) == b.display_text(value),
{
    lemma_ascending(a.variants);
    lemma_ascending(b.variants);
    let sa = ascending(a.variants);
    let sb = ascending(b.variants);
    assert forall|i: int| 0 <= i < sa.len() implies sb.contains(#[trigger] sa[i]) by {
        assert(a.variants.contains(sa[i]));
        let j = choose|j: int| 0 <= j < a.variants.len() && a.variants[j] == sa[i];
        assert(b.variants.contains(a.variants[j]));
        let k = choose|k: int| 0 <= k < b.variants.len() && b.variants[k] == sa[i];
        assert(sb.contains(b.variants[k]));
    }
    assert forall|i: int| 0 <= i < sb.len() implies sa.contains(#[trigger] sb[i]) by {
        assert(b.variants.contains(sb[i]));
        let j = choose|j: int| 0 <= j < b.variants.len() && b.variants[j] == sb[i];
        assert(a.variants.contains(b.variants[j]));
        let k = choose|k: int| 0 <= k < a.variants.len() && a.variants[k] == sb[i];
        assert(sa.contains(a.variants[k]));
    }
    lemma_ascending_unique(sa, sb);
}

impl Declaration {
    /// The indices of the flags in ascending order of their values.
    pub fn ascending_order(&self) -> (order: Vec<usize>)
        ensures
            order@.len() == self@.variants.len(),
            forall|k: int|
                0 <= k < order@.len() ==> (#[trigger] order@[k]) < self@.variants.len()
                    && self@.variants[order@[k] as int] == ascending(self@.variants)[k],
    {
        let ghost views = self@.variants;
        let mut order: Vec<usize> = Vec::new();
        let mut index: usize = 0;
        while index < self.variants.len()
            invariant
                views == self@.variants,
                index <= self.variants.len(),
                order@.len() == index,
                ascending(views.take(index as int)).len() == index,
                forall|k: int|
                    0 <= k < index ==> (#[trigger] order@[k]) < index && views[order@[k] as int]
                        == ascending(views.take(index as int))[k],
            decreases self.variants.len() - index,
        {
            let ghost sorted = ascending(views.take(index as int));
            let value = self.variants[index].value;
            let mut place: usize = index;
            proof {
                assert(sorted.take(index as int) =~= sorted);
            }
            while place > 0 && self.variants[order[place - 1]].value > value
                invariant
                    views == self@.variants,
                    index < self.variants.len(),
                    order@.len() == index,
                    sorted.len() == index,
                    place <= index,
                    value == views[index as int].value,
                    forall|k: int|
                        0 <= k < index ==> (#[trigger] order@[k]) < index && views[order@[k] as int]
                            == sorted[k],
                    position(sorted, value) == position(sorted.take(place as int), value),
                decreases place,
            {
                proof {
                    let head = sorted.take(place as int);
                    assert(head.last() == sorted[place - 1]);
                    assert(head.drop_last() =~= sorted.take(place - 1));
                }
                place -= 1;
            }
            proof {
                let head = sorted.take(place as int);
                if place > 0 {
                    assert(head.last() == sorted[place - 1]);
                }
                assert(position(sorted, value) == place);
                let next = views.take(index + 1);
                assert(next.drop_last() =~= views.take(index as int));
                assert(next.last() == views[index as int]);
                assert(ascending(next) == sorted.insert(place as int, views[index as int]));
            }
            order.insert(place, index);
            proof {
                let after = ascending(views.take(index + 1));
                assert forall|k: int| 0 <= k < index + 1 implies (#[trigger] order@[k]) < index + 1
                    && views[order@[k] as int] == after[k] by {}
            }
            index += 1;
        }
        proof {
            assert(views.take(index as int) =~= views);
        }
        order
    }

    /// Renders a value as the emitted type does: `Name (A | B)`, the flags
    /// in ascending order of their values, or `Name (Empty)` for zero.
    pub fn display(&self, flags: BitFlags) -> (text: String)
        ensures
            text@ == self@.display_text(flags.value),
    {
        let value = flags.value;
        let mut text = self.name.clone();
        text.append(" (");
        if value == 0 {
            text.append(self.args.none_case.as_str());
        } else {
            let order = self.ascending_order();
            let ghost sorted = ascending(self@.variants);
            let ghost head = text@;
            let mut first = true;
            let mut index: usize = 0;
            proof {
                lemma_ascending(self@.variants);
            }
            while index < order.len()
                invariant
                    index <= order@.len(),
                    order@.len() == self@.variants.len(),
                    sorted.len() == order@.len(),
                    forall|k: int|
                        0 <= k < order@.len() ==> (#[trigger] order@[k]) < self@.variants.len()
                            && self@.variants[order@[k] as int] == sorted[k],
                    first == (shown_names(sorted.take(index as int), value).len() == 0),
                    text@ == head + joined(shown_names(sorted.take(index as int), value), " | "@),
                decreases order@.len() - index,
            {
                let variant = &self.variants[order[index]];
                proof {
                    let next = sorted.take(index + 1);
                    assert(next.drop_last() =~= sorted.take(index as int));
                    assert(next.last() == variant@);
                }
                if variant.value != 0 && value & variant.value == variant.value {
                    if !first {
                        text.append(" | ");
                    }
                    first = false;
                    text.append(variant.name.as_str());
                    proof {
                        let names = shown_names(sorted.take(index + 1), value);
                        assert(names.drop_last() =~= shown_names(sorted.take(index as int), value));
                        assert(text@ =~= head + joined(names, " | "@));
                    }
                }
                index += 1;
            }
            proof {
                assert(sorted.take(index as int) =~= sorted);
            }
        }
        text.append(")");
        proof {
            assert(text@ =~= self@.display_text(value));
        }
        text
    }
}

} // verus!
