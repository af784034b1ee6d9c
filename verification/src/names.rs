//! The order of names: the order of byte strings.

use vstd::prelude::*;

verus! {

/// The order of names: byte by byte, the first difference decides, and a
/// name comes before every name that it is a proper prefix of.
pub open spec fn name_less(first: Seq<u8>, second: Seq<u8>) -> bool
    decreases first.len(),
{
    if second.len() == 0 {
        false
    } else if first.len() == 0 {
        true
    } else if first[0] != second[0] {
        first[0] < second[0]
    } else {
        name_less(first.drop_first(), second.drop_first())
    }
}

/// No name comes before itself.
pub proof fn lemma_name_less_irreflexive(name: Seq<u8>)
    ensures
        !name_less(name, name),
    decreases name.len(),
{
    if name.len() > 0 {
        lemma_name_less_irreflexive(name.drop_first());
    }
}

/// Of two different names one comes before the other.
pub proof fn lemma_name_less_total(first: Seq<u8>, second: Seq<u8>)
    ensures
        first == second || name_less(first, second) || name_less(second, first),
    decreases first.len(),
{
    if first.len() > 0 && second.len() > 0 && first[0] == second[0] {
        lemma_name_less_total(first.drop_first(), second.drop_first());
        if first.drop_first() == second.drop_first() {
            assert(first =~= seq![first[0]] + first.drop_first());
            assert(second =~= seq![second[0]] + second.drop_first());
        }
    } else if first.len() == 0 && second.len() == 0 {
        assert(first =~= second);
    }
}

/// Two names never come before each other.
pub proof fn lemma_name_less_asymmetric(first: Seq<u8>, second: Seq<u8>)
    requires
        name_less(first, second),
    ensures
        !name_less(second, first),
    decreases first.len(),
{
    if first.len() > 0 && second.len() > 0 && first[0] == second[0] {
        lemma_name_less_asymmetric(first.drop_first(), second.drop_first());
    }
}

/// The order of names is transitive.
pub proof fn lemma_name_less_transitive(first: Seq<u8>, second: Seq<u8>, third: Seq<u8>)
    requires
        name_less(first, second),
        name_less(second, third),
    ensures
        name_less(first, third),
    decreases first.len(),
{
    if first.len() > 0 && first[0] == second[0] && second[0] == third[0] {
        lemma_name_less_transitive(
            first.drop_first(),
            second.drop_first(),
            third.drop_first(),
        );
    }
}

/// Whether `first` comes before `second` in the order of names.
pub fn name_precedes(first: &[u8], second: &[u8]) -> (less: bool)
    ensures
        less == name_less(first@, second@),
{
    let mut index: usize = 0;
    assert(first@.skip(0) =~= first@ && second@.skip(0) =~= second@);
    while index < first.len() && index < second.len()
        invariant
            index <= first.len(),
            index <= second.len(),
            name_less(first@, second@) == name_less(
                first@.skip(index as int),
                second@.skip(index as int),
            ),
        decreases first.len() - index,
    {
        if first[index] != second[index] {
            return first[index] < second[index];
        }
        proof {
            assert(first@.skip(index as int).drop_first() =~= first@.skip(index + 1));
            assert(second@.skip(index as int).drop_first() =~= second@.skip(index + 1));
        }
        index += 1;
    }
    index < second.len()
}

} // verus!
