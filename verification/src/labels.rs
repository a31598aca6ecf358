//! The weekday header row: seven fixed labels, Sunday first.

use vstd::prelude::*;

verus! {

/// The header labels as character sequences, Sunday first: the order in
/// which the grid's columns are labelled.
pub open spec fn spec_weekday_labels() -> Seq<Seq<char>> {
    seq!["Su"@, "Mo"@, "Tu"@, "We"@, "Th"@, "Fr"@, "Sa"@]
}

/// The constant weekday header row: exactly seven labels, one per grid
/// column, Sunday first, the same on every call.
pub fn weekday_labels() -> (r: Vec<&'static str>)
    ensures
        r@.len() == 7,
        forall|i: int| 0 <= i < 7 ==> r@[i]@ == spec_weekday_labels()[i],
{
    let mut v: Vec<&'static str> = Vec::new();
    v.push("Su");
    v.push("Mo");
    v.push("Tu");
    v.push("We");
    v.push("Th");
    v.push("Fr");
    v.push("Sa");
    v
}

/// Law: the seven weekday labels are pairwise distinct.
pub proof fn lemma_weekday_labels_distinct()
    ensures
        forall|i: int, j: int|
            0 <= i < 7 && 0 <= j < 7 && i != j ==> spec_weekday_labels()[i]
                != spec_weekday_labels()[j],
{
    reveal_strlit("Su");
    reveal_strlit("Mo");
    reveal_strlit("Tu");
    reveal_strlit("We");
    reveal_strlit("Th");
    reveal_strlit("Fr");
    reveal_strlit("Sa");
    assert forall|i: int, j: int|
        0 <= i < 7 && 0 <= j < 7 && i != j implies spec_weekday_labels()[i]
        != spec_weekday_labels()[j] by {
        let s = spec_weekday_labels();
        assert(s[0][0] == 'S' && s[0][1] == 'u');
        assert(s[1][0] == 'M' && s[1][1] == 'o');
        assert(s[2][0] == 'T' && s[2][1] == 'u');
        assert(s[3][0] == 'W' && s[3][1] == 'e');
        assert(s[4][0] == 'T' && s[4][1] == 'h');
        assert(s[5][0] == 'F' && s[5][1] == 'r');
        assert(s[6][0] == 'S' && s[6][1] == 'a');
    }
}

} // verus!
