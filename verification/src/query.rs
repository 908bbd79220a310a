//! Placeholders for queries that select by a set of keys. The keys
//! themselves never become part of the query text.

use crate::text::{decimal_digits, to_decimal};
use vstd::prelude::*;

verus! {

/// The placeholder of the parameter with the given number: a question mark
/// and the number in decimal.
pub open spec fn placeholder(number: nat) -> Seq<char> {
    seq!['?'] + decimal_digits(number)
}

/// The placeholders of the parameters one to `count`, separated by a comma
/// and a space.
pub open spec fn placeholder_list(count: nat) -> Seq<char>
    decreases count,
{
    if count == 0 {
        Seq::empty()
    } else if count == 1 {
        placeholder(1)
    } else {
        placeholder_list((count - 1) as nat) + seq![',', ' '] + placeholder(count)
    }
}

/// Writes the placeholders for `count` keys.
pub fn in_clause_placeholders(count: usize) -> (list: String)
    ensures
        list@ == placeholder_list(count as nat),
{
    let mut list = String::new();
    let mut i: usize = 0;
    while i < count
        invariant
            i <= count,
            list@ == placeholder_list(i as nat),
        decreases count - i,
    {
        proof {
            reveal_strlit(", ");
            reveal_strlit("?");
            assert(", "@ =~= seq![',', ' ']);
            assert("?"@ =~= seq!['?']);
        }
        let ghost before = list@;
        if i > 0 {
            list.append(", ");
        }
        list.append("?");
        let number = to_decimal((i + 1) as u64);
        list.append(number.as_str());
        proof {
            if i == 0 {
                assert(list@ =~= placeholder(1));
            } else {
                assert(list@ =~= before + seq![',', ' '] + placeholder((i + 1) as nat));
            }
        }
        i = i + 1;
    }
    list
}

} // verus!
