//! Names and digits: the text that the compilers read and write.

use vstd::prelude::*;

verus! {

/// Whether `s` and `other` hold the same characters.
pub fn text_is(s: &str, other: &str) -> (r: bool)
    ensures
        r == (s@ == other@),
{
    let a = String::from_str(s);
    let b = String::from_str(other);
    a == b
}

/// Whether `c` is one of the ten digits.
pub open spec fn is_digit(c: char) -> bool {
    48 <= c as u32 <= 57
}

/// The number that the digit `c` stands for.
pub open spec fn digit_value(c: char) -> nat {
    (c as u32 - 48) as nat
}

/// Whether `s` is one digit or more and nothing else.
pub open spec fn all_digits(s: Seq<char>) -> bool {
    s.len() > 0 && forall|i: int| 0 <= i < s.len() ==> is_digit(#[trigger] s[i])
}

/// The number that `s` writes in base ten.
pub open spec fn decimal_value(s: Seq<char>) -> nat
    decreases s.len(),
{
    if s.len() == 0 {
        0
    } else {
        decimal_value(s.drop_last()) * 10 + digit_value(s.last())
    }
}

/// Whether `s` writes, in digits alone, a length that an index can hold.
pub open spec fn names_length(s: Seq<char>) -> bool {
    all_digits(s) && decimal_value(s) <= usize::MAX
}

/// A number written with more digits is no smaller than the number written by
/// the first of them.
pub proof fn lemma_decimal_prefix(s: Seq<char>, i: int)
    requires
        0 <= i <= s.len(),
        forall|k: int| 0 <= k < s.len() ==> is_digit(#[trigger] s[k]),
    ensures
        decimal_value(s.take(i)) <= decimal_value(s),
    decreases s.len() - i,
{
    if i == s.len() {
        assert(s.take(i) =~= s);
    } else {
        lemma_decimal_prefix(s, i + 1);
        assert(s.take(i + 1).drop_last() =~= s.take(i));
        assert(s.take(i + 1).last() == s[i]);
        assert(is_digit(s[i]));
    }
}

/// Reads a length written in base ten. `None` where `digits` is empty, holds
/// anything but digits, or writes a number that an index cannot hold.
pub fn parse_length(digits: &str) -> (r: Option<usize>)
    ensures
        r is Some <==> names_length(digits@),
        r matches Some(n) ==> n == decimal_value(digits@),
{
    let n = digits.unicode_len();
    if n == 0 {
        return None;
    }
    let mut acc: usize = 0;
    let mut i: usize = 0;
    while i < n
        invariant
            i <= n,
            n == digits@.len(),
            forall|k: int| 0 <= k < i ==> is_digit(#[trigger] digits@[k]),
            acc == decimal_value(digits@.take(i as int)),
        decreases n - i,
    {
        let c = digits.get_char(i);
        let v = c as u32;
        if v < 48 || v > 57 {
            assert(!is_digit(digits@[i as int]));
            return None;
        }
        let d = (v - 48) as usize;
        proof {
            assert(digits@.take(i + 1).drop_last() =~= digits@.take(i as int));
            assert(digits@.take(i + 1).last() == digits@[i as int]);
            if all_digits(digits@) {
                lemma_decimal_prefix(digits@, i + 1);
            }
        }
        let tens = match acc.checked_mul(10) {
            Some(t) => t,
            None => {
                return None;
            },
        };
        acc = match tens.checked_add(d) {
            Some(t) => t,
            None => {
                return None;
            },
        };
        i += 1;
    }
    assert(digits@.take(n as int) =~= digits@);
    Some(acc)
}

/// The uppercase mapping of `c`: one character or more.
pub uninterp spec fn uppercase_of(c: char) -> Seq<char>;

/// `char::to_uppercase` of the standard library, collected into a string. The
/// result is the uppercase mapping of `c`, which this crate names and does not
/// define.
#[verifier::external_body]
fn uppercase(c: char) -> (r: String)
    ensures
        r@ == uppercase_of(c),
{
    c.to_uppercase().collect()
}

/// The text `Set`, then `initial`, then `rest`.
pub open spec fn set_name(initial: Seq<char>, rest: Seq<char>) -> Seq<char> {
    seq!['S', 'e', 't'] + initial + rest
}

/// The name of the update variant for the field named `field`: `Set`, the
/// uppercase mapping of the name's first character, and the rest of the name.
pub open spec fn variant_name(field: Seq<char>) -> Seq<char>
    recommends
        field.len() > 0,
{
    set_name(uppercase_of(field[0]), field.skip(1))
}

/// The text `Set`, then `initial`, then `rest`.
pub fn set_name_from_parts(initial: &str, rest: &str) -> (r: String)
    ensures
        r@ == set_name(initial@, rest@),
{
    let mut name = String::from_str("Set");
    proof {
        reveal_strlit("Set");
        assert(name@ =~= seq!['S', 'e', 't']);
    }
    name.append(initial);
    name.append(rest);
    name
}

/// The name of the update variant for the field named `field`, or `None`
/// where `field` is empty.
pub fn update_variant_name(field: &str) -> (r: Option<String>)
    ensures
        field@.len() == 0 ==> r is None,
        field@.len() > 0 ==> (r matches Some(name) && name@ == variant_name(field@)),
{
    let n = field.unicode_len();
    if n == 0 {
        return None;
    }
    let initial = uppercase(field.get_char(0));
    let rest = field.substring_char(1, n);
    assert(rest@ =~= field@.skip(1));
    Some(set_name_from_parts(initial.as_str(), rest))
}

/// `name` followed by `Update`: the name of a record's update set.
pub open spec fn update_set_name(name: Seq<char>) -> Seq<char> {
    name + seq!['U', 'p', 'd', 'a', 't', 'e']
}

/// `name` followed by `Update`.
pub fn update_set_name_of(name: &str) -> (r: String)
    ensures
        r@ == update_set_name(name@),
{
    let mut out = String::from_str(name);
    proof {
        reveal_strlit("Update");
        assert("Update"@ =~= seq!['U', 'p', 'd', 'a', 't', 'e']);
    }
    out.append("Update");
    out
}

} // verus!
