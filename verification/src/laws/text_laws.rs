//! What the operations on text are for.

use vstd::prelude::*;

use crate::text::contains;
use crate::text::decimal;
use crate::text::occurs_at;
use crate::text::push_decimal;
use crate::text::unquoted;
use crate::text::without_quotes;

verus! {

/// Whether a character is a decimal digit.
pub open spec fn is_digit(c: char) -> bool {
    '0' <= c && c <= '9'
}

/// The number that digits stand for.
pub open spec fn number(digits: Seq<char>) -> int
    decreases digits.len(),
{
    if digits.len() == 0 {
        0
    } else {
        10 * number(digits.drop_last()) + (digits.last() as int - '0' as int)
    }
}

/// The decimal notation of a number has digits only, none of them a leading zero, and stands for that
/// number.
proof fn lemma_decimal(n: nat)
    ensures
        decimal(n).len() > 0,
        forall|i: int| 0 <= i < decimal(n).len() ==> is_digit(#[trigger] decimal(n)[i]),
        n > 0 ==> decimal(n)[0] != '0',
        n == 0 ==> decimal(n).len() == 1,
        number(decimal(n)) == n,
    decreases n,
{
    reveal_with_fuel(number, 2);
    if n < 10 {
        assert(decimal(n).drop_last() =~= Seq::<char>::empty());
    } else {
        lemma_decimal(n / 10);
        assert(decimal(n).drop_last() =~= decimal(n / 10));
        assert(decimal(n)[0] == decimal(n / 10)[0]);
    }
}

/// Writing a number appends digits that stand for that number, without a leading zero.
pub proof fn law_number_written(out: &mut String, n: usize)
    requires
        call_ensures(push_decimal, (out, n), ()),
    ensures
        ({
            let before = old(out)@;
            let after = final(out)@;
            let digits = after.skip(before.len() as int);
            &&& after.len() > before.len()
            &&& after.take(before.len() as int) == before
            &&& forall|i: int| 0 <= i < digits.len() ==> is_digit(#[trigger] digits[i])
            &&& number(digits) == n
            &&& digits[0] == '0' ==> digits.len() == 1
        }),
{
    lemma_decimal(n as nat);
    let before = old(out)@;
    let after = final(out)@;
    assert(after.take(before.len() as int) =~= before);
    assert(after.skip(before.len() as int) =~= decimal(n as nat));
}

/// Taking quotes out of two texts and putting the results together is taking them out of both
/// together; a quote gives nothing, and any other character itself.
pub proof fn law_quotes_taken_out(
    a: &str,
    b: &str,
    both: &str,
    from_a: String,
    from_b: String,
    from_both: String,
)
    requires
        call_ensures(without_quotes, (a,), from_a),
        call_ensures(without_quotes, (b,), from_b),
        call_ensures(without_quotes, (both,), from_both),
        both@ == a@ + b@,
    ensures
        from_both@ == from_a@ + from_b@,
        a@.len() == 0 ==> from_a@.len() == 0,
        a@.len() == 1 && a@[0] == '"' ==> from_a@.len() == 0,
        a@.len() == 1 && a@[0] != '"' ==> from_a@ == a@,
{
    Seq::filter_distributes_over_add(a@, b@, |c: char| c != '"');
    reveal_with_fuel(Seq::filter, 2);
    if a@.len() == 1 {
        assert(a@.drop_last() =~= Seq::<char>::empty());
        assert(seq![a@[0]] =~= a@);
    }
}

/// What quotes are taken out of keeps all its other characters, in order.
pub proof fn law_unquoted_parts(a: Seq<char>, b: Seq<char>, c: char)
    ensures
        unquoted(a + b) == unquoted(a) + unquoted(b),
        unquoted(seq!['"']) == Seq::<char>::empty(),
        c != '"' ==> unquoted(seq![c]) == seq![c],
{
    Seq::filter_distributes_over_add(a, b, |c: char| c != '"');
    reveal_with_fuel(Seq::filter, 2);
    assert(seq![c].drop_last() =~= Seq::<char>::empty());
    assert(seq!['"'].drop_last() =~= Seq::<char>::empty());
    assert(unquoted(seq!['"']) =~= Seq::<char>::empty());
    assert(c != '"' ==> unquoted(seq![c]) =~= seq![c]);
}

/// A text is found in another exactly where that is some text, the text itself and some text again.
pub proof fn law_contains(whole: &str, part: &str, res: bool)
    requires
        call_ensures(contains, (whole, part), res),
    ensures
        res ==> exists|before: Seq<char>, behind: Seq<char>|
            whole@ == #[trigger] (before + part@ + behind),
        forall|before: Seq<char>, behind: Seq<char>|
            whole@ == #[trigger] (before + part@ + behind) ==> res,
{
    if res {
        let i = choose|i: int| occurs_at(whole@, part@, i);
        let before = whole@.take(i);
        let behind = whole@.skip(i + part@.len());
        assert(whole@ =~= before + part@ + behind);
    }
    assert forall|before: Seq<char>, behind: Seq<char>|
        whole@ == #[trigger] (before + part@ + behind) implies res by {
        assert(whole@.subrange(before.len() as int, (before.len() + part@.len()) as int) =~= part@);
        assert(occurs_at(whole@, part@, before.len() as int));
    }
}

} // verus!
