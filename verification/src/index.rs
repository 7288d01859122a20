//! The reading of several components of a value at once: `c.rgb` stands
//! for the array of `c.r()`, `c.g()` and `c.b()`.

use vstd::prelude::*;
use crate::text::push_char;

verus! {

/// The call of the method named by one character, on `base`.
pub open spec fn component_call(base: Seq<char>, component: char) -> Seq<char> {
    base + seq!['.', component, '(', ')']
}

/// The calls for the characters of `member`, with `, ` between them.
pub open spec fn component_calls(base: Seq<char>, member: Seq<char>) -> Seq<char>
    decreases member.len(),
{
    if member.len() == 0 {
        Seq::empty()
    } else if member.len() == 1 {
        component_call(base, member[0])
    } else {
        component_calls(base, member.drop_last()) + seq![',', ' '] + component_call(
            base,
            member.last(),
        )
    }
}

/// The array that `base.member` stands for.
pub open spec fn components(base: Seq<char>, member: Seq<char>) -> Seq<char> {
    seq!['['] + component_calls(base, member) + seq![']']
}

/// Writes out the array that `base.member` stands for: one call for each
/// character of `member`, in order.
pub fn get(base: &str, member: &str) -> (text: String)
    ensures
        text@ == components(base@, member@),
{
    let mut text = String::new();
    push_char(&mut text, '[');
    let ghost start = text@;
    let mut first = true;
    for c in it: member.chars()
        invariant
            it.seq() == member@,
            first == (it.index() == 0),
            text@ == start + component_calls(base@, member@.take(it.index())),
    {
        proof {
            let i = it.index();
            assert(member@.take(i + 1).drop_last() =~= member@.take(i));
            assert(member@.take(i + 1).last() == c);
            assert(member@.take(i + 1).len() == i + 1);
            if i == 0 {
                assert(member@.take(1)[0] == c);
                assert(component_calls(base@, member@.take(0)) =~= Seq::empty());
            }
        }
        let ghost before = text@;
        if !first {
            push_char(&mut text, ',');
            push_char(&mut text, ' ');
        }
        text.append(base);
        push_char(&mut text, '.');
        push_char(&mut text, c);
        push_char(&mut text, '(');
        push_char(&mut text, ')');
        first = false;
        assert(text@ =~= start + component_calls(base@, member@.take(it.index() + 1)));
    }
    assert(member@.take(member@.len() as int) =~= member@);
    push_char(&mut text, ']');
    assert(text@ =~= components(base@, member@));
    text
}

} // verus!
