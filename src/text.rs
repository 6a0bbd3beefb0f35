use vstd::prelude::*;

verus! {

/// Whether `t` is exactly the one-character word `a`.
pub fn spells1(t: &str, a: char) -> (r: bool)
    ensures
        r == (t@ == seq![a]),
{
    let n = t.unicode_len();
    if n != 1 {
        return false;
    }
    let c0 = t.get_char(0);
    if c0 != a {
        return false;
    }
    assert(t@ =~= seq![a]);
    true
}

/// Whether `t` is exactly the three-character word `a b c`.
pub fn spells3(t: &str, a: char, b: char, c: char) -> (r: bool)
    ensures
        r == (t@ == seq![a, b, c]),
{
    let n = t.unicode_len();
    if n != 3 {
        return false;
    }
    let c0 = t.get_char(0);
    let c1 = t.get_char(1);
    let c2 = t.get_char(2);
    if c0 != a || c1 != b || c2 != c {
        return false;
    }
    assert(t@ =~= seq![a, b, c]);
    true
}

} // verus!
