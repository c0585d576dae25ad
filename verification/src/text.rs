//! Building diagnostic text out of literal pieces and names.

use vstd::prelude::*;

verus! {

/// `a` followed by `x` followed by `b`.
pub fn join3(a: &str, x: &str, b: &str) -> (r: String)
    ensures
        r@ == a@ + x@ + b@,
{
    let mut r = String::from_str(a);
    r.append(x);
    r.append(b);
    r
}

/// The five pieces one after the other.
pub fn join5(a: &str, x: &str, b: &str, y: &str, c: &str) -> (r: String)
    ensures
        r@ == a@ + x@ + b@ + y@ + c@,
{
    let mut r = join3(a, x, b);
    r.append(y);
    r.append(c);
    r
}

/// The seven pieces one after the other.
pub fn join7(a: &str, x: &str, b: &str, y: &str, c: &str, z: &str, d: &str) -> (r: String)
    ensures
        r@ == a@ + x@ + b@ + y@ + c@ + z@ + d@,
{
    let mut r = join5(a, x, b, y, c);
    r.append(z);
    r.append(d);
    r
}

} // verus!
