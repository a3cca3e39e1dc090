//! Text helpers: identifiers as Desmos writes them, and decimal numbers.
use vstd::prelude::*;

verus! {

/// `s` with every underscore removed.
pub open spec fn strip_underscores(s: Seq<char>) -> Seq<char> {
    s.filter(|c: char| c != '_')
}

/// A text that can be cut after its first byte: it is not empty and its first
/// character is ASCII.
pub open spec fn splittable(t: Seq<char>) -> bool {
    t.len() > 0 && (t[0] as u32) < 128
}

/// Desmos subscript notation: the first character, then the rest as `_{rest}`
/// when there is a rest.
pub open spec fn subscripted(t: Seq<char>) -> Seq<char> {
    if t.len() <= 1 {
        t
    } else {
        t.take(1) + seq!['_', '{'] + t.skip(1) + seq!['}']
    }
}

/// The Desmos identifier for a Desmonic name.
pub open spec fn ident_text(name: Seq<char>) -> Seq<char> {
    subscripted(strip_underscores(name))
}

/// The decimal digits of `n`.
pub open spec fn nat_text(n: nat) -> Seq<char>
    decreases n,
{
    if n < 10 {
        seq![(n + 48) as char]
    } else {
        nat_text(n / 10).push(((n % 10) + 48) as char)
    }
}

/// The decimal rendering of `i`, with a leading `-` when it is negative.
pub open spec fn int_text(i: int) -> Seq<char> {
    if i < 0 {
        seq!['-'] + nat_text((-i) as nat)
    } else {
        nat_text(i as nat)
    }
}

/// `str::replace` with the pattern `'_'` and an empty replacement: the text with
/// every underscore removed.
#[verifier::external_body]
pub(crate) fn without_underscores(s: &str) -> (r: String)
    ensures
        r@ == strip_underscores(s@),
{
    s.replace('_', "")
}

/// `i32::to_string`: the decimal rendering of `i`.
#[verifier::external_body]
pub(crate) fn i32_text(i: i32) -> (r: String)
    ensures
        r@ == int_text(i as int),
{
    i.to_string()
}

/// `str::strip_prefix`: the rest of `s` after `prefix`, when `s` starts with it.
#[verifier::external_body]
pub(crate) fn strip_prefix<'a>(s: &'a str, prefix: &str) -> (r: Option<&'a str>)
    ensures
        match r {
            Some(rest) => s@.len() >= prefix@.len() && s@.take(prefix@.len() as int) == prefix@
                && rest@ == s@.skip(prefix@.len() as int),
            None => !(s@.len() >= prefix@.len() && s@.take(prefix@.len() as int) == prefix@),
        },
{
    s.strip_prefix(prefix)
}

/// Writes `t` in subscript notation.
pub fn subscript(t: &str) -> (r: String)
    requires
        splittable(t@),
    ensures
        r@ == subscripted(t@),
{
    let n = t.unicode_len();
    let first = t.substring_char(0, 1);
    let mut r = String::from_str(first);
    if n > 1 {
        let rest = t.substring_char(1, n);
        proof {
            reveal_strlit("_{");
            reveal_strlit("}");
        }
        r.append("_{");
        r.append(rest);
        r.append("}");
        assert(t@.take(1) =~= t@.subrange(0, 1));
        assert(t@.skip(1) =~= t@.subrange(1, n as int));
    } else {
        assert(t@ =~= t@.subrange(0, 1));
    }
    r
}

/// The Desmos identifier for a Desmonic name: underscores are dropped, and all
/// but the first character become a subscript.
pub fn ident_ify(name: &str) -> (r: String)
    requires
        splittable(strip_underscores(name@)),
    ensures
        r@ == ident_text(name@),
{
    let replaced = without_underscores(name);
    subscript(replaced.as_str())
}

/// The Desmos identifier for `name` under a prefix: the prefix followed by the
/// name with its underscores removed, in subscript notation.
pub fn prefixed_ident(prefix: &str, name: &str) -> (r: String)
    requires
        splittable(prefix@ + strip_underscores(name@)),
    ensures
        r@ == subscripted(prefix@ + strip_underscores(name@)),
{
    let mut joined = String::from_str(prefix);
    let replaced = without_underscores(name);
    joined.append(replaced.as_str());
    subscript(joined.as_str())
}

} // verus!
