//! Text building blocks: decimal numbers and joined lists.

use vstd::prelude::*;
use vstd::string::*;

verus! {

/// Appends one character to a string.
///
/// Trusted: the body is `String::push`, which vstd does not specify. The
/// contract claims what the standard library documents: the character is
/// appended to the end and nothing else changes.
#[verifier::external_body]
pub(crate) fn push_char(s: &mut String, c: char)
    ensures
        final(s)@ == old(s)@.push(c),
{
    s.push(c)
}

/// The character that writes the digit `d`.
pub open spec fn digit_char(d: nat) -> char
    recommends
        d < 10,
{
    (48 + d) as char
}

/// Whether `c` is one of `'0'..='9'`.
pub open spec fn is_digit(c: char) -> bool {
    48 <= c as u32 && c as u32 <= 57
}

/// The decimal notation of `n`, without sign or leading zeros.
pub open spec fn decimal(n: nat) -> Seq<char>
    decreases n,
{
    if n < 10 {
        seq![digit_char(n)]
    } else {
        decimal(n / 10).push(digit_char(n % 10))
    }
}

/// `parts` written one after another with `sep` between neighbours.
pub open spec fn join(parts: Seq<Seq<char>>, sep: Seq<char>) -> Seq<char>
    decreases parts.len(),
{
    if parts.len() == 0 {
        Seq::empty()
    } else if parts.len() == 1 {
        parts[0]
    } else {
        join(parts.drop_last(), sep) + sep + parts.last()
    }
}

/// The views of a sequence of strings, in order.
pub open spec fn views(parts: Seq<String>) -> Seq<Seq<char>> {
    parts.map_values(|s: String| s@)
}

/// Every character of a decimal notation is a digit, and there is at least one.
pub proof fn lemma_decimal_digits(n: nat)
    ensures
        decimal(n).len() >= 1,
        forall|i: int| 0 <= i < decimal(n).len() ==> is_digit(#[trigger] decimal(n)[i]),
    decreases n,
{
    if n >= 10 {
        lemma_decimal_digits(n / 10);
    }
}

/// A number below ten has one digit, a number below a hundred has two, and
/// no number from a hundred on has fewer than three.
pub proof fn lemma_decimal_len(n: nat)
    ensures
        n < 10 ==> decimal(n) == seq![digit_char(n)],
        10 <= n < 100 ==> decimal(n) == seq![digit_char(n / 10), digit_char(n % 10)],
        n >= 100 ==> decimal(n).len() >= 3,
    decreases n,
{
    reveal_with_fuel(decimal, 3);
    if 10 <= n < 100 {
        assert(decimal(n) =~= seq![digit_char(n / 10), digit_char(n % 10)]);
    }
    if n >= 100 {
        lemma_decimal_len(n / 10);
    }
}

/// Appends the decimal notation of `n` to `out`.
pub fn push_decimal(out: &mut String, n: u128)
    ensures
        final(out)@ == old(out)@ + decimal(n as nat),
    decreases n,
{
    if n >= 10 {
        push_decimal(out, n / 10);
    }
    let d: u8 = (n % 10) as u8;
    push_char(out, (48u8 + d) as char);
    proof {
        if n >= 10 {
            assert(old(out)@ + decimal((n / 10) as nat).push(digit_char((n % 10) as nat))
                =~= (old(out)@ + decimal((n / 10) as nat)).push(digit_char((n % 10) as nat)));
        } else {
            assert(old(out)@ + seq![digit_char(n as nat)] =~= old(out)@.push(digit_char(n as nat)));
        }
    }
}

/// The decimal notation of `n`.
pub fn to_decimal(n: u128) -> (out: String)
    ensures
        out@ == decimal(n as nat),
{
    let mut out = String::new();
    push_decimal(&mut out, n);
    assert(Seq::<char>::empty() + decimal(n as nat) =~= decimal(n as nat));
    out
}

/// Joins `parts` with `sep` between neighbours.
pub fn join_strings(parts: &Vec<String>, sep: &str) -> (out: String)
    ensures
        out@ == join(views(parts@), sep@),
{
    let mut out = String::new();
    let mut i: usize = 0;
    while i < parts.len()
        invariant
            i <= parts.len(),
            out@ == join(views(parts@).take(i as int), sep@),
        decreases parts.len() - i,
    {
        proof {
            let all = views(parts@);
            let next = all.take(i + 1);
            assert(next.drop_last() =~= all.take(i as int));
            assert(next.last() == parts@[i as int]@);
            if i == 1 {
                assert(all.take(1).len() == 1);
            }
        }
        if i > 0 {
            out.append(sep);
        }
        out.append(parts[i].as_str());
        proof {
            if i == 0 {
                assert(Seq::<char>::empty() + parts@[0]@ =~= parts@[0]@);
            }
        }
        i += 1;
    }
    assert(views(parts@).take(parts.len() as int) =~= views(parts@));
    out
}

/// Different numbers have different decimal notations.
pub proof fn lemma_decimal_injective(a: nat, b: nat)
    requires
        decimal(a) == decimal(b),
    ensures
        a == b,
    decreases a,
{
    lemma_decimal_digits(a / 10);
    lemma_decimal_digits(b / 10);
    if a < 10 && b < 10 {
        assert(decimal(a)[0] == digit_char(a));
        assert(decimal(b)[0] == digit_char(b));
        assert(digit_char(a) as u32 == 48 + a);
        assert(digit_char(b) as u32 == 48 + b);
    } else if a >= 10 && b >= 10 {
        assert(decimal(a).drop_last() =~= decimal(a / 10));
        assert(decimal(b).drop_last() =~= decimal(b / 10));
        lemma_decimal_injective(a / 10, b / 10);
        assert(decimal(a).last() == digit_char(a % 10));
        assert(decimal(b).last() == digit_char(b % 10));
        assert(digit_char(a % 10) as u32 == 48 + a % 10);
        assert(digit_char(b % 10) as u32 == 48 + b % 10);
    } else {
        assert(decimal(a).len() != decimal(b).len());
    }
}

/// What `base` contributes to a path below it: nothing where it is empty,
/// itself where it ends in a separator, and itself with a separator otherwise.
pub open spec fn path_prefix(base: Seq<char>) -> Seq<char> {
    if base.len() == 0 {
        base
    } else if base.last() == '/' {
        base
    } else {
        base + "/"@
    }
}

/// The path of `rel` below `base`.
pub open spec fn joined_path(base: Seq<char>, rel: Seq<char>) -> Seq<char> {
    path_prefix(base) + rel
}

/// Different relative paths stay different below the same base.
pub proof fn lemma_joined_path_injective(base: Seq<char>, a: Seq<char>, b: Seq<char>)
    requires
        joined_path(base, a) == joined_path(base, b),
    ensures
        a == b,
{
    let p = path_prefix(base);
    assert((p + a).len() == (p + b).len());
    assert forall|i: int| 0 <= i < a.len() implies a[i] == b[i] by {
        assert(a[i] == (p + a)[p.len() + i]);
        assert(b[i] == (p + b)[p.len() + i]);
    }
    assert(a =~= b);
}

/// The path of `rel` below `base`, with exactly one separator between them
/// unless `base` is empty or brings its own.
pub fn join_path(base: &str, rel: &str) -> (path: String)
    ensures
        path@ == joined_path(base@, rel@),
{
    let mut path = String::from_str(base);
    let n: usize = base.unicode_len();
    if n > 0 && base.get_char(n - 1) != '/' {
        path.append("/");
    }
    path.append(rel);
    path
}

/// Whether `c` separates the components of a path.
pub open spec fn is_separator(c: char) -> bool {
    c == '/' || c == '\\'
}

/// Whether `c` can name a drive: a letter of the ASCII alphabet.
pub open spec fn is_drive_letter(c: char) -> bool {
    (65 <= c as u32 && c as u32 <= 90) || (97 <= c as u32 && c as u32 <= 122)
}

/// Whether `path` is absolute, that is, says where it begins: with `/`,
/// with two backslashes, or with a drive letter, a colon and a separator.
pub open spec fn is_absolute(path: Seq<char>) -> bool {
    ||| path.len() >= 1 && path[0] == '/'
    ||| path.len() >= 2 && path[0] == '\\' && path[1] == '\\'
    ||| path.len() >= 3 && is_drive_letter(path[0]) && path[1] == ':' && is_separator(path[2])
}

/// `path` as an absolute path: itself where it is absolute, and below the
/// working directory where it is not.
pub open spec fn absolute_path(working_directory: Seq<char>, path: Seq<char>) -> Seq<char> {
    if is_absolute(path) {
        path
    } else {
        joined_path(working_directory, path)
    }
}

/// What lies below an absolute path has an absolute path.
pub proof fn lemma_joined_path_absolute(base: Seq<char>, rel: Seq<char>)
    requires
        is_absolute(base),
    ensures
        is_absolute(joined_path(base, rel)),
{
    let joined = joined_path(base, rel);
    assert(joined.len() >= base.len());
    assert forall|i: int| 0 <= i < base.len() implies joined[i] == base[i] by {
        assert(path_prefix(base)[i] == base[i]);
    }
    assert(joined[0] == base[0]);
    if base.len() >= 2 {
        assert(joined[1] == base[1]);
    }
    if base.len() >= 3 {
        assert(joined[2] == base[2]);
    }
}

/// Below an absolute working directory every path becomes absolute, and an
/// absolute path stays what it is wherever the working directory is.
pub proof fn lemma_absolute_path(working_directory: Seq<char>, path: Seq<char>)
    ensures
        is_absolute(path) ==> absolute_path(working_directory, path) == path,
        is_absolute(working_directory) ==> is_absolute(absolute_path(working_directory, path)),
{
    if is_absolute(working_directory) && !is_absolute(path) {
        lemma_joined_path_absolute(working_directory, path);
    }
}

/// Decides [`is_absolute`].
pub fn path_is_absolute(path: &str) -> (absolute: bool)
    ensures
        absolute == is_absolute(path@),
{
    let n: usize = path.unicode_len();
    if n == 0 {
        return false;
    }
    let first = path.get_char(0);
    if first == '/' {
        return true;
    }
    if n < 2 {
        return false;
    }
    let second = path.get_char(1);
    if first == '\\' && second == '\\' {
        return true;
    }
    if n < 3 {
        return false;
    }
    let third = path.get_char(2);
    let code: u32 = first as u32;
    let letter = (65 <= code && code <= 90) || (97 <= code && code <= 122);
    letter && second == ':' && (third == '/' || third == '\\')
}

/// `path` as an absolute path: itself where it is absolute, and below
/// `working_directory` where it is not.
pub fn make_absolute(working_directory: &str, path: &str) -> (absolute: String)
    ensures
        absolute@ == absolute_path(working_directory@, path@),
{
    if path_is_absolute(path) {
        String::from_str(path)
    } else {
        join_path(working_directory, path)
    }
}

} // verus!
