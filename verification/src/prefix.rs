//! Validation of user-supplied hardware-address prefixes and derivation of
//! randomized addresses from a prefix.

use vstd::prelude::*;
use crate::text::is_hex_digit_char;

verus! {

/// Why a user-supplied prefix was rejected.
#[derive(Clone, Copy, Debug, PartialEq, Eq, Structural)]
pub enum ValidationError {
    /// After stripping colon separators the prefix is not exactly six
    /// characters long.
    Length,
    /// The prefix has the right length but holds a character that is not a
    /// hexadecimal digit.
    Character,
}

/// The characters of `s` with every colon separator removed.
pub open spec fn stripped(s: Seq<char>) -> Seq<char>
    decreases s.len(),
{
    if s.len() == 0 {
        Seq::empty()
    } else {
        let rest = stripped(s.drop_last());
        if s.last() == ':' {
            rest
        } else {
            rest.push(s.last())
        }
    }
}

/// Every character of `s` is a hexadecimal digit.
pub open spec fn all_hex(s: Seq<char>) -> bool {
    forall|i: int| 0 <= i < s.len() ==> is_hex_digit_char(#[trigger] s[i])
}

/// A well-formed vendor prefix: exactly six hexadecimal characters once
/// colon separators are stripped.
pub open spec fn valid_prefix(s: Seq<char>) -> bool {
    stripped(s).len() == 6 && all_hex(stripped(s))
}

/// Checks that a user-supplied prefix is six hexadecimal characters,
/// colon separators aside.  A wrong length is reported before a wrong
/// character.
pub fn verify_prefix(prefix: &String) -> (r: Result<(), ValidationError>)
    ensures
        r is Ok <==> valid_prefix(prefix@),
        r == Err::<(), ValidationError>(ValidationError::Length) <==> stripped(prefix@).len() != 6,
        r == Err::<(), ValidationError>(ValidationError::Character) <==> (stripped(prefix@).len()
            == 6 && !all_hex(stripped(prefix@))),
{
    let s = prefix.as_str();
    let n: usize = s.unicode_len();
    let mut kept: Vec<char> = Vec::new();
    let mut i: usize = 0;
    while i < n
        invariant
            n == s@.len(),
            0 <= i <= n,
            kept@ == stripped(s@.subrange(0, i as int)),
        decreases n - i,
    {
        let c = s.get_char(i);
        if c != ':' {
            kept.push(c);
        }
        proof {
            let pre = s@.subrange(0, i as int);
            let ext = s@.subrange(0, i as int + 1);
            assert(ext.drop_last() =~= pre);
            assert(ext.last() == c);
            assert(kept@ == stripped(ext));
        }
        i = i + 1;
    }
    proof {
        assert(s@.subrange(0, n as int) =~= s@);
    }
    if kept.len() != 6 {
        return Err(ValidationError::Length);
    }
    let mut j: usize = 0;
    while j < 6
        invariant
            kept@ == stripped(prefix@),
            kept@.len() == 6,
            0 <= j <= 6,
            forall|k: int| 0 <= k < j ==> is_hex_digit_char(#[trigger] kept@[k]),
        decreases 6 - j,
    {
        let c = kept[j];
        let hex = (c >= '0' && c <= '9') || (c >= 'a' && c <= 'f') || (c >= 'A' && c <= 'F');
        if !hex {
            return Err(ValidationError::Character);
        }
        j = j + 1;
    }
    Ok(())
}

/// The uppercase hexadecimal digit for a value below sixteen.
pub open spec fn hex_digit_char(n: int) -> char {
    if n == 0 {
        '0'
    } else if n == 1 {
        '1'
    } else if n == 2 {
        '2'
    } else if n == 3 {
        '3'
    } else if n == 4 {
        '4'
    } else if n == 5 {
        '5'
    } else if n == 6 {
        '6'
    } else if n == 7 {
        '7'
    } else if n == 8 {
        '8'
    } else if n == 9 {
        '9'
    } else if n == 10 {
        'A'
    } else if n == 11 {
        'B'
    } else if n == 12 {
        'C'
    } else if n == 13 {
        'D'
    } else if n == 14 {
        'E'
    } else {
        'F'
    }
}

/// An octet rendered as two uppercase hexadecimal digits.
pub open spec fn octet_hex(b: u8) -> Seq<char> {
    seq![hex_digit_char(b as int / 16), hex_digit_char(b as int % 16)]
}

/// The address derived from `prefix` and three trailing octets:
/// `prefix:XX:XX:XX` with each octet as two uppercase hexadecimal digits.
pub open spec fn derived_address(prefix: Seq<char>, b0: u8, b1: u8, b2: u8) -> Seq<char> {
    prefix + seq![':'] + octet_hex(b0) + seq![':'] + octet_hex(b1) + seq![':'] + octet_hex(b2)
}

/// `addr` is `prefix:XX:XX:XX` for some three octets.
pub open spec fn is_derived_from(addr: Seq<char>, prefix: Seq<char>) -> bool {
    exists|b0: u8, b1: u8, b2: u8| addr == derived_address(prefix, b0, b1, b2)
}

/// The one-character string slice spelling an uppercase hexadecimal digit.
fn hex_digit_str(n: u8) -> (r: &'static str)
    requires
        n < 16,
    ensures
        r@ =~= seq![hex_digit_char(n as int)],
{
    proof {
        reveal_strlit("0");
        reveal_strlit("1");
        reveal_strlit("2");
        reveal_strlit("3");
        reveal_strlit("4");
        reveal_strlit("5");
        reveal_strlit("6");
        reveal_strlit("7");
        reveal_strlit("8");
        reveal_strlit("9");
        reveal_strlit("A");
        reveal_strlit("B");
        reveal_strlit("C");
        reveal_strlit("D");
        reveal_strlit("E");
        reveal_strlit("F");
    }
    match n {
        0 => "0",
        1 => "1",
        2 => "2",
        3 => "3",
        4 => "4",
        5 => "5",
        6 => "6",
        7 => "7",
        8 => "8",
        9 => "9",
        10 => "A",
        11 => "B",
        12 => "C",
        13 => "D",
        14 => "E",
        _ => "F",
    }
}

/// Appends `:XX` for one octet.
fn push_octet(out: &mut String, b: u8)
    ensures
        final(out)@ == old(out)@ + seq![':'] + octet_hex(b),
{
    proof {
        reveal_strlit(":");
    }
    out.append(":");
    out.append(hex_digit_str(b / 16));
    out.append(hex_digit_str(b % 16));
    proof {
        assert(final(out)@ =~= old(out)@ + seq![':'] + octet_hex(b));
    }
}

/// The address built from a prefix and three given octets.
pub fn address_with_octets(prefix: &str, b0: u8, b1: u8, b2: u8) -> (r: String)
    ensures
        r@ == derived_address(prefix@, b0, b1, b2),
{
    let mut out = String::from_str(prefix);
    push_octet(&mut out, b0);
    push_octet(&mut out, b1);
    push_octet(&mut out, b2);
    proof {
        assert(out@ =~= derived_address(prefix@, b0, b1, b2));
    }
    out
}

/// Relies on `rand::random::<u8>()`: a byte drawn uniformly from the full
/// unsigned 8-bit range.  Nothing is assumed of which value comes back.
#[verifier::external_body]
fn random_octet() -> u8 {
    rand::random::<u8>()
}

/// A randomized address under `prefix`: the prefix followed by three
/// independently drawn octets, each rendered as two uppercase hexadecimal
/// digits and colon-joined.
pub fn derive_random_address(prefix: &str) -> (r: String)
    ensures
        is_derived_from(r@, prefix@),
{
    let b0 = random_octet();
    let b1 = random_octet();
    let b2 = random_octet();
    let out = address_with_octets(prefix, b0, b1, b2);
    proof {
        assert(out@ == derived_address(prefix@, b0, b1, b2));
    }
    out
}

} // verus!
