//! Character-level string operations: substring search, equality, case
//! folding and display truncation.
use vstd::prelude::*;
use vstd::string::StringSliceAdditionalSpecFns;
use vstd::utf8::{decode_utf8, encode_utf8_decode_utf8, is_char_boundary};

verus! {

/// `needle` occurs in `hay` at position `i`.
pub open spec fn occurs_at(hay: Seq<char>, needle: Seq<char>, i: int) -> bool {
    &&& 0 <= i
    &&& i + needle.len() <= hay.len()
    &&& hay.subrange(i, i + needle.len()) == needle
}

/// `needle` occurs somewhere in `hay` (the empty sequence occurs everywhere).
pub open spec fn contains_seq(hay: Seq<char>, needle: Seq<char>) -> bool {
    exists|i: int| occurs_at(hay, needle, i)
}

/// What `str::to_lowercase` makes of a sequence of characters.
pub uninterp spec fn lowercase_of(s: Seq<char>) -> Seq<char>;

/// Relies on `str::to_lowercase`: Unicode lower-casing, a function of the
/// characters alone.
#[verifier::external_body]
pub(crate) fn to_lowercase(s: &str) -> (r: String)
    ensures
        r@ == lowercase_of(s@),
{
    s.to_lowercase()
}

/// The characters of `s`, in order.
pub fn chars_of(s: &str) -> (r: Vec<char>)
    ensures
        r@ == s@,
{
    let n = s.unicode_len();
    let mut r: Vec<char> = Vec::new();
    let mut i: usize = 0;
    while i < n
        invariant
            n == s@.len(),
            i <= n,
            r@ == s@.subrange(0, i as int),
        decreases n - i,
    {
        r.push(s.get_char(i));
        i += 1;
        proof {
            assert(r@ =~= s@.subrange(0, i as int));
        }
    }
    proof {
        assert(r@ =~= s@);
    }
    r
}

/// Whether `needle` occurs in `hay` at position `i`.
fn occurs_at_index(hay: &Vec<char>, needle: &Vec<char>, i: usize) -> (r: bool)
    requires
        i + needle@.len() <= hay@.len(),
    ensures
        r == occurs_at(hay@, needle@, i as int),
{
    let n = needle.len();
    let hay_len = hay.len();
    let mut j: usize = 0;
    while j < n
        invariant
            n == needle@.len(),
            hay_len == hay@.len(),
            j <= n,
            i + n <= hay@.len(),
            forall|k: int| 0 <= k < j ==> hay@[i + k] == needle@[k],
        decreases n - j,
    {
        if hay[i + j] != needle[j] {
            proof {
                assert(hay@.subrange(i as int, i + n)[j as int] != needle@[j as int]);
            }
            return false;
        }
        j += 1;
    }
    proof {
        assert(hay@.subrange(i as int, i + n) =~= needle@);
    }
    true
}

/// Whether `needle` occurs in `hay`, by exact (case-sensitive) comparison.
pub fn text_contains(hay: &str, needle: &str) -> (r: bool)
    ensures
        r == contains_seq(hay@, needle@),
{
    let h = chars_of(hay);
    let n = chars_of(needle);
    if n.len() > h.len() {
        return false;
    }
    let last = h.len() - n.len();
    let mut i: usize = 0;
    while i <= last
        invariant_except_break
            h@ == hay@,
            n@ == needle@,
            last == h@.len() - n@.len(),
            i <= last,
            forall|k: int| 0 <= k < i ==> !occurs_at(hay@, needle@, k),
        ensures
            forall|k: int| 0 <= k <= last ==> !occurs_at(hay@, needle@, k),
        decreases last - i,
    {
        if occurs_at_index(&h, &n, i) {
            return true;
        }
        if i == last {
            break;
        }
        i += 1;
    }
    false
}

/// Whether two strings hold the same characters.
pub fn text_equals(a: &str, b: &str) -> (r: bool)
    ensures
        r == (a@ == b@),
{
    let x = chars_of(a);
    let y = chars_of(b);
    if x.len() != y.len() {
        return false;
    }
    let same = occurs_at_index(&x, &y, 0);
    proof {
        assert(x@.subrange(0, x@.len() as int) =~= x@);
    }
    same
}

/// The decimal digit for `d`, which is below ten.
pub open spec fn digit_char(d: int) -> char {
    if d == 0 {
        '0'
    } else if d == 1 {
        '1'
    } else if d == 2 {
        '2'
    } else if d == 3 {
        '3'
    } else if d == 4 {
        '4'
    } else if d == 5 {
        '5'
    } else if d == 6 {
        '6'
    } else if d == 7 {
        '7'
    } else if d == 8 {
        '8'
    } else {
        '9'
    }
}

pub(crate) fn digit(d: u32) -> (r: char)
    requires
        d < 10,
    ensures
        r == digit_char(d as int),
{
    if d == 0 {
        '0'
    } else if d == 1 {
        '1'
    } else if d == 2 {
        '2'
    } else if d == 3 {
        '3'
    } else if d == 4 {
        '4'
    } else if d == 5 {
        '5'
    } else if d == 6 {
        '6'
    } else if d == 7 {
        '7'
    } else if d == 8 {
        '8'
    } else {
        '9'
    }
}

/// The decimal numeral of `n`, without leading zeros.
pub open spec fn decimal(n: nat) -> Seq<char>
    decreases n,
{
    if n < 10 {
        seq![digit_char(n as int)]
    } else {
        decimal(n / 10).push(digit_char((n % 10) as int))
    }
}

fn push_digit(out: &mut String, d: u64)
    requires
        d < 10,
    ensures
        final(out)@ == old(out)@.push(digit_char(d as int)),
{
    let text: &str = if d == 0 {
        "0"
    } else if d == 1 {
        "1"
    } else if d == 2 {
        "2"
    } else if d == 3 {
        "3"
    } else if d == 4 {
        "4"
    } else if d == 5 {
        "5"
    } else if d == 6 {
        "6"
    } else if d == 7 {
        "7"
    } else if d == 8 {
        "8"
    } else {
        "9"
    };
    proof {
        reveal_strlit("0");
        reveal_strlit("1");
        reveal_strlit("2");
        reveal_strlit("3");
        reveal_strlit("4");
        reveal_strlit("5");
        reveal_strlit("6");
        reveal_strlit("7");
        reveal_strlit("8");
        reveal_strlit("9");
        assert(text@ =~= seq![digit_char(d as int)]);
    }
    out.append(text);
}

/// Append the decimal numeral of `n`.
pub(crate) fn push_decimal(out: &mut String, n: u64)
    ensures
        final(out)@ == old(out)@ + decimal(n as nat),
    decreases n,
{
    if n >= 10 {
        push_decimal(out, n / 10);
    }
    push_digit(out, n % 10);
    proof {
        if n >= 10 {
            assert(decimal(n as nat) == decimal((n / 10) as nat).push(digit_char((n % 10) as int)));
        }
    }
}

/// Truncate a string to at most `max_len` bytes of UTF-8, adding "..." if
/// truncated: the first `max_len - 3` bytes are kept, which must end on a
/// character boundary.
pub fn truncate(s: &str, max_len: usize) -> (r: String)
    requires
        s.spec_bytes().len() <= max_len || (max_len >= 3 && is_char_boundary(
            s.spec_bytes(),
            max_len - 3,
        )),
    ensures
        s.spec_bytes().len() <= max_len ==> r@ == s@,
        s.spec_bytes().len() > max_len ==> r@ == decode_utf8(
            s.spec_bytes().subrange(0, max_len - 3),
        ) + seq!['.', '.', '.'],
{
    let byte_len = s.as_bytes().len();
    if byte_len <= max_len {
        String::from_str(s)
    } else {
        let (head, _rest) = s.split_at(max_len - 3);
        let mut r = String::from_str(head);
        r.append("...");
        proof {
            reveal_strlit("...");
            encode_utf8_decode_utf8(head@);
            assert(head.spec_bytes() == s.spec_bytes().subrange(0, max_len - 3));
            assert(head.spec_bytes() == vstd::utf8::encode_utf8(head@));
            assert(decode_utf8(s.spec_bytes().subrange(0, max_len - 3)) == head@);
            assert(r@ =~= head@ + seq!['.', '.', '.']);
        }
        r
    }
}

/// The error text says that the session is not (or no longer) authenticated.
pub open spec fn mentions_auth_failure(error: Seq<char>) -> bool {
    ||| contains_seq(error, "401"@)
    ||| contains_seq(error, "Unauthorized"@)
    ||| contains_seq(error, "Not logged in"@)
    ||| contains_seq(error, "token"@)
}

/// Check if an error is an authentication error.
pub fn is_auth_error(error: &str) -> (r: bool)
    ensures
        r == mentions_auth_failure(error@),
{
    text_contains(error, "401") || text_contains(error, "Unauthorized") || text_contains(
        error,
        "Not logged in",
    ) || text_contains(error, "token")
}

} // verus!
