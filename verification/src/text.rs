//! Text helpers shared by the analyses: UTF-8 decoding of byte runs.
use vstd::prelude::*;
use vstd::utf8::*;
use vstd::string::{StrSliceExecFns, StringExecFns};

verus! {

/// The characters that a sequence of ASCII bytes stands for, one per byte.
pub open spec fn ascii_text(bytes: Seq<u8>) -> Seq<char> {
    bytes.map_values(|b: u8| b as char)
}

/// Every byte is below 0x80.
pub open spec fn all_ascii_bytes(bytes: Seq<u8>) -> bool {
    forall|i: int| 0 <= i < bytes.len() ==> #[trigger] bytes[i] < 0x80
}

/// ASCII bytes are valid UTF-8 and decode to one character per byte.
pub proof fn lemma_ascii_bytes_decode(bytes: Seq<u8>)
    requires
        all_ascii_bytes(bytes),
    ensures
        valid_utf8(bytes),
        decode_utf8(bytes) == ascii_text(bytes),
{
    let chars = ascii_text(bytes);
    assert(is_ascii_chars(chars)) by {
        assert forall|i: int| 0 <= i < chars.len() implies '\0' <= #[trigger] chars[i] <= '\u{7f}' by {
            assert(bytes[i] < 0x80);
        }
    }
    is_ascii_chars_encode_utf8(chars);
    assert(encode_utf8(chars) =~= bytes) by {
        assert forall|i: int| 0 <= i < bytes.len() implies #[trigger] encode_utf8(chars)[i] == bytes[i] by {
            assert(chars[i] as u8 == encode_utf8(chars)[i]);
            assert(chars[i] == bytes[i] as char);
        }
    }
    encode_utf8_valid_utf8(chars);
    encode_utf8_decode_utf8(chars);
}

/// `String::from_utf8` (std): succeeds exactly when the bytes are valid UTF-8, and the
/// string then holds the characters that the bytes encode.
#[verifier::external_body]
pub(crate) fn string_from_utf8(bytes: Vec<u8>) -> (r: Option<String>)
    ensures
        r is Some <==> valid_utf8(bytes@),
        r matches Some(s) ==> s@ == decode_utf8(bytes@),
{
    String::from_utf8(bytes).ok()
}

/// What `String::from_utf8_lossy` makes of a byte sequence.
pub uninterp spec fn utf8_lossy(bytes: Seq<u8>) -> Seq<char>;

/// `String::from_utf8_lossy` (std): the characters of the bytes, with invalid sequences
/// replaced; on valid UTF-8 it is the plain decoding. Which replacement characters
/// stand for an invalid sequence is not stated here; the result is named `utf8_lossy`.
#[verifier::external_body]
pub(crate) fn string_from_utf8_lossy(bytes: &[u8]) -> (r: String)
    ensures
        r@ == utf8_lossy(bytes@),
        valid_utf8(bytes@) ==> r@ == decode_utf8(bytes@),
{
    String::from_utf8_lossy(bytes).into_owned()
}

/// What `str::to_lowercase` makes of a string (Unicode lowercase mapping).
pub uninterp spec fn lowercase(s: Seq<char>) -> Seq<char>;

/// `str::to_lowercase` (std): the lowercase form of `s`. Claimed: a function of the
/// characters of `s`, named `lowercase`; the Unicode mapping itself is not written out.
#[verifier::external_body]
pub(crate) fn to_lowercase(s: &str) -> (r: String)
    ensures
        r@ == lowercase(s@),
{
    s.to_lowercase()
}

/// `s` ends with `suffix`.
pub open spec fn ends_with(s: Seq<char>, suffix: Seq<char>) -> bool {
    s.len() >= suffix.len() && s.subrange(s.len() - suffix.len(), s.len() as int) == suffix
}

/// Whether `s` ends with the four characters of `suffix`.
pub fn ends_with_chars(s: &str, suffix: [char; 4]) -> (r: bool)
    ensures
        r == ends_with(s@, suffix@),
{
    let n = s.unicode_len();
    if n < 4 {
        return false;
    }
    let mut k: usize = 0;
    while k < 4
        invariant
            0 <= k <= 4,
            n == s@.len(),
            n >= 4,
            suffix@.len() == 4,
            forall|j: int| 0 <= j < k ==> s@[n - 4 + j] == suffix@[j],
        decreases 4 - k,
    {
        if s.get_char(n - 4 + k) != suffix[k] {
            assert(s@.subrange(n - 4, n as int)[k as int] != suffix@[k as int]);
            return false;
        }
        k = k + 1;
    }
    assert(s@.subrange(n - 4, n as int) =~= suffix@);
    true
}

/// `s` without its leading `'\0'` characters.
pub open spec fn trim_start_nul(s: Seq<char>) -> Seq<char>
    decreases s.len(),
{
    if s.len() > 0 && s[0] == '\0' {
        trim_start_nul(s.drop_first())
    } else {
        s
    }
}

/// `s` without its trailing `'\0'` characters.
pub open spec fn trim_end_nul(s: Seq<char>) -> Seq<char>
    decreases s.len(),
{
    if s.len() > 0 && s.last() == '\0' {
        trim_end_nul(s.drop_last())
    } else {
        s
    }
}

/// `s` without its leading and trailing `'\0'` characters.
pub open spec fn trim_nul(s: Seq<char>) -> Seq<char> {
    trim_end_nul(trim_start_nul(s))
}

/// Removes the leading and trailing NUL characters of `s` (as `str::trim_matches('\0')`).
pub fn trim_nul_chars(s: &str) -> (r: String)
    ensures
        r@ == trim_nul(s@),
{
    let n = s.unicode_len();
    let mut start: usize = 0;
    assert(s@.subrange(0, n as int) =~= s@);
    while start < n && s.get_char(start) == '\0'
        invariant
            0 <= start <= n,
            n == s@.len(),
            trim_start_nul(s@) == trim_start_nul(s@.subrange(start as int, n as int)),
        decreases n - start,
    {
        assert(s@.subrange(start as int, n as int).drop_first() =~= s@.subrange(start + 1, n as int));
        start = start + 1;
    }
    let ghost front = s@.subrange(start as int, n as int);
    assert(trim_start_nul(s@) == front);
    let mut end: usize = n;
    while end > start && s.get_char(end - 1) == '\0'
        invariant
            start <= end <= n,
            n == s@.len(),
            front == s@.subrange(start as int, n as int),
            trim_end_nul(front) == trim_end_nul(s@.subrange(start as int, end as int)),
        decreases end,
    {
        assert(s@.subrange(start as int, end as int).drop_last() =~= s@.subrange(start as int, end - 1));
        end = end - 1;
    }
    let kept = s.substring_char(start, end);
    String::from_str(kept)
}

/// The lowercase hexadecimal digit for `d` (below 16).
pub open spec fn hex_digit(d: nat) -> char {
    if d < 10 {
        (d + 48) as char
    } else {
        (d + 87) as char
    }
}

/// The lowercase hexadecimal digits of `n`, without leading zeros.
pub open spec fn hex_digits(n: nat) -> Seq<char>
    decreases n,
{
    if n < 16 {
        seq![hex_digit(n)]
    } else {
        hex_digits(n / 16).push(hex_digit(n % 16))
    }
}

/// `n` written as `0x` and its lowercase hexadecimal digits, as `{:#x}` writes it.
pub open spec fn lower_hex(n: nat) -> Seq<char> {
    seq!['0', 'x'] + hex_digits(n)
}

/// The text of the lowercase hexadecimal digit `d`.
pub(crate) fn hex_digit_str(d: u8) -> (r: &'static str)
    requires
        d < 16,
    ensures
        r@ == seq![hex_digit(d as nat)],
{
    if d == 0 {
        proof {
            reveal_strlit("0");
        }
        "0"
    } else if d == 1 {
        proof {
            reveal_strlit("1");
        }
        "1"
    } else if d == 2 {
        proof {
            reveal_strlit("2");
        }
        "2"
    } else if d == 3 {
        proof {
            reveal_strlit("3");
        }
        "3"
    } else if d == 4 {
        proof {
            reveal_strlit("4");
        }
        "4"
    } else if d == 5 {
        proof {
            reveal_strlit("5");
        }
        "5"
    } else if d == 6 {
        proof {
            reveal_strlit("6");
        }
        "6"
    } else if d == 7 {
        proof {
            reveal_strlit("7");
        }
        "7"
    } else if d == 8 {
        proof {
            reveal_strlit("8");
        }
        "8"
    } else if d == 9 {
        proof {
            reveal_strlit("9");
        }
        "9"
    } else if d == 10 {
        proof {
            reveal_strlit("a");
        }
        "a"
    } else if d == 11 {
        proof {
            reveal_strlit("b");
        }
        "b"
    } else if d == 12 {
        proof {
            reveal_strlit("c");
        }
        "c"
    } else if d == 13 {
        proof {
            reveal_strlit("d");
        }
        "d"
    } else if d == 14 {
        proof {
            reveal_strlit("e");
        }
        "e"
    } else {
        proof {
            reveal_strlit("f");
        }
        "f"
    }
}

/// The lowercase hexadecimal digits of the base-16 digits `ds`, most significant last.
pub open spec fn digits_text(ds: Seq<u8>) -> Seq<char>
    decreases ds.len(),
{
    if ds.len() == 0 {
        seq![]
    } else {
        digits_text(ds.drop_first()) + seq![hex_digit(ds[0] as nat)]
    }
}

proof fn lemma_digits_text_push(ds: Seq<u8>, d: u8)
    ensures
        digits_text(ds.push(d)) == seq![hex_digit(d as nat)] + digits_text(ds),
    decreases ds.len(),
{
    if ds.len() > 0 {
        assert(ds.push(d).drop_first() =~= ds.drop_first().push(d));
        lemma_digits_text_push(ds.drop_first(), d);
    } else {
        assert(ds.push(d).drop_first() =~= ds);
    }
}

/// `n` written as `0x` and its lowercase hexadecimal digits without leading zeros, as
/// `{:#x}` writes it.
pub fn format_lower_hex(n: u64) -> (r: String)
    ensures
        r@ == lower_hex(n as nat),
{
    let mut ds: Vec<u8> = Vec::new();
    let mut m: u64 = n;
    while m >= 16
        invariant
            hex_digits(n as nat) == hex_digits(m as nat) + digits_text(ds@),
            forall|i: int| 0 <= i < ds@.len() ==> #[trigger] ds@[i] < 16,
        decreases m,
    {
        let d = (m % 16) as u8;
        proof {
            lemma_digits_text_push(ds@, d);
        }
        assert(hex_digits(m as nat) == hex_digits((m / 16) as nat).push(hex_digit((m % 16) as nat)));
        ds.push(d);
        m = m / 16;
    }
    proof {
        lemma_digits_text_push(ds@, m as u8);
    }
    ds.push(m as u8);
    assert(hex_digits(n as nat) == digits_text(ds@));
    let mut s = String::from_str("0x");
    proof {
        reveal_strlit("0x");
    }
    let mut k: usize = ds.len();
    assert(digits_text(ds@.subrange(k as int, ds@.len() as int)) =~= Seq::<char>::empty());
    while k > 0
        invariant
            0 <= k <= ds@.len(),
            forall|i: int| 0 <= i < ds@.len() ==> #[trigger] ds@[i] < 16,
            hex_digits(n as nat) == digits_text(ds@),
            s@ == seq!['0', 'x'] + digits_text(ds@.subrange(k as int, ds@.len() as int)),
        decreases k,
    {
        k = k - 1;
        let d = ds[k];
        s.append(hex_digit_str(d));
        assert(ds@.subrange(k as int, ds@.len() as int).drop_first() =~= ds@.subrange(k + 1, ds@.len() as int));
        assert(ds@.subrange(k as int, ds@.len() as int)[0] == d);
        assert(s@ =~= seq!['0', 'x'] + digits_text(ds@.subrange(k as int, ds@.len() as int)));
    }
    assert(ds@.subrange(0, ds@.len() as int) =~= ds@);
    s
}

} // verus!
