use vstd::prelude::*;
use vstd::string::StringExecFns;
use vstd::string::StrSliceExecFns;
use vstd::utf8::encode_utf8;

verus! {

/// Appends one character to a string.
///
/// Wraps `String::push`, which appends the given `char` to the end of the string.
#[verifier::external_body]
pub(crate) fn push_char(s: &mut String, c: char)
    ensures
        final(s)@ == old(s)@.push(c),
{
    s.push(c)
}

/// The characters of a string slice, collected for constant-time indexing.
pub fn chars_of(s: &str) -> (v: Vec<char>)
    ensures
        v@ == s@,
{
    let mut v: Vec<char> = Vec::new();
    for c in it: s.chars()
        invariant
            v@ == it.seq().take(it.index() as int),
    {
        v.push(c);
    }
    v
}

/// Whether two byte strings hold the same bytes.
pub fn bytes_equal(a: &Vec<u8>, b: &Vec<u8>) -> (r: bool)
    ensures
        r == (a@ == b@),
{
    let r = a == b;
    proof {
        if r {
            assert(a@ =~= b@);
        }
    }
    r
}

/// UTF-8 encoding distributes over concatenation.
pub proof fn lemma_encode_utf8_concat(a: Seq<char>, b: Seq<char>)
    ensures
        encode_utf8(a + b) == encode_utf8(a) + encode_utf8(b),
    decreases a.len(),
{
    if a.len() == 0 {
        assert(a + b =~= b);
        assert(encode_utf8(a) + encode_utf8(b) =~= encode_utf8(b));
    } else {
        lemma_encode_utf8_concat(a.drop_first(), b);
        assert((a + b).drop_first() =~= a.drop_first() + b);
        assert((a + b)[0] == a[0]);
        assert(encode_utf8(a + b) =~= encode_utf8(a) + encode_utf8(b));
    }
}

/// The digit of the URL-safe base64 alphabet that stands for `v`, below 64.
pub open spec fn b64_char(v: nat) -> char {
    if v < 26 {
        ((65 + v) as u8) as char
    } else if v < 52 {
        ((71 + v) as u8) as char
    } else if v < 62 {
        ((v - 4) as u8) as char
    } else if v == 62 {
        '-'
    } else {
        '_'
    }
}

/// The value of a digit of the URL-safe base64 alphabet.
pub open spec fn b64_value(c: char) -> Option<nat> {
    if 'A' <= c <= 'Z' {
        Some((c as u8 - 65) as nat)
    } else if 'a' <= c <= 'z' {
        Some((c as u8 - 71) as nat)
    } else if '0' <= c <= '9' {
        Some((c as u8 + 4) as nat)
    } else if c == '-' {
        Some(62)
    } else if c == '_' {
        Some(63)
    } else {
        None
    }
}

/// A number below 64 * 64 * 64 in three base64 digits, the most significant first.
pub open spec fn b64_number(n: nat) -> Seq<char> {
    seq![b64_char(n / 4096), b64_char(n / 64 % 64), b64_char(n % 64)]
}

/// The number that three base64 digits stand for.
pub open spec fn b64_number_value(text: Seq<char>) -> Option<nat> {
    if text.len() != 3 {
        None
    } else {
        match (b64_value(text[0]), b64_value(text[1]), b64_value(text[2])) {
            (Some(a), Some(b), Some(c)) => Some(a * 4096 + b * 64 + c),
            _ => None,
        }
    }
}

/// Each base64 digit is found again from its character, which is plain ASCII.
pub proof fn lemma_b64_char(v: nat)
    requires
        v < 64,
    ensures
        b64_value(b64_char(v)) == Some(v),
        crate::util::base64::is_base64_char(b64_char(v)),
        b64_char(v) != '=',
{
}

/// A number written in three base64 digits reads back as itself.
pub proof fn lemma_b64_number(n: nat)
    requires
        n < 262144,
    ensures
        b64_number_value(b64_number(n)) == Some(n),
        b64_number(n).len() == 3,
        crate::util::base64::is_base64_text(b64_number(n)),
{
    lemma_b64_char(n / 4096);
    lemma_b64_char(n / 64 % 64);
    lemma_b64_char(n % 64);
}

fn b64_digit(v: u8) -> (c: char)
    requires
        v < 64,
    ensures
        c == b64_char(v as nat),
{
    if v < 26 {
        (65 + v) as char
    } else if v < 52 {
        (71 + v) as char
    } else if v < 62 {
        (v - 4) as char
    } else if v == 62 {
        '-'
    } else {
        '_'
    }
}

fn b64_digit_value(c: char) -> (v: Option<u8>)
    ensures
        match v {
            Some(x) => b64_value(c) == Some(x as nat) && x < 64,
            None => b64_value(c) is None,
        },
{
    if 'A' <= c && c <= 'Z' {
        Some(c as u8 - 65)
    } else if 'a' <= c && c <= 'z' {
        Some(c as u8 - 71)
    } else if '0' <= c && c <= '9' {
        Some(c as u8 + 4)
    } else if c == '-' {
        Some(62)
    } else if c == '_' {
        Some(63)
    } else {
        None
    }
}

/// Writes a number in three base64 digits.
pub fn write_b64_number(n: u16) -> (text: String)
    ensures
        text@ == b64_number(n as nat),
{
    let mut text = String::new();
    push_char(&mut text, b64_digit((n / 4096) as u8));
    push_char(&mut text, b64_digit((n / 64 % 64) as u8));
    push_char(&mut text, b64_digit((n % 64) as u8));
    assert(text@ =~= b64_number(n as nat));
    text
}

/// Reads a number from three base64 digits; `None` where the characters are
/// not three digits or the number does not fit sixteen bits.
pub fn read_b64_number(digits: &[char]) -> (n: Option<u16>)
    ensures
        match n {
            Some(v) => b64_number_value(digits@) == Some(v as nat),
            None => b64_number_value(digits@) matches Some(v) ==> v > u16::MAX,
        },
{
    if digits.len() != 3 {
        return None;
    }
    match (b64_digit_value(digits[0]), b64_digit_value(digits[1]), b64_digit_value(digits[2])) {
        (Some(a), Some(b), Some(c)) => {
            let v: u32 = a as u32 * 4096 + b as u32 * 64 + c as u32;
            if v > 65535 {
                None
            } else {
                Some(v as u16)
            }
        },
        _ => None,
    }
}

/// The lower-case hexadecimal digit that stands for `d`, below 16.
pub open spec fn hex_char(d: nat) -> char {
    if d < 10 {
        ((48 + d) as u8) as char
    } else {
        ((87 + d) as u8) as char
    }
}

/// A number in lower-case hexadecimal digits, without leading zeros.
pub open spec fn hex_text(n: nat) -> Seq<char>
    decreases n,
{
    if n < 16 {
        seq![hex_char(n)]
    } else {
        hex_text(n / 16).push(hex_char(n % 16))
    }
}

/// A number in hexadecimal digits, filled with zeros on the left up to
/// `width` digits; a number that needs more digits keeps them all.
pub open spec fn hex_text_padded(n: nat, width: nat) -> Seq<char> {
    let digits = hex_text(n);
    if digits.len() >= width {
        digits
    } else {
        Seq::new((width - digits.len()) as nat, |i: int| '0') + digits
    }
}

/// A lower-case hexadecimal digit.
pub open spec fn is_hex_char(c: char) -> bool {
    '0' <= c <= '9' || 'a' <= c <= 'f'
}

/// A number is written in hexadecimal digits, at least one and at most
/// sixteen for a number of 64 bits.
pub proof fn lemma_hex_text(n: nat)
    ensures
        hex_text(n).len() >= 1,
        forall|i: int| 0 <= i < hex_text(n).len() ==> is_hex_char(#[trigger] hex_text(n)[i]),
        n < 0x100_0000 ==> hex_text(n).len() <= 6,
        n <= u64::MAX ==> hex_text(n).len() <= 16,
    decreases n,
{
    if n >= 16 {
        lemma_hex_text(n / 16);
    }
    lemma_hex_len(n, 6);
    lemma_hex_len(n, 16);
}

/// The power of sixteen.
pub open spec fn pow16(k: nat) -> nat
    decreases k,
{
    if k == 0 {
        1
    } else {
        16 * pow16((k - 1) as nat)
    }
}

/// A number below `16^k`, for `k` at least one, takes at most `k` hexadecimal digits.
pub proof fn lemma_hex_len(n: nat, k: nat)
    requires
        k >= 1,
    ensures
        n < pow16(k) ==> hex_text(n).len() <= k,
        pow16(6) == 0x100_0000,
        pow16(16) == 0x1_0000_0000_0000_0000,
    decreases n,
{
    assert(pow16(6) == 0x100_0000) by {
        reveal_with_fuel(pow16, 7);
    }
    assert(pow16(16) == 0x1_0000_0000_0000_0000) by {
        reveal_with_fuel(pow16, 17);
    }
    if n >= 16 && n < pow16(k) {
        if k == 1 {
            reveal_with_fuel(pow16, 2);
        } else {
            assert(n / 16 < pow16((k - 1) as nat));
            lemma_hex_len(n / 16, (k - 1) as nat);
        }
    }
}

fn hex_digit(d: u8) -> (c: char)
    requires
        d < 16,
    ensures
        c == hex_char(d as nat),
{
    if d < 10 {
        (48 + d) as char
    } else {
        (87 + d) as char
    }
}

/// Writes a number in lower-case hexadecimal digits, without leading zeros.
pub fn write_hex(n: u64) -> (text: String)
    ensures
        text@ == hex_text(n as nat),
    decreases n,
{
    if n < 16 {
        let mut text = String::new();
        push_char(&mut text, hex_digit(n as u8));
        assert(text@ =~= hex_text(n as nat));
        text
    } else {
        let mut text = write_hex(n / 16);
        push_char(&mut text, hex_digit((n % 16) as u8));
        text
    }
}

/// Writes a number in hexadecimal digits, filled with zeros on the left up to six digits.
pub fn write_hex_padded(n: u64) -> (text: String)
    ensures
        text@ == hex_text_padded(n as nat, 6),
{
    let digits = write_hex(n);
    proof {
        lemma_hex_text(n as nat);
    }
    let len = digits.as_str().unicode_len();
    let mut text = String::new();
    let mut i: usize = len;
    while i < 6
        invariant
            len <= i,
            len == digits@.len(),
            len < 6 ==> i <= 6,
            len >= 6 ==> i == len,
            text@ == Seq::new((i - len) as nat, |j: int| '0'),
        decreases 6 - i,
    {
        push_char(&mut text, '0');
        i = i + 1;
        assert(text@ =~= Seq::new((i - len) as nat, |j: int| '0'));
    }
    let ghost zeros = text@;
    text.append(digits.as_str());
    proof {
        if len >= 6 {
            assert(zeros =~= Seq::<char>::empty());
            assert(text@ =~= digits@);
        }
    }
    text
}

/// Joins sequences one after another.
pub open spec fn concat<A>(parts: Seq<Seq<A>>) -> Seq<A>
    decreases parts.len(),
{
    if parts.len() == 0 {
        Seq::empty()
    } else {
        concat(parts.drop_last()) + parts.last()
    }
}

/// Joins texts with a separator between each two.
pub open spec fn join(parts: Seq<Seq<char>>, separator: Seq<char>) -> Seq<char>
    decreases parts.len(),
{
    if parts.len() == 0 {
        Seq::empty()
    } else if parts.len() == 1 {
        parts[0]
    } else {
        join(parts.drop_last(), separator) + separator + parts.last()
    }
}

/// Taking one more part adds it at the end.
pub proof fn lemma_concat_step<A>(parts: Seq<Seq<A>>, i: int)
    requires
        0 <= i < parts.len(),
    ensures
        concat(parts.take(i + 1)) == concat(parts.take(i)) + parts[i],
        concat(parts.take(0)) == Seq::<A>::empty(),
        parts.take(parts.len() as int) == parts,
{
    assert(parts.take(i + 1).drop_last() =~= parts.take(i));
    assert(parts.take(parts.len() as int) =~= parts);
}

/// What follows the first part of a joined text: each further part after a separator.
pub open spec fn continued(rest: Seq<Seq<char>>, separator: Seq<char>) -> Seq<char>
    decreases rest.len(),
{
    if rest.len() == 0 {
        Seq::empty()
    } else {
        continued(rest.drop_last(), separator) + separator + rest.last()
    }
}

/// A joined text is its first part and what follows it.
pub proof fn lemma_join_first(first: Seq<char>, rest: Seq<Seq<char>>, separator: Seq<char>)
    ensures
        join(seq![first] + rest, separator) == first + continued(rest, separator),
    decreases rest.len(),
{
    let parts = seq![first] + rest;
    if rest.len() == 0 {
        assert(parts[0] == first);
        assert(first + continued(rest, separator) =~= first);
    } else {
        assert(parts.drop_last() =~= seq![first] + rest.drop_last());
        assert(parts.last() == rest.last());
        lemma_join_first(first, rest.drop_last(), separator);
        assert(join(parts, separator) =~= first + continued(rest, separator));
    }
}

/// What follows the first part of a joined text is, part by part from the
/// front, a separator and a part.
pub proof fn lemma_continued_front(rest: Seq<Seq<char>>, separator: Seq<char>)
    requires
        rest.len() > 0,
    ensures
        continued(rest, separator) == separator + rest[0] + continued(rest.drop_first(), separator),
    decreases rest.len(),
{
    if rest.len() == 1 {
        assert(rest.drop_last() =~= Seq::<Seq<char>>::empty());
        assert(rest.drop_first() =~= Seq::<Seq<char>>::empty());
        assert(continued(rest, separator) =~= separator + rest[0] + continued(
            rest.drop_first(),
            separator,
        ));
    } else {
        lemma_continued_front(rest.drop_last(), separator);
        assert(rest.drop_last().drop_first() =~= rest.drop_first().drop_last());
        assert(rest.drop_last()[0] == rest[0]);
        assert(rest.drop_first().last() == rest.last());
        assert(continued(rest, separator) =~= separator + rest[0] + continued(
            rest.drop_first(),
            separator,
        ));
    }
}

/// The value of a lower-case hexadecimal digit.
pub open spec fn hex_digit_value(c: char) -> Option<nat> {
    if '0' <= c <= '9' {
        Some((c as u8 - 48) as nat)
    } else if 'a' <= c <= 'f' {
        Some((c as u8 - 87) as nat)
    } else {
        None
    }
}

/// Reads a lower-case hexadecimal digit.
pub fn read_hex_digit(c: char) -> (v: Option<u8>)
    ensures
        match v {
            Some(x) => hex_digit_value(c) == Some(x as nat) && x < 16,
            None => hex_digit_value(c) is None,
        },
{
    if '0' <= c && c <= '9' {
        Some(c as u8 - 48)
    } else if 'a' <= c && c <= 'f' {
        Some(c as u8 - 87)
    } else {
        None
    }
}

/// The number that hexadecimal digits stand for: at least one digit and at
/// most sixteen, the most significant first.
pub open spec fn hex_value(text: Seq<char>) -> Option<nat>
    decreases text.len(),
{
    if text.len() == 0 || text.len() > 16 {
        None
    } else {
        match hex_digit_value(text.last()) {
            None => None,
            Some(digit) => if text.len() == 1 {
                Some(digit)
            } else {
                match hex_value(text.drop_last()) {
                    Some(value) => Some(value * 16 + digit),
                    None => None,
                }
            },
        }
    }
}

/// A number of 64 bits that is written in hexadecimal digits reads back as itself.
pub proof fn lemma_hex_reads_back(n: nat)
    requires
        n <= u64::MAX,
    ensures
        hex_value(hex_text(n)) == Some(n),
    decreases n,
{
    lemma_hex_text(n);
    assert(hex_digit_value(hex_char(n % 16)) == Some(n % 16));
    if n >= 16 {
        lemma_hex_reads_back(n / 16);
        lemma_hex_text(n / 16);
        assert(hex_text(n).drop_last() =~= hex_text(n / 16));
    }
}

/// The number that hexadecimal digits stand for is below sixteen to the
/// power of their count, so that it fits 64 bits.
pub proof fn lemma_hex_value_bound(text: Seq<char>)
    requires
        hex_value(text) is Some,
    ensures
        hex_value(text)->Some_0 < pow16(text.len()),
        hex_value(text)->Some_0 <= u64::MAX,
    decreases text.len(),
{
    if text.len() > 1 {
        lemma_hex_value_bound(text.drop_last());
    } else {
        reveal_with_fuel(pow16, 2);
    }
    lemma_pow16_monotonic(text.len(), 16);
    lemma_hex_len(0, 16);
}

/// The powers of sixteen grow.
pub proof fn lemma_pow16_monotonic(a: nat, b: nat)
    requires
        a <= b,
    ensures
        pow16(a) <= pow16(b),
        pow16(a) >= 1,
    decreases b,
{
    if a < b {
        lemma_pow16_monotonic(a, (b - 1) as nat);
    } else if a > 0 {
        lemma_pow16_monotonic((a - 1) as nat, (a - 1) as nat);
    }
}

/// Digits that do not read as a number do not read as one when more follow.
pub proof fn lemma_hex_value_none(text: Seq<char>, n: int)
    requires
        1 <= n <= text.len(),
        hex_value(text.take(n)) is None,
    ensures
        hex_value(text) is None,
    decreases text.len() - n,
{
    if n < text.len() {
        assert(text.take(n + 1).drop_last() =~= text.take(n));
        if text.take(n + 1).len() <= 16 {
            assert(hex_value(text.take(n + 1)) is None);
        }
        lemma_hex_value_none(text, n + 1);
    } else {
        assert(text.take(n) =~= text);
    }
}

/// Reads a number from hexadecimal digits; `None` where the text is not one
/// to sixteen lower-case hexadecimal digits.
pub fn read_hex(text: &str) -> (n: Option<u64>)
    ensures
        match n {
            Some(v) => hex_value(text@) == Some(v as nat),
            None => hex_value(text@) is None,
        },
{
    let chars = chars_of(text);
    if chars.len() == 0 || chars.len() > 16 {
        return None;
    }
    let mut value: u64 = match read_hex_digit(chars[0]) {
        Some(digit) => digit as u64,
        None => {
            proof {
                assert(chars@.take(1).last() == chars@[0]);
                lemma_hex_value_none(chars@, 1);
            }
            return None;
        },
    };
    assert(chars@.take(1).last() == chars@[0]);
    let mut i: usize = 1;
    while i < chars.len()
        invariant
            1 <= i <= chars.len() <= 16,
            chars@ == text@,
            hex_value(chars@.take(i as int)) == Some(value as nat),
        decreases chars.len() - i,
    {
        proof {
            assert(chars@.take(i + 1).drop_last() =~= chars@.take(i as int));
            assert(chars@.take(i + 1).last() == chars@[i as int]);
            lemma_hex_value_bound(chars@.take(i as int));
            lemma_pow16_monotonic(i as nat, 15);
            assert(pow16(15) * 16 == pow16(16)) by {
                reveal_with_fuel(pow16, 2);
            }
            lemma_hex_len(0, 16);
        }
        match read_hex_digit(chars[i]) {
            Some(digit) => {
                value = value * 16 + digit as u64;
            },
            None => {
                proof {
                    lemma_hex_value_none(chars@, i + 1);
                }
                return None;
            },
        }
        i = i + 1;
    }
    assert(chars@.take(chars@.len() as int) =~= chars@);
    Some(value)
}

} // verus!
