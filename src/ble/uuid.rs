use crate::text::push_char;
use vstd::prelude::*;

verus! {

/// Why a text is not an attribute identifier.
#[derive(Clone, Copy, Debug, PartialEq, Eq, Structural)]
pub enum UuidError {
    /// Without its dashes the text holds neither 4 nor 32 characters; the count is given.
    InvalidLength(usize),
    /// A character that is neither a dash nor a hexadecimal digit.
    InvalidDigit,
}

/// A GATT attribute identifier in its 16-bit or 128-bit form.
///
/// The text writes an identifier most significant byte first. The 16-bit
/// form holds the value; the 128-bit form holds its bytes least significant
/// first, as the host stack stores them, the reverse of the text's order.
#[derive(Clone, Copy, Debug)]
pub enum BleUUID {
    Uuid16(u16),
    Uuid128([u8; 16]),
}

/// Whether `c` is a hexadecimal digit, in either case.
pub open spec fn is_hex_digit(c: char) -> bool {
    ('0' <= c && c <= '9') || ('a' <= c && c <= 'f') || ('A' <= c && c <= 'F')
}

/// The value of the hexadecimal digit `c`.
pub open spec fn hex_value(c: char) -> int {
    if '0' <= c && c <= '9' {
        c as int - '0' as int
    } else if 'a' <= c && c <= 'f' {
        c as int - 'a' as int + 10
    } else {
        c as int - 'A' as int + 10
    }
}

/// Reads one hexadecimal digit.
pub fn hex_digit(c: char) -> (r: Option<u8>)
    ensures
        r is Some <==> is_hex_digit(c),
        r matches Some(v) ==> v as int == hex_value(c) && v < 16,
{
    if '0' <= c && c <= '9' {
        Some((c as u32 - '0' as u32) as u8)
    } else if 'a' <= c && c <= 'f' {
        Some((c as u32 - 'a' as u32 + 10) as u8)
    } else if 'A' <= c && c <= 'F' {
        Some((c as u32 - 'A' as u32 + 10) as u8)
    } else {
        None
    }
}

/// Whether two byte arrays hold the same bytes.
pub fn same_bytes<const N: usize>(a: &[u8; N], b: &[u8; N]) -> (r: bool)
    ensures
        r == (a@ == b@),
{
    let mut i: usize = 0;
    while i < N
        invariant
            i <= N,
            a@.len() == N,
            b@.len() == N,
            forall|k: int| 0 <= k < i ==> a@[k] == b@[k],
        decreases N - i,
    {
        if a[i] != b[i] {
            return false;
        }
        i = i + 1;
    }
    assert(a@ =~= b@);
    true
}

impl BleUUID {
    /// Equality of identifiers: the same width and the same value.
    pub open spec fn same_as(&self, other: &BleUUID) -> bool {
        match (*self, *other) {
            (BleUUID::Uuid16(a), BleUUID::Uuid16(b)) => a == b,
            (BleUUID::Uuid128(a), BleUUID::Uuid128(b)) => a@ == b@,
            _ => false,
        }
    }
}

impl PartialEq for BleUUID {
    fn eq(&self, other: &BleUUID) -> (r: bool)
        ensures
            r == self.same_as(other),
    {
        match (self, other) {
            (BleUUID::Uuid16(a), BleUUID::Uuid16(b)) => *a == *b,
            (BleUUID::Uuid128(a), BleUUID::Uuid128(b)) => same_bytes(a, b),
            _ => false,
        }
    }
}

impl vstd::std_specs::cmp::PartialEqSpecImpl for BleUUID {
    open spec fn obeys_eq_spec() -> bool {
        true
    }

    open spec fn eq_spec(&self, other: &BleUUID) -> bool {
        self.same_as(other)
    }
}

impl Eq for BleUUID {
}

/// The text `s` with every dash taken out.
pub open spec fn without_dashes(s: Seq<char>) -> Seq<char>
    decreases s.len(),
{
    if s.len() == 0 {
        Seq::empty()
    } else {
        let rest = without_dashes(s.drop_last());
        if s.last() == '-' {
            rest
        } else {
            rest.push(s.last())
        }
    }
}

pub open spec fn all_hex(t: Seq<char>) -> bool {
    forall|i: int| 0 <= i < t.len() ==> is_hex_digit(#[trigger] t[i])
}

/// The byte written by the `k`-th pair of digits of `t`.
pub open spec fn pair_byte(t: Seq<char>, k: int) -> int {
    hex_value(t[2 * k]) * 16 + hex_value(t[2 * k + 1])
}

/// The bytes written by the digits `t`, two digits to a byte, in text order.
pub open spec fn digits_to_bytes(t: Seq<char>) -> Seq<u8> {
    Seq::new((t.len() / 2) as nat, |k: int| pair_byte(t, k) as u8)
}

/// The bytes of an identifier in the order in which its text writes them:
/// most significant first.
pub open spec fn text_order_bytes(u: BleUUID) -> Seq<u8> {
    match u {
        BleUUID::Uuid16(v) => seq![(v / 256) as u8, (v % 256) as u8],
        BleUUID::Uuid128(a) => Seq::new(16, |k: int| a@[15 - k]),
    }
}

/// The error that parsing `s` gives, if any.
pub open spec fn uuid_parse_error(s: Seq<char>) -> Option<UuidError> {
    let t = without_dashes(s);
    if t.len() != 4 && t.len() != 32 {
        Some(UuidError::InvalidLength(t.len() as usize))
    } else if !all_hex(t) {
        Some(UuidError::InvalidDigit)
    } else {
        None
    }
}

/// `s` is a text of the identifier `u`: 4 or 32 hexadecimal digits once the
/// dashes are taken out, which write the bytes of `u` in text order.
pub open spec fn is_text_of(s: Seq<char>, u: BleUUID) -> bool {
    let t = without_dashes(s);
    &&& all_hex(t)
    &&& (t.len() == 4 && u is Uuid16) || (t.len() == 32 && u is Uuid128)
    &&& text_order_bytes(u) == digits_to_bytes(t)
}

pub open spec fn hex_chars() -> Seq<char> {
    seq!['0', '1', '2', '3', '4', '5', '6', '7', '8', '9', 'a', 'b', 'c', 'd', 'e', 'f']
}

/// The lowercase digit of value `n`.
pub open spec fn hex_char(n: int) -> char {
    hex_chars()[n]
}

/// Two lowercase digits for each byte of `bs`.
pub open spec fn hex_of_bytes(bs: Seq<u8>) -> Seq<char> {
    Seq::new(
        2 * bs.len(),
        |j: int|
            if j % 2 == 0 {
                hex_char(bs[j / 2] as int / 16)
            } else {
                hex_char(bs[j / 2] as int % 16)
            },
    )
}

/// The 32 digits `h` grouped 8-4-4-4-12 with dashes.
pub open spec fn dashed(h: Seq<char>) -> Seq<char> {
    h.subrange(0, 8) + seq!['-'] + h.subrange(8, 12) + seq!['-'] + h.subrange(12, 16) + seq!['-']
        + h.subrange(16, 20) + seq!['-'] + h.subrange(20, 32)
}

/// The text of an identifier: lowercase digits, grouped with dashes in the 128-bit form.
pub open spec fn uuid_text(u: BleUUID) -> Seq<char> {
    match u {
        BleUUID::Uuid16(_) => hex_of_bytes(text_order_bytes(u)),
        BleUUID::Uuid128(_) => dashed(hex_of_bytes(text_order_bytes(u))),
    }
}

/// The canonical form of the digits `t`: lowercase, and for 32 digits grouped with dashes.
pub open spec fn canonical_uuid_text(t: Seq<char>) -> Seq<char> {
    let lower = t.map(|i: int, c: char| hex_char(hex_value(c)));
    if t.len() == 32 {
        dashed(lower)
    } else {
        lower
    }
}

/// The lowercase digit of value `n`.
pub fn hex_char_of(n: u8) -> (c: char)
    requires
        n < 16,
    ensures
        c == hex_char(n as int),
{
    let digits: [char; 16] = [
        '0', '1', '2', '3', '4', '5', '6', '7', '8', '9', 'a', 'b', 'c', 'd', 'e', 'f',
    ];
    proof {
        assert(digits@ =~= hex_chars());
    }
    digits[n as usize]
}

/// The characters of `s` other than dashes.
fn strip_dashes(s: &str) -> (r: Vec<char>)
    ensures
        r@ == without_dashes(s@),
{
    let n = s.unicode_len();
    let mut r: Vec<char> = Vec::new();
    let mut i: usize = 0;
    while i < n
        invariant
            i <= n,
            n == s@.len(),
            r@ == without_dashes(s@.subrange(0, i as int)),
        decreases n - i,
    {
        let c = s.get_char(i);
        proof {
            let next = s@.subrange(0, i + 1);
            assert(next.drop_last() =~= s@.subrange(0, i as int));
            assert(next.last() == c);
        }
        if c != '-' {
            r.push(c);
        }
        i = i + 1;
    }
    assert(s@.subrange(0, n as int) =~= s@);
    r
}

/// Reads the digits `t` two at a time into bytes, in text order.
fn decode_hex_pairs(t: &Vec<char>) -> (r: Option<Vec<u8>>)
    requires
        t@.len() % 2 == 0,
    ensures
        r is Some <==> all_hex(t@),
        r matches Some(b) ==> b@ == digits_to_bytes(t@),
{
    let n = t.len() / 2;
    let mut out: Vec<u8> = Vec::new();
    let mut k: usize = 0;
    while k < n
        invariant
            k <= n,
            2 * n == t@.len(),
            t@.len() <= usize::MAX,
            out@.len() == k,
            forall|i: int| 0 <= i < 2 * k ==> is_hex_digit(#[trigger] t@[i]),
            forall|j: int| 0 <= j < k ==> out@[j] == pair_byte(t@, j) as u8,
        decreases n - k,
    {
        let hi = hex_digit(t[2 * k]);
        let lo = hex_digit(t[2 * k + 1]);
        match (hi, lo) {
            (Some(h), Some(l)) => {
                out.push(h * 16 + l);
            },
            _ => {
                return None;
            },
        }
        k = k + 1;
    }
    assert(out@ =~= digits_to_bytes(t@));
    Some(out)
}

impl BleUUID {
    /// Parses a hexadecimal text of 4 or 32 digits, dashes anywhere, into a
    /// 16-bit or a 128-bit identifier, reading it most significant byte first.
    pub fn parse(value: &str) -> (r: Result<BleUUID, UuidError>)
        ensures
            r is Ok <==> uuid_parse_error(value@) is None,
            r matches Err(e) ==> uuid_parse_error(value@) == Some(e),
            r matches Ok(u) ==> is_text_of(value@, u),
    {
        let digits = strip_dashes(value);
        let n = digits.len();
        if n != 4 && n != 32 {
            return Err(UuidError::InvalidLength(n));
        }
        let bytes = match decode_hex_pairs(&digits) {
            Some(b) => b,
            None => {
                return Err(UuidError::InvalidDigit);
            },
        };
        if n == 4 {
            let u = BleUUID::Uuid16(bytes[0] as u16 * 256 + bytes[1] as u16);
            assert(text_order_bytes(u) =~= digits_to_bytes(digits@));
            Ok(u)
        } else {
            let mut a = [0u8; 16];
            let mut i: usize = 0;
            while i < 16
                invariant
                    i <= 16,
                    bytes@.len() == 16,
                    forall|j: int| 0 <= j < i ==> a@[j] == bytes@[15 - j],
                decreases 16 - i,
            {
                a[i] = bytes[15 - i];
                i = i + 1;
            }
            let u = BleUUID::Uuid128(a);
            assert(text_order_bytes(u) =~= digits_to_bytes(digits@));
            Ok(u)
        }
    }

    /// The bytes of the identifier in text order.
    fn text_order_vec(&self) -> (r: Vec<u8>)
        ensures
            r@ == text_order_bytes(*self),
    {
        match self {
            BleUUID::Uuid16(v) => {
                let mut r: Vec<u8> = Vec::new();
                r.push((*v / 256) as u8);
                r.push((*v % 256) as u8);
                assert(r@ =~= text_order_bytes(*self));
                r
            },
            BleUUID::Uuid128(a) => {
                let mut r: Vec<u8> = Vec::new();
                let mut k: usize = 0;
                while k < 16
                    invariant
                        k <= 16,
                        r@.len() == k,
                        forall|j: int| 0 <= j < k ==> r@[j] == a@[15 - j],
                    decreases 16 - k,
                {
                    r.push(a[15 - k]);
                    k = k + 1;
                }
                assert(r@ =~= text_order_bytes(*self));
                r
            },
        }
    }

    /// The text of the identifier: lowercase digits, the 128-bit form
    /// grouped 8-4-4-4-12 with dashes.
    pub fn to_string(&self) -> (r: String)
        ensures
            r@ == uuid_text(*self),
    {
        let bytes = self.text_order_vec();
        let hex = hex_string(&bytes);
        match self {
            BleUUID::Uuid16(_) => hex,
            BleUUID::Uuid128(_) => {
                let h = hex.as_str();
                let mut r = String::new();
                r.append(h.substring_char(0, 8));
                push_char(&mut r, '-');
                r.append(h.substring_char(8, 12));
                push_char(&mut r, '-');
                r.append(h.substring_char(12, 16));
                push_char(&mut r, '-');
                r.append(h.substring_char(16, 20));
                push_char(&mut r, '-');
                r.append(h.substring_char(20, 32));
                assert(r@ =~= dashed(hex@));
                r
            },
        }
    }
}

/// Two lowercase digits for each byte.
pub fn hex_string(bytes: &Vec<u8>) -> (r: String)
    requires
        bytes@.len() <= usize::MAX / 2,
    ensures
        r@ == hex_of_bytes(bytes@),
{
    let mut r = String::new();
    let mut k: usize = 0;
    while k < bytes.len()
        invariant
            k <= bytes@.len(),
            bytes@.len() <= usize::MAX / 2,
            r@ =~= hex_of_bytes(bytes@).subrange(0, 2 * k),
        decreases bytes@.len() - k,
    {
        let b = bytes[k];
        push_char(&mut r, hex_char_of(b / 16));
        push_char(&mut r, hex_char_of(b % 16));
        k = k + 1;
        assert(r@ =~= hex_of_bytes(bytes@).subrange(0, 2 * k));
    }
    r
}

proof fn lemma_pair_digits(h: int, l: int)
    requires
        0 <= h < 16,
        0 <= l < 16,
    ensures
        0 <= h * 16 + l < 256,
        (h * 16 + l) / 16 == h,
        (h * 16 + l) % 16 == l,
{
    assert(0 <= h * 16 + l < 256) by (nonlinear_arith)
        requires
            0 <= h < 16,
            0 <= l < 16,
    ;
    assert((h * 16 + l) / 16 == h && (h * 16 + l) % 16 == l) by (nonlinear_arith)
        requires
            0 <= h < 16,
            0 <= l < 16,
    ;
}

/// Formatting a parsed identifier gives back its text in canonical form:
/// the digits in lowercase, without dashes for 4 digits and grouped
/// 8-4-4-4-12 for 32 digits, wherever the dashes stood before.
pub proof fn lemma_uuid_text_round_trip(s: Seq<char>, u: BleUUID)
    requires
        is_text_of(s, u),
    ensures
        uuid_text(u) == canonical_uuid_text(without_dashes(s)),
{
    let t = without_dashes(s);
    let lower = t.map(|i: int, c: char| hex_char(hex_value(c)));
    let bytes = digits_to_bytes(t);
    assert forall|j: int| 0 <= j < t.len() implies #[trigger] hex_of_bytes(bytes)[j] == lower[j] by {
        let k = j / 2;
        assert(0 <= k < t.len() / 2);
        assert(2 * k <= j <= 2 * k + 1);
        assert(is_hex_digit(t[2 * k]) && is_hex_digit(t[2 * k + 1]));
        lemma_pair_digits(hex_value(t[2 * k]), hex_value(t[2 * k + 1]));
    }
    assert(hex_of_bytes(bytes) =~= lower);
}

/// Two identifiers parsed from the same text are equal.
pub proof fn lemma_same_text_same_uuid(s: Seq<char>, u1: BleUUID, u2: BleUUID)
    requires
        is_text_of(s, u1),
        is_text_of(s, u2),
    ensures
        u1.same_as(&u2),
{
    let b1 = text_order_bytes(u1);
    let b2 = text_order_bytes(u2);
    assert(b1 == b2);
    match (u1, u2) {
        (BleUUID::Uuid16(v1), BleUUID::Uuid16(v2)) => {
            assert(b1[0] == b2[0] && b1[1] == b2[1]);
            assert(v1 == v2);
        },
        (BleUUID::Uuid128(a1), BleUUID::Uuid128(a2)) => {
            assert forall|i: int| 0 <= i < 16 implies a1@[i] == a2@[i] by {
                assert(b1[15 - i] == b2[15 - i]);
            }
            assert(a1@ =~= a2@);
        },
        _ => {},
    }
}

/// A 16-bit and a 128-bit identifier are never equal, whatever their values.
pub proof fn lemma_widths_never_equal(a: u16, b: [u8; 16])
    ensures
        !BleUUID::Uuid16(a).same_as(&BleUUID::Uuid128(b)),
        !BleUUID::Uuid128(b).same_as(&BleUUID::Uuid16(a)),
{
}

/// A discovered attribute that carries an identifier.
pub trait GattItem {
    spec fn spec_uuid(&self) -> BleUUID;

    fn item_uuid(&self) -> (r: &BleUUID)
        ensures
            *r == self.spec_uuid(),
    ;
}

/// The position of the first of `items` whose identifier equals `u`.
pub open spec fn first_with_uuid<T: GattItem>(items: Seq<T>, u: BleUUID) -> Option<int> {
    if exists|i: int| 0 <= i < items.len() && (#[trigger] items[i]).spec_uuid().same_as(&u) {
        Some(
            choose|i: int|
                0 <= i < items.len() && (#[trigger] items[i]).spec_uuid().same_as(&u) && forall|
                    j: int,
                | 0 <= j < i ==> !(#[trigger] items[j]).spec_uuid().same_as(&u),
        )
    } else {
        None
    }
}

/// The position of the first of `items` whose identifier equals `uuid`.
pub fn position_by_uuid<T: GattItem>(items: &Vec<T>, uuid: &BleUUID) -> (r: Option<usize>)
    ensures
        r matches Some(i) ==> i < items@.len() && first_with_uuid(items@, *uuid) == Some(i as int),
        r is None ==> first_with_uuid(items@, *uuid) is None,
{
    let mut i: usize = 0;
    while i < items.len()
        invariant
            i <= items@.len(),
            forall|j: int| 0 <= j < i ==> !(#[trigger] items@[j]).spec_uuid().same_as(uuid),
        decreases items@.len() - i,
    {
        if *items[i].item_uuid() == *uuid {
            proof {
                let k = choose|k: int|
                    0 <= k < items@.len() && (#[trigger] items@[k]).spec_uuid().same_as(uuid)
                        && forall|j: int|
                        0 <= j < k ==> !(#[trigger] items@[j]).spec_uuid().same_as(uuid);
                assert(0 <= i < items@.len() && items@[i as int].spec_uuid().same_as(uuid) && forall|
                    j: int,
                | 0 <= j < i ==> !(#[trigger] items@[j]).spec_uuid().same_as(uuid));
                if k < i {
                    assert(!items@[k].spec_uuid().same_as(uuid));
                } else if k > i {
                    assert(!items@[i as int].spec_uuid().same_as(uuid));
                }
            }
            return Some(i);
        }
        i = i + 1;
    }
    None
}

} // verus!
