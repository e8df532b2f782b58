//! Strings of at most seven UTF-8 bytes, stored inline and padded with `0xFF`.

use vstd::prelude::*;
use vstd::slice::*;
use vstd::string::*;
use vstd::utf8::*;

verus! {

/// Number of bytes a small string can hold.
pub const SMALL_STRING_CAPACITY: usize = 7;

/// Index of the first `0xFF` byte at or after `from`, or 7 when there is none.
pub open spec fn end_from(b: Seq<u8>, from: int) -> int
    decreases 7 - from,
{
    if from >= 7 {
        7
    } else if b[from] == 0xFF {
        from
    } else {
        end_from(b, from + 1)
    }
}

/// `b` followed by as many `0xFF` bytes as are needed to fill seven bytes.
pub open spec fn padded(b: Seq<u8>) -> Seq<u8> {
    Seq::new(7, |i: int| if i < b.len() { b[i] } else { 0xFFu8 })
}

/// Number of UTF-16 code units that encode `c`.
pub open spec fn utf16_width(c: char) -> int {
    if (c as u32) < 0x10000 {
        1
    } else {
        2
    }
}

/// Number of UTF-8 bytes that encode `c`.
pub open spec fn utf8_width(c: char) -> int {
    if (c as u32) < 0x80 {
        1
    } else if (c as u32) < 0x800 {
        2
    } else if (c as u32) < 0x10000 {
        3
    } else {
        4
    }
}

/// Number of UTF-16 code units that encode `chars`.
pub open spec fn utf16_units(chars: Seq<char>) -> int
    decreases chars.len(),
{
    if chars.len() == 0 {
        0
    } else {
        utf16_units(chars.drop_last()) + utf16_width(chars.last())
    }
}

/// Number of UTF-8 bytes that encode `chars`.
pub open spec fn utf8_units(chars: Seq<char>) -> int
    decreases chars.len(),
{
    if chars.len() == 0 {
        0
    } else {
        utf8_units(chars.drop_last()) + utf8_width(chars.last())
    }
}

/// The position in `chars` of the character that starts at UTF-16 offset
/// `idx`, looking only at positions from `k` on, where the first `k`
/// characters take `before` code units. `None` when `idx` falls inside a
/// surrogate pair or beyond the end; the end itself is a position.
pub open spec fn char_at_utf16_from(chars: Seq<char>, idx: int, k: int, before: int) -> Option<int>
    decreases chars.len() - k,
{
    if before == idx && k <= chars.len() {
        Some(k)
    } else if before > idx || k >= chars.len() || k < 0 {
        None
    } else {
        char_at_utf16_from(chars, idx, k + 1, before + utf16_width(chars[k]))
    }
}

/// The position in `chars` of the character that starts at UTF-16 offset `idx`.
pub open spec fn char_at_utf16(chars: Seq<char>, idx: int) -> Option<int> {
    char_at_utf16_from(chars, idx, 0, 0)
}

/// The position in `chars` of the character that starts at UTF-8 offset
/// `idx`, looking only at positions from `k` on, where the first `k`
/// characters take `before` bytes.
pub open spec fn char_at_utf8_from(chars: Seq<char>, idx: int, k: int, before: int) -> Option<int>
    decreases chars.len() - k,
{
    if before == idx && k <= chars.len() {
        Some(k)
    } else if before > idx || k >= chars.len() || k < 0 {
        None
    } else {
        char_at_utf8_from(chars, idx, k + 1, before + utf8_width(chars[k]))
    }
}

/// The position in `chars` of the character that starts at UTF-8 offset `idx`.
pub open spec fn char_at_utf8(chars: Seq<char>, idx: int) -> Option<int> {
    char_at_utf8_from(chars, idx, 0, 0)
}

/// A string of at most seven UTF-8 bytes. The bytes after the string are
/// `0xFF`, which no UTF-8 text holds.
#[derive(Clone, Copy, PartialEq, Eq, Hash, Debug)]
pub struct SmallString {
    bytes: [u8; 7],
}

/// Every byte before the first `0xFF` differs from `0xFF`.
pub proof fn lemma_end_from(b: Seq<u8>, from: int)
    requires
        0 <= from <= 7,
        b.len() == 7,
    ensures
        from <= end_from(b, from) <= 7,
        forall|i: int| from <= i < end_from(b, from) ==> b[i] != 0xFF,
        end_from(b, from) < 7 ==> b[end_from(b, from)] == 0xFF,
    decreases 7 - from,
{
    if from < 7 && b[from] != 0xFF {
        lemma_end_from(b, from + 1);
    }
}

/// A byte sequence that is valid UTF-8 holds no byte above `0xF7`.
pub proof fn lemma_valid_utf8_bytes(b: Seq<u8>)
    requires
        valid_utf8(b),
    ensures
        forall|i: int| 0 <= i < b.len() ==> b[i] <= 0xF7,
    decreases b.len(),
{
    if b.len() != 0 {
        let w = length_of_first_scalar(b);
        let rest = pop_first_scalar(b);
        lemma_valid_utf8_bytes(rest);
        assert forall|i: int| 0 <= i < b.len() implies b[i] <= 0xF7 by {
            if i >= w {
                assert(rest[i - w] == b[i]);
            }
        }
    }
}

/// Padding a valid UTF-8 sequence of at most seven bytes puts its end at
/// its length.
pub proof fn lemma_padded_end(b: Seq<u8>)
    requires
        valid_utf8(b),
        b.len() <= 7,
    ensures
        end_from(padded(b), 0) == b.len(),
        padded(b).subrange(0, b.len() as int) =~= b,
{
    lemma_valid_utf8_bytes(b);
    let p = padded(b);
    lemma_end_from(p, 0);
    let e = end_from(p, 0);
    if e < b.len() {
        assert(p[e] == 0xFF);
        assert(p[e] == b[e]);
    }
    if e > b.len() {
        assert(p[b.len() as int] != 0xFF);
    }
}

/// Decoding yields at most one character per byte.
pub proof fn lemma_decode_len(b: Seq<u8>)
    requires
        valid_utf8(b),
    ensures
        decode_utf8(b).len() <= b.len(),
    decreases b.len(),
{
    if b.len() != 0 {
        lemma_decode_len(pop_first_scalar(b));
    }
}

/// `core::str::from_utf8`: succeeds exactly on valid UTF-8, and the string
/// it returns has the given bytes.
#[verifier::external_body]
fn str_from_utf8(v: &[u8]) -> (r: Option<&str>)
    ensures
        r is Some <==> valid_utf8(v@),
        r is Some ==> r->0.spec_bytes() == v@,
{
    match core::str::from_utf8(v) {
        Ok(s) => Some(s),
        Err(_) => None,
    }
}

/// Writes the UTF-8 encoding of `ch` at the start of `buf` and leaves the
/// bytes after it as they were.
fn encode_code_point(ch: char, buf: &mut [u8; 7])
    ensures
        final(buf)@.len() == 7,
        final(buf)@.subrange(0, encode_scalar(ch as u32).len() as int) == encode_scalar(ch as u32),
        forall|i: int|
            encode_scalar(ch as u32).len() <= i < 7 ==> final(buf)@[i] == old(buf)@[i],
{
    let scalar: u32 = ch as u32;
    if scalar <= 0x7F {
        buf[0] = (scalar & 0x7F) as u8;
        proof {
            assert(buf@.subrange(0, 1) =~= encode_scalar(scalar));
        }
    } else if scalar <= 0x7FF {
        buf[0] = 0xC0 | ((scalar >> 6) & 0x1F) as u8;
        buf[1] = 0x80 | (scalar & 0x3F) as u8;
        proof {
            assert(buf@.subrange(0, 2) =~= encode_scalar(scalar));
        }
    } else if scalar <= 0xFFFF {
        buf[0] = 0xE0 | ((scalar >> 12) & 0x0F) as u8;
        buf[1] = 0x80 | ((scalar >> 6) & 0x3F) as u8;
        buf[2] = 0x80 | (scalar & 0x3F) as u8;
        proof {
            assert(buf@.subrange(0, 3) =~= encode_scalar(scalar));
        }
    } else {
        buf[0] = 0xF0 | ((scalar >> 18) & 0x7) as u8;
        buf[1] = 0x80 | ((scalar >> 12) & 0x3F) as u8;
        buf[2] = 0x80 | ((scalar >> 6) & 0x3F) as u8;
        buf[3] = 0x80 | (scalar & 0x3F) as u8;
        proof {
            assert(buf@.subrange(0, 4) =~= encode_scalar(scalar));
        }
    }
}

impl SmallString {
    /// The seven stored bytes, padding included.
    pub closed spec fn raw(self) -> Seq<u8> {
        self.bytes@
    }

    /// Number of bytes before the padding.
    pub open spec fn spec_len(self) -> int {
        end_from(self.raw(), 0)
    }

    /// The bytes before the padding.
    pub open spec fn content(self) -> Seq<u8> {
        self.raw().subrange(0, self.spec_len())
    }

    /// The content is valid UTF-8 and everything after it is padding.
    #[verifier::type_invariant]
    pub open spec fn wf(self) -> bool {
        &&& self.raw().len() == 7
        &&& valid_utf8(self.content())
        &&& forall|i: int| self.spec_len() <= i < 7 ==> self.raw()[i] == 0xFF
    }

    /// The small string that holds the characters `s`, which fit in seven
    /// bytes.
    pub open spec fn spec_from_chars(s: Seq<char>) -> SmallString {
        choose|x: SmallString| x.raw() == padded(encode_utf8(s))
    }

    /// Two small strings with the same bytes are the same small string.
    pub proof fn lemma_raw_injective(x: SmallString, y: SmallString)
        requires
            x.raw() == y.raw(),
        ensures
            x == y,
    {
        assert(x.bytes =~= y.bytes);
    }

    /// The characters of the string.
    pub open spec fn view(self) -> Seq<char> {
        decode_utf8(self.content())
    }

    /// Whether every byte of the content is an ASCII byte.
    pub open spec fn spec_is_ascii(self) -> bool {
        forall|i: int| 0 <= i < self.spec_len() ==> self.raw()[i] <= 127
    }

    /// The empty string: seven padding bytes.
    pub fn empty() -> (r: Self)
        ensures
            r.wf(),
            r.spec_len() == 0,
            r@ =~= Seq::<char>::empty(),
    {
        let bytes: [u8; 7] = [0xFF, 0xFF, 0xFF, 0xFF, 0xFF, 0xFF, 0xFF];
        proof {
            let r = SmallString { bytes };
            assert(r.content() =~= Seq::<u8>::empty());
        }
        SmallString { bytes }
    }

    /// Length in bytes: the position of the first `0xFF`, or 7.
    pub fn len(&self) -> (r: usize)
        ensures
            r == self.spec_len(),
            r <= 7,
    {
        let mut position: u8 = 0;
        proof {
            lemma_end_from(self.raw(), 0);
        }
        loop
            invariant_except_break
                position < 7,
                end_from(self.raw(), 0) == end_from(self.raw(), position as int),
            invariant
                self.raw().len() == 7,
            ensures
                position <= 7,
                position as int == end_from(self.raw(), 0),
            decreases 7 - position,
        {
            let is_end_byte = self.bytes[position as usize] == 0xFF;
            assert(self.raw()[position as int] == self.bytes[position as int]);
            if is_end_byte {
                assert(end_from(self.raw(), position as int) == position as int);
                break ;
            }
            assert(end_from(self.raw(), position as int) == end_from(
                self.raw(),
                position as int + 1,
            ));
            position += 1;
            if position == 7 {
                break ;
            }
        }
        position as usize
    }

    /// Whether the string holds only ASCII characters.
    pub fn is_ascii(&self) -> (r: bool)
        ensures
            r == self.spec_is_ascii(),
    {
        proof {
            use_type_invariant(self);
        }
        proof {
            lemma_end_from(self.raw(), 0);
        }
        (self.bytes[0] == 0xFF || self.bytes[0] <= 127) && (self.bytes[1] == 0xFF || self.bytes[1]
            <= 127) && (self.bytes[2] == 0xFF || self.bytes[2] <= 127) && (self.bytes[3] == 0xFF
            || self.bytes[3] <= 127) && (self.bytes[4] == 0xFF || self.bytes[4] <= 127) && (
        self.bytes[5] == 0xFF || self.bytes[5] <= 127) && (self.bytes[6] == 0xFF || self.bytes[6]
            <= 127)
    }

    /// The stored bytes without the padding.
    pub fn as_bytes(&self) -> (r: &[u8])
        ensures
            r@ == self.content(),
    {
        let n: usize = self.len();
        let all: &[u8] = self.bytes.as_slice();
        slice_subrange(all, 0, n)
    }

    /// A well-formed small string has at most seven bytes and characters.
    pub proof fn lemma_char_count(self)
        requires
            self.wf(),
        ensures
            0 <= self.spec_len() <= 7,
            self.content().len() == self.spec_len(),
            self@.len() <= self.spec_len(),
    {
        lemma_end_from(self.raw(), 0);
        lemma_decode_len(self.content());
    }

    /// The string as a `str`.
    pub fn as_str(&self) -> (r: &str)
        ensures
            r@ == self@,
            r.spec_bytes() == self.content(),
    {
        proof {
            use_type_invariant(self);
        }
        match str_from_utf8(self.as_bytes()) {
            Some(s) => {
                proof {
                    encode_utf8_decode_utf8(s@);
                }
                s
            },
            None => "",
        }
    }

    /// The seven stored bytes, padding included.
    pub fn data(&self) -> (r: &[u8; 7])
        ensures
            r@ == self.raw(),
    {
        &self.bytes
    }

    /// Length in UTF-16 code units.
    pub fn utf16_len(&self) -> (r: usize)
        ensures
            r == utf16_units(self@),
    {
        proof {
            use_type_invariant(self);
        }
        let s = self.as_str();
        let n: usize = s.unicode_len();
        proof {
            self.lemma_char_count();
        }
        let mut k: usize = 0;
        let mut units: usize = 0;
        while k < n
            invariant
                k <= n <= 7,
                n == s@.len(),
                units == utf16_units(s@.take(k as int)),
                units <= 2 * k,
            decreases n - k,
        {
            let c = s.get_char(k);
            if (c as u32) < 0x10000 {
                units += 1;
            } else {
                units += 2;
            }
            k += 1;
            proof {
                assert(s@.take(k as int).drop_last() =~= s@.take(k - 1));
            }
        }
        proof {
            assert(s@.take(n as int) =~= s@);
        }
        units
    }

    /// The character that starts at UTF-16 offset `idx`, which must be the
    /// offset of a character encoded by a single code unit.
    pub fn utf16_char(&self, idx: usize) -> (r: char)
        requires
            char_at_utf16(self@, idx as int) is Some,
            char_at_utf16(self@, idx as int)->0 < self@.len(),
            utf16_width(self@[char_at_utf16(self@, idx as int)->0]) == 1,
        ensures
            r == self@[char_at_utf16(self@, idx as int)->0],
    {
        proof {
            use_type_invariant(self);
        }
        let s = self.as_str();
        let n: usize = s.unicode_len();
        proof {
            self.lemma_char_count();
        }
        let mut k: usize = 0;
        let mut u16_i: usize = 0;
        while k < n
            invariant
                k <= n <= 7,
                n == s@.len(),
                s@ == self@,
                u16_i <= 2 * k,
                char_at_utf16(self@, idx as int) is Some,
                char_at_utf16(self@, idx as int)->0 < self@.len(),
                char_at_utf16(self@, idx as int) == char_at_utf16_from(
                    self@,
                    idx as int,
                    k as int,
                    u16_i as int,
                ),
            decreases n - k,
        {
            let ch = s.get_char(k);
            if idx == u16_i {
                return ch;
            }
            if (ch as u32) < 0x10000 {
                u16_i += 1;
            } else {
                u16_i += 2;
            }
            k += 1;
        }
        proof {
            assert(false);
        }
        '\0'
    }

    /// The UTF-8 offset of the character that starts at UTF-16 offset
    /// `utf16_idx`, or `None` when that offset falls inside a surrogate pair.
    pub fn utf8_index(&self, utf16_idx: usize) -> (r: Option<usize>)
        requires
            utf16_idx <= utf16_units(self@),
        ensures
            r is Some <==> char_at_utf16(self@, utf16_idx as int) is Some,
            r is Some ==> r->0 == utf8_units(
                self@.take(char_at_utf16(self@, utf16_idx as int)->0),
            ),
    {
        proof {
            use_type_invariant(self);
        }
        let s = self.as_str();
        let n: usize = s.unicode_len();
        proof {
            self.lemma_char_count();
        }
        let mut k: usize = 0;
        let mut current_utf16_index: usize = 0;
        let mut idx: usize = 0;
        while k < n
            invariant
                k <= n <= 7,
                n == s@.len(),
                s@ == self@,
                current_utf16_index == utf16_units(self@.take(k as int)),
                current_utf16_index <= 2 * k,
                idx == utf8_units(self@.take(k as int)),
                idx <= 4 * k,
                char_at_utf16(self@, utf16_idx as int) == char_at_utf16_from(
                    self@,
                    utf16_idx as int,
                    k as int,
                    current_utf16_index as int,
                ),
            decreases n - k,
        {
            if current_utf16_index == utf16_idx {
                return Some(idx);
            }
            if current_utf16_index > utf16_idx {
                return None;
            }
            let ch = s.get_char(k);
            let c: u32 = ch as u32;
            current_utf16_index += if c < 0x10000 {
                1
            } else {
                2
            };
            idx += if c < 0x80 {
                1
            } else if c < 0x800 {
                2
            } else if c < 0x10000 {
                3
            } else {
                4
            };
            k += 1;
            proof {
                assert(self@.take(k as int).drop_last() =~= self@.take(k - 1));
            }
        }
        proof {
            assert(self@.take(n as int) =~= self@);
        }
        if current_utf16_index > utf16_idx {
            return None;
        }
        Some(idx)
    }

    /// The UTF-16 offset of the character that starts at UTF-8 offset
    /// `utf8_idx`, which must be a character boundary or the end.
    pub fn utf16_index(&self, utf8_idx: usize) -> (r: usize)
        requires
            char_at_utf8(self@, utf8_idx as int) is Some,
        ensures
            r == utf16_units(self@.take(char_at_utf8(self@, utf8_idx as int)->0)),
    {
        proof {
            use_type_invariant(self);
        }
        let s = self.as_str();
        let n: usize = s.unicode_len();
        proof {
            self.lemma_char_count();
        }
        let mut k: usize = 0;
        let mut utf16_idx: usize = 0;
        let mut idx: usize = 0;
        while k < n
            invariant
                k <= n <= 7,
                n == s@.len(),
                s@ == self@,
                utf16_idx == utf16_units(self@.take(k as int)),
                utf16_idx <= 2 * k,
                idx <= 4 * k,
                char_at_utf8(self@, utf8_idx as int) is Some,
                char_at_utf8(self@, utf8_idx as int) == char_at_utf8_from(
                    self@,
                    utf8_idx as int,
                    k as int,
                    idx as int,
                ),
            decreases n - k,
        {
            if idx == utf8_idx {
                return utf16_idx;
            }
            let ch = s.get_char(k);
            let c: u32 = ch as u32;
            utf16_idx += if c < 0x10000 {
                1
            } else {
                2
            };
            idx += if c < 0x80 {
                1
            } else if c < 0x800 {
                2
            } else if c < 0x10000 {
                3
            } else {
                4
            };
            k += 1;
            proof {
                assert(self@.take(k as int).drop_last() =~= self@.take(k - 1));
            }
        }
        utf16_idx
    }

    /// The small string that holds `string`, which must fit in seven bytes.
    pub fn from_str_unchecked(string: &str) -> (r: Self)
        requires
            string.spec_bytes().len() < 8,
        ensures
            r.raw() == padded(string.spec_bytes()),
            r == Self::spec_from_chars(string@),
            r.wf(),
            r@ == string@,
    {
        let string_bytes = string.as_bytes();
        let n: usize = string_bytes.len();
        let mut bytes: [u8; 7] = [0xFF, 0xFF, 0xFF, 0xFF, 0xFF, 0xFF, 0xFF];
        let mut i: usize = 0;
        while i < n
            invariant
                i <= n <= 7,
                n == string_bytes@.len(),
                bytes@.len() == 7,
                forall|j: int| 0 <= j < i ==> bytes@[j] == string_bytes@[j],
                forall|j: int| i <= j < 7 ==> bytes@[j] == 0xFF,
            decreases n - i,
        {
            bytes[i] = string_bytes[i];
            i += 1;
        }
        proof {
            let x = SmallString { bytes };
            assert(x.raw() =~= padded(string.spec_bytes()));
            Self::lemma_padded_is_string(x, string@);
            Self::lemma_raw_injective(x, Self::spec_from_chars(string@));
        }
        SmallString { bytes }
    }

    /// The small string made of the single character `ch`.
    pub fn from_code_point(ch: char) -> (r: Self)
        ensures
            r.raw() == padded(encode_utf8(seq![ch])),
            r == Self::spec_from_chars(seq![ch]),
            r.wf(),
            r@ == seq![ch],
    {
        let mut bytes: [u8; 7] = [0xFF, 0xFF, 0xFF, 0xFF, 0xFF, 0xFF, 0xFF];
        encode_code_point(ch, &mut bytes);
        proof {
            let r = SmallString { bytes };
            let chars = seq![ch];
            assert(chars.drop_first() =~= Seq::<char>::empty());
            assert(encode_utf8(chars.drop_first()) =~= Seq::<u8>::empty());
            assert(encode_utf8(chars) =~= encode_scalar(ch as u32));
            let e = encode_scalar(ch as u32);
            assert(e.len() <= 4);
            assert forall|i: int| 0 <= i < 7 implies r.raw()[i] == padded(e)[i] by {
                if i < e.len() {
                    assert(r.raw().subrange(0, e.len() as int)[i] == e[i]);
                }
            }
            assert(r.raw() =~= padded(e));
            Self::lemma_padded_is_string(r, chars);
            Self::lemma_raw_injective(r, Self::spec_from_chars(chars));
        }
        SmallString { bytes }
    }

    /// The small string that holds `value`, or `Err` when `value` is longer
    /// than seven bytes.
    pub fn try_from(value: &str) -> (r: Result<Self, ()>)
        ensures
            r is Ok <==> value.spec_bytes().len() < 8,
            r is Ok ==> r->Ok_0.raw() == padded(value.spec_bytes()) && r->Ok_0.wf() && r->Ok_0@
                == value@ && r->Ok_0 == Self::spec_from_chars(value@),
    {
        if value.as_bytes().len() < 8 {
            Ok(Self::from_str_unchecked(value))
        } else {
            Err(())
        }
    }

    /// A string of at most seven bytes, stored with padding, is well formed
    /// and reads back as the same characters.
    pub proof fn lemma_padded_is_string(x: SmallString, s: Seq<char>)
        requires
            encode_utf8(s).len() <= 7,
            x.raw() == padded(encode_utf8(s)),
        ensures
            x.wf(),
            x.content() == encode_utf8(s),
            x@ == s,
    {
        let b = encode_utf8(s);
        encode_utf8_valid_utf8(s);
        encode_utf8_decode_utf8(s);
        lemma_padded_end(b);
        assert(x.content() =~= b);
    }

    /// Whether two small strings hold the same bytes.
    pub fn same(&self, other: &Self) -> (r: bool)
        ensures
            r == (*self == *other),
    {
        let r = self.bytes[0] == other.bytes[0] && self.bytes[1] == other.bytes[1] && self.bytes[2]
            == other.bytes[2] && self.bytes[3] == other.bytes[3] && self.bytes[4] == other.bytes[4]
            && self.bytes[5] == other.bytes[5] && self.bytes[6] == other.bytes[6];
        proof {
            if r {
                assert(self.bytes =~= other.bytes);
            }
        }
        r
    }

    /// Whether the string has no bytes.
    pub fn is_empty(&self) -> (r: bool)
        ensures
            r == (self.spec_len() == 0),
            r == (self@.len() == 0),
    {
        proof {
            use_type_invariant(self);
        }
        proof {
            lemma_end_from(self.raw(), 0);
            let c = self.content();
            if c.len() != 0 {
                assert(decode_utf8(c).len() > 0);
            }
        }
        self.bytes[0] == 0xFF
    }
}

} // verus!
