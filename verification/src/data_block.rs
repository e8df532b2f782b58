//! Byte storage of array buffers, and the conversions between numeric
//! values and the raw bytes of the integer element types.

use vstd::prelude::*;

verus! {

/// Largest byte length of a data block.
pub const MAX_BYTE_LENGTH: u64 = 0xFFFF_FFFF;

/// Integer element types of typed views on a buffer.
#[derive(Clone, Copy, PartialEq, Eq, Structural, Debug)]
pub enum ElementType {
    Int8,
    Uint8,
    Uint8Clamped,
    Int16,
    Uint16,
    Int32,
    Uint32,
    BigInt64,
    BigUint64,
}

/// A number or a big integer, as typed reads return and typed writes take.
#[derive(Clone, Copy, PartialEq, Eq, Structural, Debug)]
pub enum Numeric {
    Number(i64),
    BigInt(i128),
}

impl Numeric {
    /// The integer that the value holds.
    pub open spec fn int_value(self) -> int {
        match self {
            Numeric::Number(v) => v as int,
            Numeric::BigInt(v) => v as int,
        }
    }
}

/// 256 to the power `n`.
pub open spec fn pow256(n: nat) -> int
    decreases n,
{
    if n == 0 {
        1
    } else {
        256 * pow256((n - 1) as nat)
    }
}

/// The `n` low bytes of `m`, least significant first.
pub open spec fn le_bytes(m: int, n: nat) -> Seq<u8>
    decreases n,
{
    if n == 0 {
        Seq::<u8>::empty()
    } else {
        seq![(m % 256) as u8] + le_bytes(m / 256, (n - 1) as nat)
    }
}

/// The number whose bytes, least significant first, are `b`.
pub open spec fn le_value(b: Seq<u8>) -> int
    decreases b.len(),
{
    if b.len() == 0 {
        0
    } else {
        b[0] as int + 256 * le_value(b.drop_first())
    }
}

impl ElementType {
    /// Size of an element in bytes.
    pub open spec fn spec_size(self) -> nat {
        match self {
            ElementType::Int8 | ElementType::Uint8 | ElementType::Uint8Clamped => 1,
            ElementType::Int16 | ElementType::Uint16 => 2,
            ElementType::Int32 | ElementType::Uint32 => 4,
            ElementType::BigInt64 | ElementType::BigUint64 => 8,
        }
    }

    /// Number of values of an element: 256 to the power of its size.
    pub open spec fn modulus(self) -> int {
        match self {
            ElementType::Int8 | ElementType::Uint8 | ElementType::Uint8Clamped => 0x100,
            ElementType::Int16 | ElementType::Uint16 => 0x1_0000,
            ElementType::Int32 | ElementType::Uint32 => 0x1_0000_0000,
            ElementType::BigInt64 | ElementType::BigUint64 => 0x1_0000_0000_0000_0000,
        }
    }

    /// Whether the type is one of the unsigned element types.
    pub open spec fn spec_is_unsigned(self) -> bool {
        self is Uint8 || self is Uint8Clamped || self is Uint16 || self is Uint32
            || self is BigUint64
    }

    /// Whether the type is one of the big integer element types.
    pub open spec fn spec_is_big_int(self) -> bool {
        self is BigInt64 || self is BigUint64
    }

    /// Whether the type is an integer element type other than the clamped one
    /// and the big integer ones.
    pub open spec fn spec_is_unclamped_integer(self) -> bool {
        self is Int8 || self is Uint8 || self is Int16 || self is Uint16 || self is Int32
            || self is Uint32
    }

    /// The unsigned number that is stored for the integer `v`: `v` clamped
    /// to a byte for the clamped type, `v` modulo the number of values
    /// otherwise.
    pub open spec fn stored(self, v: int) -> int {
        if self is Uint8Clamped {
            if v < 0 {
                0
            } else if v > 255 {
                255
            } else {
                v
            }
        } else {
            v % self.modulus()
        }
    }

    /// The integer that the stored unsigned number `m` stands for: for a
    /// signed type the upper half of the range is negative.
    pub open spec fn loaded(self, m: int) -> int {
        if !self.spec_is_unsigned() && 2 * m >= self.modulus() {
            m - self.modulus()
        } else {
            m
        }
    }

    /// The integer that a write of `v` followed by a read gives back.
    pub open spec fn wrapped(self, v: int) -> int {
        self.loaded(self.stored(v))
    }

    /// The numeric value that holds the integer `v` for this type.
    pub open spec fn numeric(self, v: int) -> Numeric {
        if self.spec_is_big_int() {
            Numeric::BigInt(v as i128)
        } else {
            Numeric::Number(v as i64)
        }
    }

    /// Size of an element in bytes.
    pub fn size(self) -> (r: usize)
        ensures
            r == self.spec_size(),
            1 <= r <= 8,
    {
        match self {
            ElementType::Int8 | ElementType::Uint8 | ElementType::Uint8Clamped => 1,
            ElementType::Int16 | ElementType::Uint16 => 2,
            ElementType::Int32 | ElementType::Uint32 => 4,
            ElementType::BigInt64 | ElementType::BigUint64 => 8,
        }
    }

    /// The modulus as a machine integer.
    fn modulus_u128(self) -> (r: u128)
        ensures
            r == self.modulus(),
    {
        match self {
            ElementType::Int8 | ElementType::Uint8 | ElementType::Uint8Clamped => 0x100,
            ElementType::Int16 | ElementType::Uint16 => 0x1_0000,
            ElementType::Int32 | ElementType::Uint32 => 0x1_0000_0000,
            ElementType::BigInt64 | ElementType::BigUint64 => 0x1_0000_0000_0000_0000,
        }
    }

    /// The number of values of an element is 256 to the power of its size.
    pub proof fn lemma_modulus(self)
        ensures
            self.modulus() == pow256(self.spec_size()),
    {
        reveal_with_fuel(pow256, 9);
    }
}

/// The raw bytes of the element `value` of type `ty`: the bytes of the
/// stored number, least significant first when `is_little_endian`, most
/// significant first otherwise.
pub open spec fn spec_numeric_to_raw_bytes(
    ty: ElementType,
    value: int,
    is_little_endian: bool,
) -> Seq<
    u8,
> {
    let le = le_bytes(ty.stored(value), ty.spec_size());
    if is_little_endian {
        le
    } else {
        le.reverse()
    }
}

/// The integer of type `ty` that the raw bytes `raw` hold.
pub open spec fn spec_raw_bytes_to_int(
    ty: ElementType,
    raw: Seq<u8>,
    is_little_endian: bool,
) -> int {
    let le = if is_little_endian {
        raw
    } else {
        raw.reverse()
    };
    ty.loaded(le_value(le))
}

/// The bytes of a number that fits in `n` bytes hold that number.
pub proof fn lemma_le_round_trip(m: int, n: nat)
    requires
        0 <= m < pow256(n),
    ensures
        le_bytes(m, n).len() == n,
        le_value(le_bytes(m, n)) == m,
    decreases n,
{
    if n > 0 {
        let rest = le_bytes(m / 256, (n - 1) as nat);
        lemma_le_round_trip(m / 256, (n - 1) as nat);
        assert(le_bytes(m, n).drop_first() =~= rest);
    }
}

/// The length of `le_bytes(m, n)` is `n`.
pub proof fn lemma_le_bytes_len(m: int, n: nat)
    ensures
        le_bytes(m, n).len() == n,
    decreases n,
{
    if n > 0 {
        lemma_le_bytes_len(m / 256, (n - 1) as nat);
    }
}

/// The number that `b` holds fits in as many bytes as `b` has.
pub proof fn lemma_le_value_bound(b: Seq<u8>)
    ensures
        0 <= le_value(b) < pow256(b.len()),
    decreases b.len(),
{
    if b.len() > 0 {
        lemma_le_value_bound(b.drop_first());
    }
}

/// Reversing twice gives the sequence back.
pub proof fn lemma_reverse_reverse(b: Seq<u8>)
    ensures
        b.reverse().reverse() =~= b,
{
}

/// Reading the bytes that a write of `value` produced, with the same byte
/// order, gives `value` wrapped into the range of the element type.
pub proof fn lemma_raw_bytes_round_trip(ty: ElementType, value: int, is_little_endian: bool)
    ensures
        spec_raw_bytes_to_int(
            ty,
            spec_numeric_to_raw_bytes(ty, value, is_little_endian),
            is_little_endian,
        ) == ty.wrapped(value),
        spec_numeric_to_raw_bytes(ty, value, is_little_endian).len() == ty.spec_size(),
{
    ty.lemma_modulus();
    let m = ty.stored(value);
    lemma_le_round_trip(m, ty.spec_size());
    lemma_reverse_reverse(le_bytes(m, ty.spec_size()));
}

/// A write followed by a read leaves a value that is in the range of the
/// element type as it is.
pub proof fn lemma_wrapped_in_range(ty: ElementType, value: int)
    requires
        if ty.spec_is_unsigned() {
            0 <= value < ty.modulus()
        } else {
            -ty.modulus() <= 2 * value < ty.modulus()
        },
    ensures
        ty.wrapped(value) == value,
{
    let md = ty.modulus();
    if value >= 0 {
        vstd::arithmetic::div_mod::lemma_small_mod(value as nat, md as nat);
    } else {
        vstd::arithmetic::div_mod::lemma_small_mod((value + md) as nat, md as nat);
        vstd::arithmetic::div_mod::lemma_mod_add_multiples_vanish(value, md);
    }
}

/// For a negative `v`, the remainder of `v` is the complement of the
/// remainder of `-v - 1`.
pub proof fn lemma_negative_mod(v: int, md: int)
    requires
        v < 0,
        md > 0,
    ensures
        v % md == md - 1 - ((-v - 1) % md),
{
    let a = -v - 1;
    let q = a / md;
    let r = a % md;
    vstd::arithmetic::div_mod::lemma_fundamental_div_mod(a, md);
    assert(v == -(q + 1) * md + (md - 1 - r)) by (nonlinear_arith)
        requires
            a == md * q + r,
            a == -v - 1,
    ;
    vstd::arithmetic::div_mod::lemma_fundamental_div_mod_converse(
        v,
        md,
        -(q + 1),
        md - 1 - r,
    );
}

/// The unsigned number stored for `value` in an element of type `ty`.
pub fn stored_value(ty: ElementType, value: Numeric) -> (r: u128)
    ensures
        r == ty.stored(value.int_value()),
        r < ty.modulus(),
{
    let v: i128 = match value {
        Numeric::Number(v) => v as i128,
        Numeric::BigInt(v) => v,
    };
    let md: u128 = ty.modulus_u128();
    if matches!(ty, ElementType::Uint8Clamped) {
        if v < 0 {
            0
        } else if v > 255 {
            255
        } else {
            v as u128
        }
    } else if v >= 0 {
        (v as u128) % md
    } else {
        let a: u128 = (-(v + 1)) as u128;
        proof {
            lemma_negative_mod(v as int, md as int);
        }
        md - 1 - a % md
    }
}

/// The numeric value that the stored unsigned number `m` stands for.
pub fn loaded_value(ty: ElementType, m: u128) -> (r: Numeric)
    requires
        m < ty.modulus(),
    ensures
        r == ty.numeric(ty.loaded(m as int)),
        r.int_value() == ty.loaded(m as int),
{
    let md: u128 = ty.modulus_u128();
    let unsigned = is_unsigned_element_type(ty);
    let v: i128 = if !unsigned && 2 * m >= md {
        (m as i128) - (md as i128)
    } else {
        m as i128
    };
    if is_big_int_element_type(ty) {
        Numeric::BigInt(v)
    } else {
        Numeric::Number(v as i64)
    }
}

/// Whether `ty` is one of the unsigned element types.
pub fn is_unsigned_element_type(ty: ElementType) -> (r: bool)
    ensures
        r == ty.spec_is_unsigned(),
{
    matches!(
        ty,
        ElementType::Uint8 | ElementType::Uint8Clamped | ElementType::Uint16 | ElementType::Uint32
            | ElementType::BigUint64
    )
}

/// Whether `ty` is an integer element type other than the clamped one and
/// the big integer ones.
pub fn is_unclamped_integer_element_type(ty: ElementType) -> (r: bool)
    ensures
        r == ty.spec_is_unclamped_integer(),
{
    matches!(
        ty,
        ElementType::Int8 | ElementType::Uint8 | ElementType::Int16 | ElementType::Uint16
            | ElementType::Int32 | ElementType::Uint32
    )
}

/// Whether `ty` is one of the big integer element types.
pub fn is_big_int_element_type(ty: ElementType) -> (r: bool)
    ensures
        r == ty.spec_is_big_int(),
{
    matches!(ty, ElementType::BigInt64 | ElementType::BigUint64)
}

/// The raw bytes of `value` as an element of type `ty`.
pub fn numeric_to_raw_bytes(ty: ElementType, value: Numeric, is_little_endian: bool) -> (r: Vec<u8>)
    ensures
        r@ == spec_numeric_to_raw_bytes(ty, value.int_value(), is_little_endian),
        r@.len() == ty.spec_size(),
{
    let n: usize = ty.size();
    let m0: u128 = stored_value(ty, value);
    let mut m: u128 = m0;
    let mut le: Vec<u8> = Vec::new();
    let mut i: usize = 0;
    while i < n
        invariant
            i <= n,
            le@.len() == i,
            le@ + le_bytes(m as int, (n - i) as nat) =~= le_bytes(m0 as int, n as nat),
        decreases n - i,
    {
        let ghost before = le@;
        le.push((m % 256) as u8);
        proof {
            assert(le_bytes(m as int, (n - i) as nat) =~= seq![(m % 256) as u8] + le_bytes(
                m as int / 256,
                (n - i - 1) as nat,
            ));
            assert(le@ =~= before + seq![(m % 256) as u8]);
        }
        m = m / 256;
        i += 1;
    }
    proof {
        lemma_le_bytes_len(m0 as int, n as nat);
        assert(le@ =~= le_bytes(m0 as int, n as nat));
    }
    if is_little_endian {
        le
    } else {
        reversed(&le)
    }
}

/// The bytes of `b` in reverse order.
pub fn reversed(b: &Vec<u8>) -> (r: Vec<u8>)
    ensures
        r@ == b@.reverse(),
{
    let n: usize = b.len();
    let mut out: Vec<u8> = Vec::new();
    let mut i: usize = 0;
    while i < n
        invariant
            i <= n,
            n == b@.len(),
            out@.len() == i,
            forall|j: int| 0 <= j < i ==> out@[j] == b@[n - 1 - j],
        decreases n - i,
    {
        out.push(b[n - 1 - i]);
        i += 1;
    }
    proof {
        assert(out@ =~= b@.reverse());
    }
    out
}

/// The number whose bytes, least significant first, are `b`.
pub fn le_bytes_value(b: &Vec<u8>) -> (r: u128)
    requires
        b@.len() <= 8,
    ensures
        r == le_value(b@),
        r < pow256(b@.len()),
{
    let n: usize = b.len();
    let mut acc: u128 = 0;
    let mut i: usize = n;
    proof {
        assert(b@.subrange(n as int, n as int) =~= Seq::<u8>::empty());
        reveal_with_fuel(pow256, 9);
    }
    while i > 0
        invariant
            i <= n <= 8,
            n == b@.len(),
            acc == le_value(b@.subrange(i as int, n as int)),
            acc < pow256((n - i) as nat),
            pow256((n - i) as nat) <= pow256(8),
            pow256(8) == 0x1_0000_0000_0000_0000,
        decreases i,
    {
        i -= 1;
        proof {
            let s = b@.subrange(i as int, n as int);
            assert(s.drop_first() =~= b@.subrange(i + 1, n as int));
            assert(s[0] == b@[i as int]);
            lemma_pow256_monotonic((n - i) as nat, 8);
        }
        acc = acc * 256 + b[i] as u128;
    }
    proof {
        assert(b@.subrange(0, n as int) =~= b@);
    }
    acc
}

/// `pow256` does not decrease.
pub proof fn lemma_pow256_monotonic(a: nat, b: nat)
    requires
        a <= b,
    ensures
        0 < pow256(a) <= pow256(b),
    decreases b,
{
    if b > 0 {
        if a < b {
            lemma_pow256_monotonic(a, (b - 1) as nat);
        } else {
            lemma_pow256_monotonic((a - 1) as nat, (b - 1) as nat);
        }
    }
}

/// The numeric value of type `ty` that the raw bytes `raw` hold.
pub fn raw_bytes_to_numeric(ty: ElementType, raw: &Vec<u8>, is_little_endian: bool) -> (r: Numeric)
    requires
        raw@.len() == ty.spec_size(),
    ensures
        r == ty.numeric(spec_raw_bytes_to_int(ty, raw@, is_little_endian)),
        r.int_value() == spec_raw_bytes_to_int(ty, raw@, is_little_endian),
{
    proof {
        ty.lemma_modulus();
    }
    let m: u128 = if is_little_endian {
        le_bytes_value(raw)
    } else {
        let le = reversed(raw);
        le_bytes_value(&le)
    };
    loaded_value(ty, m)
}

/// A sequence of `n` zero bytes.
pub open spec fn zeros(n: nat) -> Seq<u8> {
    Seq::new(n, |i: int| 0u8)
}

/// `dst` with the `count` bytes from `to_index` on replaced by the `count`
/// bytes of `src` from `from_index` on.
pub open spec fn copied(
    dst: Seq<u8>,
    to_index: int,
    src: Seq<u8>,
    from_index: int,
    count: int,
) -> Seq<
    u8,
> {
    Seq::new(
        dst.len(),
        |i: int|
            if to_index <= i < to_index + count {
                src[from_index + i - to_index]
            } else {
                dst[i]
            },
    )
}

/// `block` with the bytes of `raw` written from `byte_index` on.
pub open spec fn written(block: Seq<u8>, byte_index: int, raw: Seq<u8>) -> Seq<u8> {
    copied(block, byte_index, raw, 0, raw.len() as int)
}

/// A mutable byte buffer, or the detached sentinel that has no bytes.
#[derive(Debug)]
pub struct DataBlock {
    pub bytes: Vec<u8>,
    pub detached: bool,
}

impl DataBlock {
    /// The bytes of the block; none when it is detached.
    pub open spec fn view(self) -> Seq<u8> {
        self.bytes@
    }

    /// The detached sentinel holds no bytes.
    pub open spec fn wf(self) -> bool {
        self.detached ==> self.bytes@.len() == 0
    }

    /// The detached sentinel.
    pub fn detached_data_block() -> (r: Self)
        ensures
            r.detached,
            r.wf(),
            r@.len() == 0,
    {
        DataBlock { bytes: Vec::new(), detached: true }
    }

    /// Whether the block is the detached sentinel.
    pub fn is_detached(&self) -> (r: bool)
        ensures
            r == self.detached,
    {
        self.detached
    }

    /// Number of bytes in the block.
    pub fn len(&self) -> (r: usize)
        ensures
            r == self@.len(),
    {
        self.bytes.len()
    }

    /// A block of `size` zero bytes, or `None` when `size` is more than
    /// the machine can address.
    pub fn create_byte_data_block(size: u64) -> (r: Option<Self>)
        ensures
            r is Some <==> size <= usize::MAX,
            r is Some ==> !r->0.detached && r->0.wf() && r->0@ == zeros(size as nat),
    {
        if size > usize::MAX as u64 {
            return None;
        }
        let n: usize = size as usize;
        let mut bytes: Vec<u8> = Vec::new();
        let mut i: usize = 0;
        while i < n
            invariant
                i <= n,
                bytes@ =~= zeros(i as nat),
            decreases n - i,
        {
            bytes.push(0);
            i += 1;
        }
        Some(DataBlock { bytes, detached: false })
    }

    /// Changes the length of the block to `new_len`: bytes beyond it are
    /// dropped, and new bytes are zero.
    pub fn realloc(&mut self, new_len: usize)
        requires
            !old(self).detached,
        ensures
            !final(self).detached,
            final(self)@.len() == new_len,
            forall|i: int|
                0 <= i < new_len ==> final(self)@[i] == if i < old(self)@.len() {
                    old(self)@[i]
                } else {
                    0u8
                },
    {
        if new_len <= self.bytes.len() {
            self.bytes.truncate(new_len);
        } else {
            let ghost before = self.bytes@;
            while self.bytes.len() < new_len
                invariant
                    before.len() <= self.bytes@.len() <= new_len,
                    !self.detached,
                    forall|i: int|
                        0 <= i < self.bytes@.len() ==> self.bytes@[i] == if i < before.len() {
                            before[i]
                        } else {
                            0u8
                        },
                decreases new_len - self.bytes@.len(),
            {
                self.bytes.push(0);
            }
        }
    }

    /// Copies `count` bytes of `from`, starting at `from_index`, over the
    /// bytes of this block that start at `to_index`.
    pub fn copy_data_block_bytes(
        &mut self,
        to_index: usize,
        from: &DataBlock,
        from_index: usize,
        count: usize,
    )
        requires
            from_index + count <= from@.len(),
            to_index + count <= old(self)@.len(),
        ensures
            final(self).detached == old(self).detached,
            final(self)@ == copied(
                old(self)@,
                to_index as int,
                from@,
                from_index as int,
                count as int,
            ),
    {
        let from_len: usize = from.bytes.len();
        let self_len: usize = self.bytes.len();
        let mut i: usize = 0;
        while i < count
            invariant
                i <= count,
                from_len == from@.len(),
                self_len == self@.len(),
                from_index + count <= from@.len(),
                to_index + count <= self@.len(),
                self.detached == old(self).detached,
                self@ =~= copied(old(self)@, to_index as int, from@, from_index as int, i as int),
            decreases count - i,
        {
            let b: u8 = from.bytes[from_index + i];
            self.bytes.set(to_index + i, b);
            i += 1;
        }
    }

    /// The `size` bytes that start at `byte_index`, or `None` when the
    /// block does not hold that many bytes there.
    pub fn get_offset_by_byte(&self, byte_index: usize, size: usize) -> (r: Option<Vec<u8>>)
        ensures
            r is Some <==> byte_index + size <= self@.len(),
            r is Some ==> r->0@ == self@.subrange(byte_index as int, byte_index + size),
    {
        let n: usize = self.bytes.len();
        if byte_index > n || size > n - byte_index {
            return None;
        }
        let mut out: Vec<u8> = Vec::new();
        let mut i: usize = 0;
        while i < size
            invariant
                i <= size,
                n == self@.len(),
                byte_index + size <= self@.len(),
                out@ =~= self@.subrange(byte_index as int, byte_index + i),
            decreases size - i,
        {
            out.push(self.bytes[byte_index + i]);
            i += 1;
        }
        Some(out)
    }

    /// Writes the bytes of `raw` from `byte_index` on. Does nothing when
    /// the block does not hold that many bytes there.
    pub fn set_offset_by_byte(&mut self, byte_index: usize, raw: &Vec<u8>)
        ensures
            final(self).detached == old(self).detached,
            final(self)@ == if byte_index + raw@.len() <= old(self)@.len() {
                written(old(self)@, byte_index as int, raw@)
            } else {
                old(self)@
            },
    {
        let n: usize = self.bytes.len();
        let size: usize = raw.len();
        if byte_index > n || size > n - byte_index {
            return ;
        }
        let tmp = DataBlock { bytes: raw.clone(), detached: false };
        self.copy_data_block_bytes(byte_index, &tmp, 0, size);
    }
}

} // verus!
