//! Strings of either form: their characters, their UTF-16 view and their
//! own properties.

use crate::heap::{Agent, Heap};
use crate::small_string::{
    char_at_utf16, char_at_utf16_from, utf16_units, utf16_width, SmallString,
};
use crate::value::{HeapString, JsString, PropertyDescriptor, PropertyKey, Value};
use vstd::prelude::*;
use vstd::string::StrSliceExecFns;
use vstd::string::StringSliceAdditionalSpecFns;
use vstd::string::StringExecFns;

verus! {

/// Length of `s` in UTF-16 code units.
pub fn str_utf16_len(s: &str) -> (r: usize)
    requires
        2 * s@.len() <= usize::MAX,
    ensures
        r == utf16_units(s@),
        r <= 2 * s@.len(),
{
    let n: usize = s.unicode_len();
    let mut k: usize = 0;
    let mut units: usize = 0;
    while k < n
        invariant
            k <= n,
            2 * n <= usize::MAX,
            n == s@.len(),
            units == utf16_units(s@.take(k as int)),
            units <= 2 * k,
        decreases n - k,
    {
        let c = s.get_char(k);
        if (c as u32) < 0x10000 {
            units += 1;
        } else {
            units += 2;
        }
        k += 1;
        proof {
            assert(s@.take(k as int).drop_last() =~= s@.take(k - 1));
        }
    }
    proof {
        assert(s@.take(n as int) =~= s@);
    }
    units
}

/// The character of `chars` that makes up the UTF-16 code unit at offset
/// `idx`: there is one when a character starts at that offset and takes
/// a single code unit.
pub open spec fn spec_utf16_char_at(chars: Seq<char>, idx: int) -> Option<char> {
    match char_at_utf16(chars, idx) {
        Some(k) => if k < chars.len() && utf16_width(chars[k]) == 1 {
            Some(chars[k])
        } else {
            None
        },
        None => None,
    }
}

/// The character of `s` that makes up the UTF-16 code unit at offset `idx`.
pub fn str_utf16_char_at(s: &str, idx: usize) -> (r: Option<char>)
    requires
        2 * s@.len() <= usize::MAX,
    ensures
        r == spec_utf16_char_at(s@, idx as int),
{
    let n: usize = s.unicode_len();
    let mut k: usize = 0;
    let mut u16_i: usize = 0;
    while k < n
        invariant
            k <= n,
            2 * n <= usize::MAX,
            n == s@.len(),
            u16_i <= 2 * k,
            char_at_utf16(s@, idx as int) == char_at_utf16_from(
                s@,
                idx as int,
                k as int,
                u16_i as int,
            ),
        decreases n - k,
    {
        let ch = s.get_char(k);
        if idx == u16_i {
            if (ch as u32) < 0x10000 {
                return Some(ch);
            } else {
                return None;
            }
        }
        if u16_i > idx {
            return None;
        }
        if (ch as u32) < 0x10000 {
            u16_i += 1;
        } else {
            u16_i += 2;
        }
        k += 1;
    }
    None
}

/// The characters of a string value. A handle without a record stands
/// for no characters.
pub open spec fn spec_string_chars(heap: Heap, s: JsString) -> Seq<char> {
    match s {
        JsString::SmallString(x) => x@,
        JsString::String(h) => if heap.has_string(h) {
            heap.string(h)
        } else {
            Seq::<char>::empty()
        },
    }
}

/// The characters of the string value `s` as an owned string.
pub fn string_to_owned(agent: &Agent, s: JsString) -> (r: String)
    ensures
        r@ == spec_string_chars(agent.heap, s),
{
    match s {
        JsString::SmallString(x) => String::from_str(x.as_str()),
        JsString::String(h) => {
            if (h.0 as usize) < agent.heap.strings.len() {
                match &agent.heap.strings[h.0 as usize] {
                    Some(data) => data.clone(),
                    None => String::new(),
                }
            } else {
                String::new()
            }
        },
    }
}

/// The digit `d` as a character.
pub open spec fn digit_char(d: int) -> char {
    (48 + d) as char
}

/// The decimal digits of `n`.
pub open spec fn spec_digits(n: nat) -> Seq<char>
    decreases n,
{
    if n < 10 {
        seq![digit_char(n as int)]
    } else {
        spec_digits(n / 10).push(digit_char((n % 10) as int))
    }
}

/// `n` in decimal, with a minus sign when it is negative.
pub open spec fn spec_decimal(n: int) -> Seq<char> {
    if n < 0 {
        seq!['-'] + spec_digits((-n) as nat)
    } else {
        spec_digits(n as nat)
    }
}

/// `i64::to_string`: the decimal digits of `n`, after a minus sign when
/// `n` is negative.
#[verifier::external_body]
fn integer_to_string(n: i64) -> (r: String)
    ensures
        r@ == spec_decimal(n as int),
{
    n.to_string()
}

/// How a property key reads in a message: an integer in decimal, a
/// string as it is, a symbol and a private name by a fixed word.
pub open spec fn spec_key_display(heap: Heap, key: PropertyKey) -> Seq<char> {
    match key {
        PropertyKey::Integer(n) => spec_decimal(n as int),
        PropertyKey::SmallString(x) => x@,
        PropertyKey::String(h) => spec_string_chars(heap, JsString::String(h)),
        PropertyKey::Symbol(_) => "Symbol()"@,
        PropertyKey::PrivateName(_) => "#private"@,
    }
}

/// The property key `key` as it reads in a message.
pub fn key_display(agent: &Agent, key: PropertyKey) -> (r: String)
    ensures
        r@ == spec_key_display(agent.heap, key),
{
    match key {
        PropertyKey::Integer(n) => integer_to_string(n),
        PropertyKey::SmallString(x) => string_to_owned(agent, JsString::SmallString(x)),
        PropertyKey::String(h) => string_to_owned(agent, JsString::String(h)),
        PropertyKey::Symbol(_) => String::from_str("Symbol()"),
        PropertyKey::PrivateName(_) => String::from_str("#private"),
    }
}

/// The message made of `prefix`, `middle` and `suffix`.
pub fn message_of(prefix: &str, middle: &String, suffix: &str) -> (r: String)
    ensures
        r@ == prefix@ + middle@ + suffix@,
{
    let mut s = String::from_str(prefix);
    s.append(middle.as_str());
    s.append(suffix);
    s
}

/// The own property `key` of a string with the characters `chars`:
/// `length` is the number of UTF-16 code units, and an integer is the
/// character that makes up the code unit at that offset.
pub open spec fn spec_string_property(chars: Seq<char>, key: PropertyKey) -> Option<
    PropertyDescriptor,
> {
    if key == PropertyKey::SmallString(SmallString::spec_from_chars("length"@)) {
        Some(
            PropertyDescriptor::spec_new_data(
                Value::Integer(utf16_units(chars) as i64),
                false,
                false,
                false,
            ),
        )
    } else if key is Integer && 0 <= key->Integer_0 && spec_utf16_char_at(
        chars,
        key->Integer_0 as int,
    ) is Some {
        Some(
            PropertyDescriptor::spec_new_data(
                Value::SmallString(
                    SmallString::spec_from_chars(
                        seq![spec_utf16_char_at(chars, key->Integer_0 as int)->0],
                    ),
                ),
                false,
                true,
                false,
            ),
        )
    } else {
        None
    }
}

/// The own property `key` of the string `s`.
pub fn string_get_property_descriptor(s: &str, key: PropertyKey) -> (r: Option<PropertyDescriptor>)
    requires
        4 * s@.len() <= usize::MAX,
    ensures
        r == spec_string_property(s@, key),
{
    proof {
        reveal_strlit("length");
        assert(vstd::utf8::is_ascii_chars("length"@));
        vstd::utf8::is_ascii_chars_encode_utf8("length"@);
    }
    match key {
        PropertyKey::SmallString(x) => {
            let length_key = SmallString::from_str_unchecked("length");
            if x.same(&length_key) {
                let n: usize = str_utf16_len(s);
                Some(PropertyDescriptor::new_data(Value::Integer(n as i64), false, false, false))
            } else {
                None
            }
        },
        PropertyKey::Integer(i) => {
            if i < 0 || i as u64 > usize::MAX as u64 {
                proof {
                    if i >= 0 {
                        lemma_char_at_bound(s@, i as int, 0, 0);
                    }
                }
                return None;
            }
            match str_utf16_char_at(s, i as usize) {
                Some(c) => Some(
                    PropertyDescriptor::new_data(
                        Value::SmallString(SmallString::from_code_point(c)),
                        false,
                        true,
                        false,
                    ),
                ),
                None => None,
            }
        },
        _ => None,
    }
}

/// A character starts only at an offset of at most twice the number of
/// characters.
pub proof fn lemma_char_at_bound(chars: Seq<char>, idx: int, k: int, before: int)
    requires
        0 <= k <= chars.len(),
        0 <= before <= 2 * k,
    ensures
        char_at_utf16_from(chars, idx, k, before) is Some ==> idx <= 2 * chars.len(),
    decreases chars.len() - k,
{
    if !(before == idx && k <= chars.len()) && !(before > idx || k >= chars.len() || k < 0) {
        lemma_char_at_bound(chars, idx, k + 1, before + utf16_width(chars[k]));
    }
}

/// Whether `after` is `before` with one more string, in the slot that
/// `h` names.
pub open spec fn string_created(before: Agent, after: Agent, h: HeapString) -> bool {
    &&& h.0 == before.heap.strings@.len()
    &&& after.heap.has_string(h)
    &&& after.heap.strings@.len() == before.heap.strings@.len() + 1
    &&& after.heap.strings@.take(before.heap.strings@.len() as int) == before.heap.strings@
    &&& after.heap.same_but_strings(before.heap)
    &&& after.intrinsics == before.intrinsics
    &&& after.global_object == before.global_object
}

/// The string value with the characters of `s`: inline when they fit in
/// seven bytes, in a new slot of the heap otherwise.
pub fn create_string(agent: &mut Agent, s: &str) -> (r: JsString)
    requires
        old(agent).heap.strings@.len() < u32::MAX,
    ensures
        spec_string_chars(final(agent).heap, r) == s@,
        r is SmallString <==> s.spec_bytes().len() < 8,
        r is SmallString ==> *final(agent) == *old(agent) && r->SmallString_0
            == SmallString::spec_from_chars(s@),
        r is String ==> string_created(*old(agent), *final(agent), r->String_0),
{
    match SmallString::try_from(s) {
        Ok(x) => JsString::SmallString(x),
        Err(_) => {
            let h = agent.heap.create_string(String::from_str(s));
            proof {
                assert(final(agent).heap.strings@.take(old(agent).heap.strings@.len() as int)
                    =~= old(agent).heap.strings@);
            }
            JsString::String(h)
        },
    }
}

} // verus!
