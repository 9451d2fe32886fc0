//! Comparing text from the device description.

use vstd::prelude::*;
use vstd::string::StringSliceAdditionalSpecFns;

verus! {

/// Two runs of bytes are equal.
pub fn same_bytes(a: &[u8], b: &[u8]) -> (r: bool)
    ensures
        r == (a@ == b@),
{
    if a.len() != b.len() {
        return false;
    }
    let mut i: usize = 0;
    while i < a.len()
        invariant
            a@.len() == b@.len(),
            i <= a@.len(),
            forall|k: int| 0 <= k < i ==> a@[k] == b@[k],
        decreases a@.len() - i,
    {
        if a[i] != b[i] {
            return false;
        }
        i = i + 1;
    }
    assert(a@ =~= b@);
    true
}

/// Two texts are equal.
pub fn same_text(a: &str, b: &str) -> (r: bool)
    ensures
        r == (a@ == b@),
{
    broadcast use vstd::utf8::encode_utf8_decode_utf8;

    let r = same_bytes(a.as_bytes(), b.as_bytes());
    proof {
        if r {
            assert(vstd::utf8::decode_utf8(a.spec_bytes()) == vstd::utf8::decode_utf8(
                b.spec_bytes(),
            ));
        }
    }
    r
}

/// A run of bytes begins with another.
pub open spec fn begins_with(s: Seq<u8>, prefix: Seq<u8>) -> bool {
    prefix.len() <= s.len() && s.take(prefix.len() as int) == prefix
}

/// A text begins with another.
pub fn starts_with(s: &str, prefix: &str) -> (r: bool)
    ensures
        r == begins_with(s.spec_bytes(), prefix.spec_bytes()),
{
    let bytes = s.as_bytes();
    let head = prefix.as_bytes();
    if head.len() > bytes.len() {
        return false;
    }
    let mut i: usize = 0;
    while i < head.len()
        invariant
            head@.len() <= bytes@.len(),
            head@ == prefix.spec_bytes(),
            bytes@ == s.spec_bytes(),
            i <= head@.len(),
            forall|k: int| 0 <= k < i ==> bytes@[k] == head@[k],
        decreases head@.len() - i,
    {
        if bytes[i] != head[i] {
            assert(bytes@.take(head@.len() as int)[i as int] != head@[i as int]);
            return false;
        }
        i = i + 1;
    }
    assert(bytes@.take(head@.len() as int) =~= head@);
    true
}

/// Some entry of a list is the given text.
pub open spec fn lists(entries: Seq<&str>, text: Seq<char>) -> bool {
    exists|i: int| 0 <= i < entries.len() && (#[trigger] entries[i])@ == text
}

pub fn any_is(entries: &[&str], text: &str) -> (r: bool)
    ensures
        r == lists(entries@, text@),
{
    let mut i: usize = 0;
    while i < entries.len()
        invariant
            i <= entries@.len(),
            forall|k: int| 0 <= k < i ==> (#[trigger] entries@[k])@ != text@,
        decreases entries@.len() - i,
    {
        if same_text(entries[i], text) {
            return true;
        }
        i = i + 1;
    }
    false
}

/// The text that bytes stand for, with everything that is not UTF-8 replaced.
pub uninterp spec fn utf8_lossy(bytes: Seq<u8>) -> Seq<char>;

/// `core::str::from_utf8` of the standard library: succeeds exactly on bytes
/// that are UTF-8.
#[verifier::external_body]
pub(crate) fn is_utf8(bytes: &[u8]) -> (r: bool)
    ensures
        r == vstd::utf8::valid_utf8(bytes@),
{
    core::str::from_utf8(bytes).is_ok()
}

/// `String::from_utf8_lossy` of the standard library: bytes that are UTF-8
/// come out as the text they encode. What comes out otherwise is only named.
#[verifier::external_body]
pub(crate) fn from_utf8_lossy(bytes: &[u8]) -> (r: String)
    ensures
        r@ == utf8_lossy(bytes@),
        vstd::utf8::valid_utf8(bytes@) ==> r@ == vstd::utf8::decode_utf8(bytes@),
{
    String::from_utf8_lossy(bytes).into_owned()
}

} // verus!
