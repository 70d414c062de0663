use vstd::prelude::*;
use vstd::string::*;
use vstd::utf8::*;

verus! {

/// The text that lossy UTF-8 decoding makes of a byte sequence: every
/// well-formed scalar is kept, and each ill-formed stretch is replaced by the
/// substitution marker U+FFFD. The decoding is total: there is no byte
/// sequence for which it fails.
pub uninterp spec fn utf8_lossy(bytes: Seq<u8>) -> Seq<char>;

/// Decodes a chunk of process output without ever failing.
///
/// Calls `String::from_utf8_lossy` of the standard library and takes
/// ownership of what it returns. Not proved here, but taken from its
/// documentation: the result depends on the bytes alone, and bytes that
/// already are valid UTF-8 come back as the very same text, byte for byte.
#[verifier::external_body]
pub(crate) fn decode_lossy(bytes: &[u8]) -> (text: String)
    ensures
        text@ == utf8_lossy(bytes@),
        valid_utf8(bytes@) ==> encode_utf8(text@) == bytes@,
{
    String::from_utf8_lossy(bytes).into_owned()
}

/// Lossy decoding leaves valid UTF-8 untouched: the text it yields is the
/// ordinary decoding of the bytes.
pub proof fn lemma_lossy_keeps_valid_text(text: Seq<char>, bytes: Seq<u8>)
    requires
        valid_utf8(bytes),
        encode_utf8(text) == bytes,
    ensures
        text == decode_utf8(bytes),
{
    encode_utf8_decode_utf8(text);
}

/// Whether two string slices hold the same text.
///
/// The comparison runs over the UTF-8 bytes of both slices; the encoding is
/// injective, so equal bytes mean equal characters.
pub fn str_eq(a: &str, b: &str) -> (same: bool)
    ensures
        same == (a@ == b@),
{
    let x = a.as_bytes();
    let y = b.as_bytes();
    proof {
        encode_utf8_decode_utf8(a@);
        encode_utf8_decode_utf8(b@);
    }
    if x.len() != y.len() {
        return false;
    }
    let mut i: usize = 0;
    while i < x.len()
        invariant
            i <= x.len(),
            x.len() == y.len(),
            forall|k: int| 0 <= k < i ==> x@[k] == y@[k],
            x@ == encode_utf8(a@),
            y@ == encode_utf8(b@),
            decode_utf8(encode_utf8(a@)) == a@,
            decode_utf8(encode_utf8(b@)) == b@,
        decreases x.len() - i,
    {
        if x[i] != y[i] {
            return false;
        }
        i = i + 1;
    }
    assert(x@ =~= y@);
    true
}

} // verus!
