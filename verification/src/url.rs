//! Verified construction of search URLs: the query text is percent-encoded
//! byte by byte and appended to a marketplace's URL template prefix.

use vstd::prelude::*;
use vstd::string::StrSliceExecFns;
use vstd::string::StringSliceAdditionalSpecFns;

verus! {

/// Whether a byte may stand unescaped in a URL query: an ASCII letter or
/// digit, `-`, `_`, `.` or `~`.
pub open spec fn is_unreserved(b: u8) -> bool {
    (0x30 <= b <= 0x39) || (0x41 <= b <= 0x5a) || (0x61 <= b <= 0x7a) || b == 0x2d || b == 0x5f
        || b == 0x2e || b == 0x7e
}

/// The upper-case hexadecimal digit for a value below sixteen.
pub open spec fn hex_char(v: u8) -> char {
    if v < 10 {
        (v + 0x30) as char
    } else {
        (v + 0x37) as char
    }
}

/// The percent-encoding of a byte sequence: unreserved bytes stand as
/// themselves, every other byte becomes `%` and two upper-case hex digits.
pub open spec fn percent_encoded(bytes: Seq<u8>) -> Seq<char>
    decreases bytes.len(),
{
    if bytes.len() == 0 {
        Seq::empty()
    } else {
        let b = bytes.first();
        let one = if is_unreserved(b) {
            seq![b as char]
        } else {
            seq!['%', hex_char(b / 16), hex_char(b % 16)]
        };
        one + percent_encoded(bytes.drop_first())
    }
}

/// Percent-encoding distributes over concatenation.
proof fn lemma_percent_encoded_append(a: Seq<u8>, b: Seq<u8>)
    ensures
        percent_encoded(a + b) == percent_encoded(a) + percent_encoded(b),
    decreases a.len(),
{
    if a.len() == 0 {
        assert(a + b =~= b);
        assert(percent_encoded(a) + percent_encoded(b) =~= percent_encoded(b));
    } else {
        lemma_percent_encoded_append(a.drop_first(), b);
        assert((a + b).first() == a.first());
        assert((a + b).drop_first() =~= a.drop_first() + b);
        assert(percent_encoded(a) + percent_encoded(b) =~= (if is_unreserved(a.first()) {
            seq![a.first() as char]
        } else {
            seq!['%', hex_char(a.first() / 16), hex_char(a.first() % 16)]
        }) + (percent_encoded(a.drop_first()) + percent_encoded(b)));
    }
}

/// Relies on String::push: appends one character at the end of the string.
#[verifier::external_body]
fn push_char(s: &mut String, c: char)
    ensures
        final(s)@ == old(s)@.push(c),
{
    s.push(c)
}

/// The upper-case hexadecimal digit for a value below sixteen.
fn hex_char_of(v: u8) -> (c: char)
    requires
        v < 16,
    ensures
        c == hex_char(v),
{
    if v < 10 {
        (v + 0x30) as char
    } else {
        (v + 0x37) as char
    }
}

/// Percent-encodes query text for embedding into a search URL.
pub fn encode_query(query: &str) -> (r: String)
    ensures
        r@ == percent_encoded(query.spec_bytes()),
{
    let bytes = query.as_bytes_vec();
    let n = bytes.len();
    let mut out = String::new();
    let mut i: usize = 0;
    proof {
        assert(bytes@.take(0) =~= Seq::<u8>::empty());
    }
    while i < n
        invariant
            n == bytes@.len(),
            bytes@ == query.spec_bytes(),
            i <= n,
            out@ == percent_encoded(bytes@.take(i as int)),
        decreases n - i,
    {
        let b = bytes[i];
        let ghost pre = bytes@.take(i as int);
        proof {
            assert(bytes@.take(i + 1) =~= pre + seq![b]);
            lemma_percent_encoded_append(pre, seq![b]);
            assert(seq![b].first() == b && seq![b].drop_first() =~= Seq::<u8>::empty());
            assert(percent_encoded(Seq::<u8>::empty()) =~= Seq::<char>::empty());
            assert(percent_encoded(seq![b]) =~= (if is_unreserved(b) {
                seq![b as char]
            } else {
                seq!['%', hex_char(b / 16), hex_char(b % 16)]
            }));
        }
        if (0x30 <= b && b <= 0x39) || (0x41 <= b && b <= 0x5a) || (0x61 <= b && b <= 0x7a) || b
            == 0x2d || b == 0x5f || b == 0x2e || b == 0x7e {
            push_char(&mut out, b as char);
            assert(out@ =~= percent_encoded(pre) + seq![b as char]);
        } else {
            push_char(&mut out, '%');
            push_char(&mut out, hex_char_of(b / 16));
            push_char(&mut out, hex_char_of(b % 16));
            assert(out@ =~= percent_encoded(pre) + seq![
                '%',
                hex_char(b / 16),
                hex_char(b % 16),
            ]);
        }
        i = i + 1;
    }
    proof {
        assert(bytes@.take(n as int) =~= bytes@);
    }
    out
}

/// Builds a search URL: the template prefix followed by the percent-encoded
/// query text.
pub fn build_search_url(prefix: &str, query: &str) -> (u: String)
    ensures
        u@ == prefix@ + percent_encoded(query.spec_bytes()),
{
    let encoded = encode_query(query);
    let base = String::from_str(prefix);
    base.concat(encoded.as_str())
}

} // verus!
