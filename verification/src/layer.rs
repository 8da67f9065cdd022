//! Names that the puller gives layers: the file a layer is saved to, and the
//! short digest shown while it is downloaded and unpacked.

use vstd::prelude::*;
use vstd::string::*;
use vstd::utf8::*;
use crate::text::{concat3, spec_after_last, after_last, is_last_index, lemma_last_index_unique};

verus! {

/// The character of a decimal digit.
pub open spec fn digit_char(d: nat) -> char {
    if d == 0 { '0' }
    else if d == 1 { '1' }
    else if d == 2 { '2' }
    else if d == 3 { '3' }
    else if d == 4 { '4' }
    else if d == 5 { '5' }
    else if d == 6 { '6' }
    else if d == 7 { '7' }
    else if d == 8 { '8' }
    else { '9' }
}

/// Decimal notation of `n`, without leading zeros.
pub open spec fn spec_decimal(n: nat) -> Seq<char>
    decreases n,
{
    if n < 10 {
        seq![digit_char(n)]
    } else {
        spec_decimal(n / 10) + seq![digit_char(n % 10)]
    }
}

/// The value of a decimal digit character.
pub open spec fn digit_value(c: char) -> int {
    c as int - '0' as int
}

/// The number that a string of decimal digits denotes, read in base 10.
pub open spec fn value_in_base_10(s: Seq<char>) -> int
    decreases s.len(),
{
    if s.len() == 0 {
        0
    } else {
        value_in_base_10(s.drop_last()) * 10 + digit_value(s.last())
    }
}

/// The decimal notation of `n` is its standard notation: it consists of the
/// digits '0' to '9', it starts with '0' only for zero (and is then "0"), and
/// read in base 10 it gives `n`.
pub proof fn lemma_decimal_is_standard(n: nat)
    ensures
        spec_decimal(n).len() > 0,
        forall|i: int| 0 <= i < spec_decimal(n).len() ==> '0' <= #[trigger] spec_decimal(n)[i] <= '9',
        spec_decimal(n)[0] == '0' <==> n == 0,
        n == 0 ==> spec_decimal(n) == seq!['0'],
        value_in_base_10(spec_decimal(n)) == n,
    decreases n,
{
    let s = spec_decimal(n);
    if n < 10 {
        assert(s =~= seq![digit_char(n)]);
        assert(s.drop_last() =~= Seq::<char>::empty());
        assert(value_in_base_10(s.drop_last()) == 0);
        lemma_digit_value(n);
    } else {
        let q = (n / 10) as nat;
        let d = (n % 10) as nat;
        lemma_decimal_is_standard(q);
        let p = spec_decimal(q);
        assert(s == p + seq![digit_char(d)]);
        assert(s.drop_last() =~= p);
        assert(s.last() == digit_char(d));
        assert(s[0] == p[0]);
        assert forall|i: int| 0 <= i < s.len() implies '0' <= #[trigger] s[i] <= '9' by {
            if i < p.len() {
                assert(s[i] == p[i]);
            }
        }
        assert(n == q * 10 + d);
        lemma_digit_value(d);
    }
}

proof fn lemma_digit_value(d: nat)
    requires
        d < 10,
    ensures
        digit_value(digit_char(d)) == d,
        '0' <= digit_char(d) <= '9',
{
}

fn digit_str(d: usize) -> (s: &'static str)
    requires
        d < 10,
    ensures
        s@ == seq![digit_char(d as nat)],
{
    proof {
        reveal_strlit("0");
        reveal_strlit("1");
        reveal_strlit("2");
        reveal_strlit("3");
        reveal_strlit("4");
        reveal_strlit("5");
        reveal_strlit("6");
        reveal_strlit("7");
        reveal_strlit("8");
        reveal_strlit("9");
    }
    if d == 0 { "0" }
    else if d == 1 { "1" }
    else if d == 2 { "2" }
    else if d == 3 { "3" }
    else if d == 4 { "4" }
    else if d == 5 { "5" }
    else if d == 6 { "6" }
    else if d == 7 { "7" }
    else if d == 8 { "8" }
    else { "9" }
}

/// Decimal notation of `n`.
pub fn decimal(n: usize) -> (s: String)
    ensures
        s@ == spec_decimal(n as nat),
    decreases n,
{
    if n < 10 {
        String::from_str(digit_str(n))
    } else {
        let mut s = decimal(n / 10);
        s.append(digit_str(n % 10));
        s
    }
}

pub open spec fn spec_layer_file_name(index: nat, digest: Seq<char>) -> Seq<char> {
    spec_decimal(index) + "_"@ + digest + ".tar.gz"@
}

/// Name of the file that layer number `index` (counted from 0), with the
/// given digest, is saved to: `{index}_{digest}.tar.gz`.
pub fn layer_file_name(index: usize, digest: &str) -> (s: String)
    ensures
        s@ == spec_layer_file_name(index as nat, digest@),
{
    let mut s = concat3(decimal(index).as_str(), "_", digest);
    s.append(".tar.gz");
    s
}

/// The segment after the last ':' of a layer's file name is the segment
/// after the last ':' of its digest, followed by ".tar.gz".
pub proof fn lemma_file_name_tail(index: nat, digest: Seq<char>)
    requires
        digest.contains(':'),
    ensures
        spec_after_last(spec_layer_file_name(index, digest), ':') == spec_after_last(digest, ':')
            + ".tar.gz"@,
{
    reveal_strlit("_");
    reveal_strlit(".tar.gz");
    let f = spec_layer_file_name(index, digest);
    let off = spec_decimal(index).len() + 1;
    let k = choose|k: int| is_last_index(digest, ':', k);
    assert(is_last_index(digest, ':', k)) by {
        let w = choose|w: int| 0 <= w < digest.len() && digest[w] == ':';
        lemma_some_last_index(digest, ':', w);
    }
    let p = off + k;
    assert(f[p] == digest[k]);
    assert forall|j: int| p < j < f.len() implies f[j] != ':' by {
        if j < off + digest.len() {
            assert(f[j] == digest[j - off]);
        } else {
            assert(f[j] == ".tar.gz"@[j - off - digest.len()]);
        }
    }
    assert(is_last_index(f, ':', p));
    assert(f.contains(':'));
    let q = choose|q: int| is_last_index(f, ':', q);
    lemma_last_index_unique(f, ':', p, q);
    assert(f.skip(p + 1) =~= digest.skip(k + 1) + ".tar.gz"@);
}

proof fn lemma_some_last_index(s: Seq<char>, c: char, k: int)
    requires
        0 <= k < s.len(),
        s[k] == c,
    ensures
        exists|i: int| is_last_index(s, c, i),
    decreases s.len() - k,
{
    if exists|j: int| k < j < s.len() && s[j] == c {
        let j = choose|j: int| k < j < s.len() && s[j] == c;
        lemma_some_last_index(s, c, j);
    } else {
        assert(is_last_index(s, c, k));
    }
}

/// `s` can be cut at bytes 7 and 19: the short form of a digest
/// `sha256:<hex>` is the first twelve characters of its hex part.
pub open spec fn short_id_defined(s: Seq<char>) -> bool {
    &&& 19 <= encode_utf8(s).len()
    &&& is_char_boundary(encode_utf8(s), 7)
    &&& is_char_boundary(encode_utf8(s), 19)
}

/// UTF-8 bytes 7 up to 19 of `s`.
pub open spec fn spec_short_id(s: Seq<char>) -> Seq<u8> {
    encode_utf8(s).subrange(7, 19)
}

/// Bytes 7 up to 19 of `s`: for a digest `sha256:<hex>` the first twelve
/// characters of the hex part.
pub fn short_id(s: &str) -> (r: &str)
    requires
        short_id_defined(s@),
    ensures
        r.spec_bytes() == spec_short_id(s@),
{
    let (head, _) = s.split_at(19);
    proof {
        let b = s.spec_bytes();
        let h = head.spec_bytes();
        assert(h =~= b.subrange(0, 19));
        encode_utf8_valid_utf8(s@);
        valid_utf8_split(b, 19);
        is_char_boundary_iff_not_is_continuation_byte(b, 7);
        is_char_boundary_iff_not_is_continuation_byte(h, 7);
        assert(h[7] == b[7]);
        assert(is_char_boundary(h, 7));
    }
    let (_, mid) = head.split_at(7);
    assert(mid.spec_bytes() =~= s.spec_bytes().subrange(7, 19));
    mid
}

/// The short digest shown for the layer file `file_name`: bytes 7 up to 19 of
/// what follows the last ':' of the name.
pub fn file_short_id(file_name: &str) -> (r: &str)
    requires
        short_id_defined(spec_after_last(file_name@, ':')),
    ensures
        r.spec_bytes() == spec_short_id(spec_after_last(file_name@, ':')),
{
    let tail = after_last(file_name, ':');
    short_id(tail)
}

} // verus!
