//! Block hashes and their base-36 labels.

use vstd::prelude::*;

verus! {

/// The 32-byte identifier of a block.
#[derive(Clone, Copy, Debug, PartialEq, Eq, Hash)]
pub struct BlockHash {
    pub bytes: [u8; 32],
}

impl View for BlockHash {
    type V = Seq<u8>;

    open spec fn view(&self) -> Seq<u8> {
        self.bytes@
    }
}

/// The number that `bytes` writes in base 256, most significant byte first.
pub open spec fn be_value(bytes: Seq<u8>) -> nat
    decreases bytes.len(),
{
    if bytes.len() == 0 {
        0
    } else {
        be_value(bytes.drop_last()) * 256 + bytes.last() as nat
    }
}

/// The character that writes the base-36 digit `d`: a decimal digit below
/// ten, a lower-case letter from there on.
pub open spec fn digit36(d: nat) -> char
    recommends
        d < 36,
{
    if d < 10 {
        ('0' as nat + d) as char
    } else {
        ('a' as nat + d - 10) as char
    }
}

/// The base-36 numeral of `n`: most significant digit first, no leading
/// zero, and `"0"` for zero.
pub open spec fn radix36(n: nat) -> Seq<char>
    decreases n,
{
    if n < 36 {
        seq![digit36(n)]
    } else {
        radix36(n / 36).push(digit36(n % 36))
    }
}

/// The value of a base-36 digit.
pub open spec fn digit36_value(c: char) -> nat {
    if '0' <= c <= '9' {
        (c as int - '0' as int) as nat
    } else {
        (c as int - 'a' as int + 10) as nat
    }
}

/// The number that a base-36 numeral writes.
pub open spec fn value36(s: Seq<char>) -> nat
    decreases s.len(),
{
    if s.len() == 0 {
        0
    } else {
        value36(s.drop_last()) * 36 + digit36_value(s.last())
    }
}

/// The base-36 label of a byte string read as a big-endian number.
pub open spec fn base36(bytes: Seq<u8>) -> Seq<char> {
    radix36(be_value(bytes))
}

/// Trusted: `snap_coin::crypto::Hash::dump_base36` on the hash built from
/// `bytes` by `Hash::new_from_buf`. The crate reads the 32 bytes as one
/// big-endian unsigned number and formats it in radix 36 with lower-case
/// digits; the contract states that numeral.
#[verifier::external_body]
fn base36_label(bytes: &[u8; 32]) -> (r: String)
    ensures
        r@ == base36(bytes@),
{
    snap_coin::crypto::Hash::new_from_buf(*bytes).dump_base36()
}

impl BlockHash {
    /// The hash with the given bytes.
    pub fn new(bytes: [u8; 32]) -> (h: BlockHash)
        ensures
            h.bytes == bytes,
    {
        BlockHash { bytes }
    }

    /// Bytewise equality.
    pub fn same(&self, other: &BlockHash) -> (r: bool)
        ensures
            r == (*self == *other),
            r == (self@ == other@),
    {
        let mut i: usize = 0;
        while i < 32
            invariant
                i <= 32,
                forall|j: int| 0 <= j < i ==> self.bytes[j] == other.bytes[j],
            decreases 32 - i,
        {
            if self.bytes[i] != other.bytes[i] {
                assert(self.bytes@[i as int] != other.bytes@[i as int]);
                return false;
            }
            i += 1;
        }
        assert(self.bytes =~= other.bytes);
        true
    }

    /// The label under which the hash appears in logs and on the dashboard.
    pub fn dump_base36(&self) -> (r: String)
        ensures
            r@ == base36(self@),
    {
        base36_label(&self.bytes)
    }
}

/// A base-36 numeral reads back as the number it was written for.
pub proof fn lemma_radix36_reads_back(n: nat)
    ensures
        value36(radix36(n)) == n,
    decreases n,
{
    let s = radix36(n);
    if n < 36 {
        assert(s.drop_last() =~= Seq::<char>::empty());
        assert(value36(s) == value36(s.drop_last()) * 36 + digit36_value(s.last()));
    } else {
        lemma_radix36_reads_back(n / 36);
        assert(s.drop_last() =~= radix36(n / 36));
        assert(s.last() == digit36(n % 36));
    }
}

/// Byte strings of one length that write the same number are equal.
pub proof fn lemma_be_value_names_one_string(a: Seq<u8>, b: Seq<u8>)
    requires
        a.len() == b.len(),
        be_value(a) == be_value(b),
    ensures
        a == b,
    decreases a.len(),
{
    if a.len() > 0 {
        let (x, y) = (be_value(a.drop_last()), be_value(b.drop_last()));
        assert(x * 256 + a.last() == y * 256 + b.last());
        assert(x == y && a.last() == b.last()) by (nonlinear_arith)
            requires
                x * 256 + a.last() == y * 256 + b.last(),
                a.last() < 256,
                b.last() < 256,
        ;
        lemma_be_value_names_one_string(a.drop_last(), b.drop_last());
        assert(a =~= a.drop_last().push(a.last()));
        assert(b =~= b.drop_last().push(b.last()));
    } else {
        assert(a =~= b);
    }
}

/// A label names one hash: hashes with the same label are equal.
pub proof fn lemma_label_names_one_hash(a: BlockHash, b: BlockHash)
    requires
        base36(a@) == base36(b@),
    ensures
        a == b,
{
    lemma_radix36_reads_back(be_value(a@));
    lemma_radix36_reads_back(be_value(b@));
    lemma_be_value_names_one_string(a@, b@);
    assert(a.bytes =~= b.bytes);
}

} // verus!
