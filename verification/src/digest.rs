//! Content digests: SHA-256 over a byte sequence, written as uppercase
//! hexadecimal.

use sha2::{Digest, Sha256};
use vstd::prelude::*;
use vstd::string::*;

verus! {

/// The SHA-256 digest of a byte sequence, as the `sha2` crate computes it.
pub uninterp spec fn sha256(data: Seq<u8>) -> Seq<u8>;

/// Calls `sha2::Sha256::digest`, the one-shot form of the hasher.
///
/// Trusted: the result is taken to be a function of the input bytes alone.
/// Nothing else is claimed of it.
#[verifier::external_body]
fn sha256_digest(data: &[u8]) -> (digest: Vec<u8>)
    ensures
        digest@ == sha256(data@),
{
    Sha256::digest(data).to_vec()
}

/// The uppercase hexadecimal digit for a value below sixteen.
pub open spec fn hex_digit(nibble: u8) -> char {
    if nibble == 0 {
        '0'
    } else if nibble == 1 {
        '1'
    } else if nibble == 2 {
        '2'
    } else if nibble == 3 {
        '3'
    } else if nibble == 4 {
        '4'
    } else if nibble == 5 {
        '5'
    } else if nibble == 6 {
        '6'
    } else if nibble == 7 {
        '7'
    } else if nibble == 8 {
        '8'
    } else if nibble == 9 {
        '9'
    } else if nibble == 10 {
        'A'
    } else if nibble == 11 {
        'B'
    } else if nibble == 12 {
        'C'
    } else if nibble == 13 {
        'D'
    } else if nibble == 14 {
        'E'
    } else {
        'F'
    }
}

/// Uppercase hexadecimal text of a byte sequence: two digits per byte, the
/// high half of each byte first, bytes in order.
pub open spec fn upper_hex(bytes: Seq<u8>) -> Seq<char> {
    Seq::new(
        2 * bytes.len(),
        |i: int|
            if i % 2 == 0 {
                hex_digit(bytes[i / 2] / 16)
            } else {
                hex_digit(bytes[i / 2] % 16)
            },
    )
}

fn hex_digit_str(nibble: u8) -> (digit: &'static str)
    requires
        nibble < 16,
    ensures
        digit@ == seq![hex_digit(nibble)],
{
    proof {
        reveal_strlit("0");
        reveal_strlit("1");
        reveal_strlit("2");
        reveal_strlit("3");
        reveal_strlit("4");
        reveal_strlit("5");
        reveal_strlit("6");
        reveal_strlit("7");
        reveal_strlit("8");
        reveal_strlit("9");
        reveal_strlit("A");
        reveal_strlit("B");
        reveal_strlit("C");
        reveal_strlit("D");
        reveal_strlit("E");
        reveal_strlit("F");
    }
    let digit = match nibble {
        0 => "0",
        1 => "1",
        2 => "2",
        3 => "3",
        4 => "4",
        5 => "5",
        6 => "6",
        7 => "7",
        8 => "8",
        9 => "9",
        10 => "A",
        11 => "B",
        12 => "C",
        13 => "D",
        14 => "E",
        _ => "F",
    };
    assert(digit@ =~= seq![hex_digit(nibble)]);
    digit
}

/// Writes bytes as uppercase hexadecimal text.
pub fn to_upper_hex(bytes: &[u8]) -> (text: String)
    ensures
        text@ == upper_hex(bytes@),
{
    let mut text = String::new();
    let mut i: usize = 0;
    while i < bytes.len()
        invariant
            i <= bytes.len(),
            text@ == upper_hex(bytes@.take(i as int)),
        decreases bytes.len() - i,
    {
        let byte: u8 = bytes[i];
        let ghost before = text@;
        text.append(hex_digit_str(byte / 16));
        text.append(hex_digit_str(byte % 16));
        proof {
            let done = bytes@.take(i as int);
            let next = bytes@.take(i + 1);
            assert(text@ =~= before + seq![hex_digit(byte / 16)] + seq![hex_digit(byte % 16)]);
            assert forall|k: int| 0 <= k < 2 * next.len() implies text@[k] == upper_hex(next)[k] by {
                if k < 2 * i {
                    assert(text@[k] == upper_hex(done)[k]);
                    assert(done[k / 2] == next[k / 2]);
                }
            }
            assert(text@ =~= upper_hex(next));
        }
        i = i + 1;
    }
    proof {
        assert(bytes@.take(i as int) =~= bytes@);
    }
    text
}

/// The fingerprint digest of a file's content: SHA-256 over every byte of the
/// content, as uppercase hexadecimal.
///
/// The digest always covers the whole content. A digest over a leading chunk
/// only would give two files that differ further on the same fingerprint.
pub fn compute_sha256(content: &[u8]) -> (hash: String)
    ensures
        hash@ == upper_hex(sha256(content@)),
{
    let digest = sha256_digest(content);
    to_upper_hex(digest.as_slice())
}

/// Hexadecimal text tells digests apart: two byte sequences with the same
/// text are the same sequence. So two contents have the same fingerprint
/// digest exactly when their SHA-256 digests are the same.
pub proof fn lemma_upper_hex_injective(first: Seq<u8>, second: Seq<u8>)
    requires
        upper_hex(first) == upper_hex(second),
    ensures
        first == second,
{
    assert(upper_hex(first).len() == 2 * first.len());
    assert(upper_hex(second).len() == 2 * second.len());
    assert(first.len() == second.len());
    assert forall|i: int| 0 <= i < first.len() implies first[i] == second[i] by {
        assert((2 * i) / 2 == i && (2 * i) % 2 == 0);
        assert((2 * i + 1) / 2 == i && (2 * i + 1) % 2 == 1);
        assert(upper_hex(first)[2 * i] == hex_digit(first[i] / 16));
        assert(upper_hex(second)[2 * i] == hex_digit(second[i] / 16));
        assert(upper_hex(first)[2 * i + 1] == hex_digit(first[i] % 16));
        assert(upper_hex(second)[2 * i + 1] == hex_digit(second[i] % 16));
    }
    assert(first =~= second);
}

} // verus!
