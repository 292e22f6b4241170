//! Recognising the archive format of a submission from its first bytes.
use vstd::prelude::*;
use crate::search::matches_at_u8;

verus! {

/// The archive formats a submission may come in.
#[derive(Debug, Clone, Copy, PartialEq, Eq, Structural)]
pub enum CompressAlgo {
    Zip,
    Tar,
    Gzip,
    Xz,
    Bzip2,
    Invalid,
}

pub open spec fn starts_with(s: Seq<u8>, prefix: Seq<u8>) -> bool {
    prefix.len() <= s.len() && s.subrange(0, prefix.len() as int) == prefix
}

/// The format that the leading bytes `head` of a file announce: a file of
/// fewer than six bytes is no archive; gzip, bzip2, xz and zip are known by
/// their magic numbers at the start, and tar by "ustar" at offset 257.
pub open spec fn compression_of(head: Seq<u8>) -> CompressAlgo {
    if head.len() < 6 {
        CompressAlgo::Invalid
    } else if starts_with(head, seq![0x1Fu8, 0x8Bu8]) {
        CompressAlgo::Gzip
    } else if starts_with(head, seq![0x42u8, 0x5Au8, 0x68u8]) {
        CompressAlgo::Bzip2
    } else if starts_with(head, seq![0xFDu8, 0x37u8, 0x7Au8, 0x58u8, 0x5Au8, 0x00u8]) {
        CompressAlgo::Xz
    } else if starts_with(head, seq![0x50u8, 0x4Bu8, 0x03u8, 0x04u8]) {
        CompressAlgo::Zip
    } else if head.len() >= 262 && head.subrange(257, 262) == seq![
        0x75u8,
        0x73u8,
        0x74u8,
        0x61u8,
        0x72u8,
    ] {
        CompressAlgo::Tar
    } else {
        CompressAlgo::Invalid
    }
}

/// Whether `s` holds `pattern` from index `at` on.
fn holds_at(s: &[u8], at: usize, pattern: &[u8]) -> (r: bool)
    ensures
        r == (at + pattern@.len() <= s@.len() && s@.subrange(at as int, at + pattern@.len())
            == pattern@),
{
    if at > s.len() || pattern.len() > s.len() - at {
        return false;
    }
    matches_at_u8(s, pattern, at)
}

/// The archive format of a file, from its leading bytes: at least its first
/// 262 bytes, or the whole file when it is shorter.
pub fn get_compression_type(head: &[u8]) -> (r: CompressAlgo)
    ensures
        r == compression_of(head@),
{
    if head.len() < 6 {
        return CompressAlgo::Invalid;
    }
    let gzip: [u8; 2] = [0x1F, 0x8B];
    let bzip2: [u8; 3] = [0x42, 0x5A, 0x68];
    let xz: [u8; 6] = [0xFD, 0x37, 0x7A, 0x58, 0x5A, 0x00];
    let zip: [u8; 4] = [0x50, 0x4B, 0x03, 0x04];
    let ustar: [u8; 5] = [0x75, 0x73, 0x74, 0x61, 0x72];
    assert(gzip@ =~= seq![0x1Fu8, 0x8Bu8]);
    assert(bzip2@ =~= seq![0x42u8, 0x5Au8, 0x68u8]);
    assert(xz@ =~= seq![0xFDu8, 0x37u8, 0x7Au8, 0x58u8, 0x5Au8, 0x00u8]);
    assert(zip@ =~= seq![0x50u8, 0x4Bu8, 0x03u8, 0x04u8]);
    assert(ustar@ =~= seq![0x75u8, 0x73u8, 0x74u8, 0x61u8, 0x72u8]);
    if holds_at(head, 0, &gzip) {
        CompressAlgo::Gzip
    } else if holds_at(head, 0, &bzip2) {
        CompressAlgo::Bzip2
    } else if holds_at(head, 0, &xz) {
        CompressAlgo::Xz
    } else if holds_at(head, 0, &zip) {
        CompressAlgo::Zip
    } else if holds_at(head, 257, &ustar) {
        CompressAlgo::Tar
    } else {
        CompressAlgo::Invalid
    }
}

} // verus!
