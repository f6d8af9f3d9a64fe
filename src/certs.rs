//! Extraction of the DER contents of PEM blocks, such as a certificate
//! chain. A block that fails to decode is skipped; the others are kept.

use vstd::prelude::*;

verus! {

/// What decoding a buffer's PEM blocks gives, block by block in the order
/// of the buffer: the decoded contents of each block, or `None` where the
/// block is present but invalid.
pub uninterp spec fn pem_blocks_of(buf: Seq<u8>) -> Seq<Option<Seq<u8>>>;

pub open spec fn block_view(b: Option<Vec<u8>>) -> Option<Seq<u8>> {
    match b {
        Some(v) => Some(v@),
        None => None,
    }
}

pub open spec fn blocks_view(bs: Seq<Option<Vec<u8>>>) -> Seq<Option<Seq<u8>>> {
    bs.map_values(|b: Option<Vec<u8>>| block_view(b))
}

/// The contents of the blocks that decoded, in order.
pub open spec fn decoded(bs: Seq<Option<Seq<u8>>>) -> Seq<Seq<u8>>
    decreases bs.len(),
{
    if bs.len() == 0 {
        Seq::empty()
    } else {
        match bs.last() {
            Some(c) => decoded(bs.drop_last()).push(c),
            None => decoded(bs.drop_last()),
        }
    }
}

/// The contents of the first block that decoded.
pub open spec fn first_decoded(bs: Seq<Option<Seq<u8>>>) -> Option<Seq<u8>>
    decreases bs.len(),
{
    if bs.len() == 0 {
        None
    } else {
        match bs[0] {
            Some(c) => Some(c),
            None => first_decoded(bs.drop_first()),
        }
    }
}

/// Relies on x509_parser::pem::Pem::iter_from_buffer: it walks the PEM
/// blocks of the buffer in order and yields each block's decoded contents,
/// or an error for a block that is present but invalid. Each block read
/// consumes at least one line, so the walk ends; an empty buffer holds
/// no block.
#[verifier::external_body]
fn pem_blocks(buf: &[u8]) -> (r: Vec<Option<Vec<u8>>>)
    ensures
        blocks_view(r@) == pem_blocks_of(buf@),
        buf@.len() == 0 ==> r@.len() == 0,
{
    x509_parser::pem::Pem::iter_from_buffer(buf).map(|p| p.ok().map(|pem| pem.contents)).collect()
}

/// Keeps the contents of the blocks that decoded, in order.
pub fn collect_decoded(blocks: Vec<Option<Vec<u8>>>) -> (r: Vec<Vec<u8>>)
    ensures
        r.deep_view() == decoded(blocks_view(blocks@)),
{
    let mut out: Vec<Vec<u8>> = Vec::new();
    let mut rest = blocks;
    let ghost all = blocks_view(rest@);
    let mut i: usize = 0;
    let n = rest.len();
    while i < n
        invariant
            n == blocks@.len(),
            i <= n,
            all == blocks_view(blocks@),
            rest@ == blocks@.subrange(i as int, n as int),
            out.deep_view() == decoded(all.subrange(0, i as int)),
        decreases n - i,
    {
        let b = rest.remove(0);
        assert(rest@ =~= blocks@.subrange(i + 1, n as int));
        proof {
            assert(b == blocks@[i as int]);
            assert(all.subrange(0, i + 1).drop_last() =~= all.subrange(0, i as int));
            assert(all[i as int] == block_view(b));
        }
        match b {
            Some(c) => {
                let ghost prev = out.deep_view();
                let ghost cv = c@;
                assert(c.deep_view() =~= cv);
                out.push(c);
                proof {
                    assert(out.deep_view() =~= prev.push(cv));
                }
            },
            None => {},
        }
        i = i + 1;
    }
    assert(all.subrange(0, n as int) =~= all);
    out
}

/// The contents of the first block that decoded, if any.
pub fn first_decoded_block(blocks: Vec<Option<Vec<u8>>>) -> (r: Option<Vec<u8>>)
    ensures
        block_view(r) == first_decoded(blocks_view(blocks@)),
{
    let ghost all = blocks_view(blocks@);
    let mut rest = blocks;
    let n = rest.len();
    let mut i: usize = 0;
    assert(all.subrange(0, n as int) =~= all);
    assert(rest@ =~= blocks@.subrange(0, n as int));
    while i < n
        invariant
            n == blocks@.len(),
            i <= n,
            all == blocks_view(blocks@),
            rest@ == blocks@.subrange(i as int, n as int),
            first_decoded(all) == first_decoded(all.subrange(i as int, n as int)),
        decreases n - i,
    {
        let b = rest.remove(0);
        assert(rest@ =~= blocks@.subrange(i + 1, n as int));
        proof {
            assert(b == blocks@[i as int]);
            assert(all.subrange(i as int, n as int)[0] == block_view(b));
            assert(all.subrange(i as int, n as int).drop_first() =~= all.subrange(
                i + 1,
                n as int,
            ));
        }
        if b.is_some() {
            return b;
        }
        i = i + 1;
    }
    None
}

/// The DER contents of every PEM block in `certs` that decodes, in order;
/// blocks that fail to decode are skipped.
pub fn parse_certs(certs: &[u8]) -> (r: Vec<Vec<u8>>)
    ensures
        r.deep_view() == decoded(pem_blocks_of(certs@)),
        certs@.len() == 0 ==> r@.len() == 0,
{
    let blocks = pem_blocks(certs);
    proof {
        if certs@.len() == 0 {
            assert(blocks_view(blocks@) =~= Seq::<Option<Seq<u8>>>::empty());
        }
    }
    let r = collect_decoded(blocks);
    assert(r.deep_view().len() == r@.len());
    r
}

/// The DER contents of the first PEM block in `cert` that decodes.
pub fn parse_cert(cert: &[u8]) -> (r: Option<Vec<u8>>)
    ensures
        block_view(r) == first_decoded(pem_blocks_of(cert@)),
        cert@.len() == 0 ==> r is None,
{
    let blocks = pem_blocks(cert);
    proof {
        if cert@.len() == 0 {
            assert(blocks_view(blocks@) =~= Seq::<Option<Seq<u8>>>::empty());
        }
    }
    first_decoded_block(blocks)
}

} // verus!
