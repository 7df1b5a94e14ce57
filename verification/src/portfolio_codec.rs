//! Portfolios at rest: a fixed layout with room for every exposure a
//! portfolio can hold. The collateral balance is not part of the data; it is
//! the balance of the account that holds the data.

use crate::bytes::{
    appended, i128_le, i64_le, read_i128_le, read_i64_le, read_pubkey, read_u128_le, read_u16_le,
    read_u64_le, u128_le, u16_le, u64_le, write_i128_le, write_i64_le, write_pubkey,
    write_u128_le, write_u16_le, write_u64_le, write_zeros,
};
use crate::error::PercolatorError;
use crate::portfolio::{Portfolio, PortfolioView, MAX_EXPOSURES};
use vstd::prelude::*;

verus! {

/// Size of the fields of a portfolio that come before its exposures.
pub const PORTFOLIO_HEADER_LEN: usize = 178;

/// Size of one exposure.
pub const EXPOSURE_LEN: usize = 12;

/// Size of a portfolio's data.
pub const PORTFOLIO_LEN: usize = 946;

/// Tells whether `bytes` spell the exposure `entry` at `at`.
pub open spec fn exposure_at(bytes: Seq<u8>, at: int, entry: (u16, u16, i64)) -> bool {
    &&& entry.0 == u16_le(bytes, at)
    &&& entry.1 == u16_le(bytes, at + 2)
    &&& entry.2 == i64_le(bytes, at + 4)
}

/// Tells whether the fields of `portfolio`, but for its exposures and its
/// balance, are what `bytes` spell at the fixed offsets of the layout.
pub open spec fn portfolio_header_decoded(bytes: Seq<u8>, portfolio: PortfolioView) -> bool {
    &&& portfolio.router_id@ == bytes.subrange(0, 32)
    &&& portfolio.user@ == bytes.subrange(32, 64)
    &&& portfolio.equity == i128_le(bytes, 64)
    &&& portfolio.im == u128_le(bytes, 80)
    &&& portfolio.mm == u128_le(bytes, 96)
    &&& portfolio.principal == i128_le(bytes, 112)
    &&& portfolio.pnl == i128_le(bytes, 128)
    &&& portfolio.vested_pnl == i128_le(bytes, 144)
    &&& portfolio.last_slot == u64_le(bytes, 160)
    &&& portfolio.pnl_index_checkpoint == u64_le(bytes, 168)
    &&& portfolio.exposures.len() == u16_le(bytes, 176)
}

/// Tells whether `portfolio` is what the data `bytes` of an account with the
/// balance `lamports` spell.
pub open spec fn portfolio_decoded(bytes: Seq<u8>, lamports: u64, portfolio: PortfolioView) -> bool {
    &&& bytes.len() == PORTFOLIO_LEN
    &&& portfolio.lamports == lamports
    &&& portfolio.exposures.len() <= MAX_EXPOSURES
    &&& portfolio_header_decoded(bytes, portfolio)
    &&& forall|i: int|
        0 <= i < portfolio.exposures.len() ==> exposure_at(
            bytes,
            PORTFOLIO_HEADER_LEN + EXPOSURE_LEN * i,
            #[trigger] portfolio.exposures[i],
        )
}

/// Data and balance spell one portfolio only.
pub proof fn lemma_portfolio_decoding_unique(
    bytes: Seq<u8>,
    lamports: u64,
    a: PortfolioView,
    b: PortfolioView,
)
    requires
        portfolio_decoded(bytes, lamports, a),
        portfolio_decoded(bytes, lamports, b),
    ensures
        a == b,
{
    assert(a.router_id =~= b.router_id);
    assert(a.user =~= b.user);
    assert(a.exposures =~= b.exposures) by {
        assert forall|i: int| 0 <= i < a.exposures.len() implies a.exposures[i] == b.exposures[i] by {
            assert(exposure_at(bytes, PORTFOLIO_HEADER_LEN + EXPOSURE_LEN * i, a.exposures[i]));
            assert(exposure_at(bytes, PORTFOLIO_HEADER_LEN + EXPOSURE_LEN * i, b.exposures[i]));
        }
    }
}

/// Appends one exposure.
fn write_exposure(out: &mut Vec<u8>, entry: (u16, u16, i64))
    ensures
        appended(old(out)@, final(out)@, EXPOSURE_LEN as int),
        exposure_at(final(out)@, old(out)@.len() as int, entry),
{
    write_u16_le(out, entry.0);
    write_u16_le(out, entry.1);
    let ghost head = out@;
    write_i64_le(out, entry.2);
    proof {
        assert(forall|j: int| 0 <= j < head.len() ==> out@[j] == head[j]);
    }
}

/// Encodes the fields that come before the exposures.
fn encode_portfolio_header(portfolio: &Portfolio) -> (out: Vec<u8>)
    requires
        portfolio@.exposures.len() <= MAX_EXPOSURES,
    ensures
        out@.len() == PORTFOLIO_HEADER_LEN,
        portfolio_header_decoded(out@, portfolio@),
{
    let mut out: Vec<u8> = Vec::new();
    write_pubkey(&mut out, &portfolio.router_id);
    let ghost s0 = out@;
    write_pubkey(&mut out, &portfolio.user);
    let ghost s1 = out@;
    write_i128_le(&mut out, portfolio.equity);
    write_u128_le(&mut out, portfolio.im);
    let ghost s2 = out@;
    write_u128_le(&mut out, portfolio.mm);
    write_i128_le(&mut out, portfolio.principal);
    let ghost s3 = out@;
    write_i128_le(&mut out, portfolio.pnl);
    write_i128_le(&mut out, portfolio.vested_pnl);
    let ghost s4 = out@;
    write_u64_le(&mut out, portfolio.last_slot);
    write_u64_le(&mut out, portfolio.pnl_index_checkpoint);
    let ghost s5 = out@;
    write_u16_le(&mut out, portfolio.exposures.len() as u16);
    proof {
        assert(forall|j: int| 0 <= j < 32 ==> out@[j] == s0[j]);
        assert(forall|j: int| 0 <= j < 64 ==> out@[j] == s1[j]);
        assert(forall|j: int| 0 <= j < 96 ==> out@[j] == s2[j]);
        assert(forall|j: int| 0 <= j < 128 ==> out@[j] == s3[j]);
        assert(forall|j: int| 0 <= j < 160 ==> out@[j] == s4[j]);
        assert(forall|j: int| 0 <= j < 176 ==> out@[j] == s5[j]);
        assert(out@.subrange(0, 32) =~= s0.subrange(0, 32));
        assert(s0.subrange(0, 32) =~= portfolio.router_id@);
        assert(out@.subrange(32, 64) =~= s1.subrange(32, 64));
    }
    out
}

/// Bytes that agree on the header spell the same header.
proof fn lemma_header_kept(before: Seq<u8>, after: Seq<u8>, portfolio: PortfolioView)
    requires
        before.len() >= PORTFOLIO_HEADER_LEN,
        after.len() >= before.len(),
        forall|j: int| 0 <= j < before.len() ==> #[trigger] after[j] == before[j],
        portfolio_header_decoded(before, portfolio),
    ensures
        portfolio_header_decoded(after, portfolio),
{
    assert(after.subrange(0, 32) =~= before.subrange(0, 32));
    assert(after.subrange(32, 64) =~= before.subrange(32, 64));
}

/// Bytes that agree on an exposure spell the same exposure.
proof fn lemma_exposure_kept(before: Seq<u8>, after: Seq<u8>, at: int, entry: (u16, u16, i64))
    requires
        0 <= at,
        at + EXPOSURE_LEN <= before.len(),
        after.len() >= before.len(),
        forall|j: int| 0 <= j < before.len() ==> #[trigger] after[j] == before[j],
        exposure_at(before, at, entry),
    ensures
        exposure_at(after, at, entry),
{
}

impl Portfolio {
    /// Encodes the portfolio in its layout. A portfolio with more exposures
    /// than the layout has room for is refused.
    pub fn to_bytes(&self) -> (result: Result<Vec<u8>, PercolatorError>)
        ensures
            self@.exposures.len() > MAX_EXPOSURES ==> result == Err::<Vec<u8>, PercolatorError>(
                PercolatorError::PoolFull,
            ),
            self@.exposures.len() <= MAX_EXPOSURES ==> result is Ok && portfolio_decoded(
                result->Ok_0@,
                self.lamports,
                self@,
            ) && forall|j: int|
                PORTFOLIO_HEADER_LEN + EXPOSURE_LEN * self@.exposures.len() <= j < PORTFOLIO_LEN
                    ==> result->Ok_0@[j] == 0,
    {
        if self.exposures.len() > MAX_EXPOSURES {
            return Err(PercolatorError::PoolFull);
        }
        let mut out: Vec<u8> = encode_portfolio_header(self);
        let count: usize = self.exposures.len();
        let mut i: usize = 0;
        while i < count
            invariant
                i <= count <= MAX_EXPOSURES,
                count == self.exposures@.len(),
                out@.len() == PORTFOLIO_HEADER_LEN + EXPOSURE_LEN * i,
                portfolio_header_decoded(out@, self@),
                forall|k: int|
                    0 <= k < i ==> exposure_at(
                        out@,
                        PORTFOLIO_HEADER_LEN + EXPOSURE_LEN * k,
                        #[trigger] self.exposures@[k],
                    ),
            decreases count - i,
        {
            let ghost before = out@;
            write_exposure(&mut out, self.exposures[i]);
            proof {
                lemma_header_kept(before, out@, self@);
                assert forall|k: int| 0 <= k < i + 1 implies exposure_at(
                    out@,
                    PORTFOLIO_HEADER_LEN + EXPOSURE_LEN * k,
                    #[trigger] self.exposures@[k],
                ) by {
                    if k < i {
                        lemma_exposure_kept(
                            before,
                            out@,
                            PORTFOLIO_HEADER_LEN + EXPOSURE_LEN * k,
                            self.exposures@[k],
                        );
                    }
                }
            }
            i += 1;
        }
        let ghost filled = out@;
        write_zeros(&mut out, (MAX_EXPOSURES - count) * EXPOSURE_LEN);
        proof {
            lemma_header_kept(filled, out@, self@);
            assert forall|k: int| 0 <= k < count implies exposure_at(
                out@,
                PORTFOLIO_HEADER_LEN + EXPOSURE_LEN * k,
                #[trigger] self.exposures@[k],
            ) by {
                lemma_exposure_kept(
                    filled,
                    out@,
                    PORTFOLIO_HEADER_LEN + EXPOSURE_LEN * k,
                    self.exposures@[k],
                );
            }
        }
        Ok(out)
    }

    /// Decodes a portfolio from the data of its account and the account's
    /// balance. Data of another size, and a count of exposures beyond the
    /// room of the layout, are refused.
    pub fn from_bytes(data: &[u8], lamports: u64) -> (result: Result<Portfolio, PercolatorError>)
        ensures
            result is Ok <==> data@.len() == PORTFOLIO_LEN && u16_le(data@, 176) <= MAX_EXPOSURES,
            result is Ok ==> portfolio_decoded(data@, lamports, result->Ok_0@),
            result is Err ==> result->Err_0 == PercolatorError::InvalidAccount,
    {
        if data.len() != PORTFOLIO_LEN {
            return Err(PercolatorError::InvalidAccount);
        }
        let count: usize = read_u16_le(data, 176) as usize;
        if count > MAX_EXPOSURES {
            return Err(PercolatorError::InvalidAccount);
        }
        let mut exposures: Vec<(u16, u16, i64)> = Vec::new();
        let mut i: usize = 0;
        while i < count
            invariant
                i <= count <= MAX_EXPOSURES,
                data@.len() == PORTFOLIO_LEN,
                exposures@.len() == i,
                forall|k: int|
                    0 <= k < i ==> exposure_at(
                        data@,
                        PORTFOLIO_HEADER_LEN + EXPOSURE_LEN * k,
                        #[trigger] exposures@[k],
                    ),
            decreases count - i,
        {
            let at: usize = PORTFOLIO_HEADER_LEN + EXPOSURE_LEN * i;
            exposures.push((read_u16_le(data, at), read_u16_le(data, at + 2), read_i64_le(data, at + 4)));
            i += 1;
        }
        Ok(
            Portfolio {
                router_id: read_pubkey(data, 0),
                user: read_pubkey(data, 32),
                equity: read_i128_le(data, 64),
                im: read_u128_le(data, 80),
                mm: read_u128_le(data, 96),
                principal: read_i128_le(data, 112),
                pnl: read_i128_le(data, 128),
                vested_pnl: read_i128_le(data, 144),
                last_slot: read_u64_le(data, 160),
                pnl_index_checkpoint: read_u64_le(data, 168),
                lamports,
                exposures,
            },
        )
    }
}

} // verus!
