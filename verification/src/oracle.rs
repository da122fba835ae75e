use crate::errors::ErrorCode;
use crate::key::Key;
use vstd::prelude::*;

verus! {

/// The number of bytes of a price feed as it is written out: two
/// sixty-four-bit integers, a key and one byte.
pub const PRICE_FEED_LEN: usize = 49;

/// The number of bytes that a stored record carries in front of its fields.
pub const RECORD_TAG_LEN: usize = 8;

/// What an oracle publishes for one market.
#[derive(Clone, Copy, Debug, PartialEq, Eq)]
pub struct PriceFeed {
    pub price: i64,
    pub last_updated: i64,
    pub authority: Key,
    pub bump: u8,
}

/// The unsigned integer that eight bytes spell, lowest byte first.
pub open spec fn le_u64(bytes: Seq<u8>) -> int
    recommends
        bytes.len() == 8,
{
    bytes[0] + bytes[1] * 0x100 + bytes[2] * 0x1_0000 + bytes[3] * 0x100_0000 + bytes[4]
        * 0x1_0000_0000 + bytes[5] * 0x100_0000_0000 + bytes[6] * 0x1_0000_0000_0000 + bytes[7]
        * 0x100_0000_0000_0000
}

/// The signed integer that eight bytes spell in two's complement, lowest byte first.
pub open spec fn le_i64(bytes: Seq<u8>) -> int
    recommends
        bytes.len() == 8,
{
    if le_u64(bytes) < 0x8000_0000_0000_0000 {
        le_u64(bytes)
    } else {
        le_u64(bytes) - 0x1_0000_0000_0000_0000
    }
}

/// Whether `feed` is what the bytes spell: exactly the feed's fields, one
/// after the other and nothing else.
pub open spec fn spells_feed(data: Seq<u8>, feed: PriceFeed) -> bool {
    &&& data.len() == PRICE_FEED_LEN
    &&& feed.price == le_i64(data.subrange(0, 8))
    &&& feed.last_updated == le_i64(data.subrange(8, 16))
    &&& feed.authority@ == data.subrange(16, 48)
    &&& feed.bump == data[48]
}

/// The price that the bytes of a feed record hold, if they hold one.
///
/// Bytes that are exactly a feed give the feed's price. Any other record is
/// read as a stored one: its price stands behind the record's tag.
pub open spec fn oracle_price(data: Seq<u8>) -> Option<int> {
    if data.len() == PRICE_FEED_LEN {
        Some(le_i64(data.subrange(0, 8)))
    } else if data.len() >= RECORD_TAG_LEN + 8 {
        Some(le_i64(data.subrange(RECORD_TAG_LEN as int, RECORD_TAG_LEN + 8)))
    } else {
        None
    }
}

/// The price as the engine accepts it: present and above zero.
pub open spec fn checked_oracle_price(data: Seq<u8>) -> Result<i64, ErrorCode> {
    match oracle_price(data) {
        Some(price) => if price > 0 {
            Ok(price as i64)
        } else {
            Err(ErrorCode::InvalidPrice)
        },
        None => Err(ErrorCode::InvalidPrice),
    }
}

/// Reads the signed integer that stands at `at`.
fn read_i64_le(data: &[u8], at: usize) -> (v: i64)
    requires
        at + 8 <= data@.len(),
    ensures
        v == le_i64(data@.subrange(at as int, at + 8)),
{
    let ghost bytes = data@.subrange(at as int, at + 8);
    assert(bytes[0] == data@[at as int]);
    assert(bytes[1] == data@[at + 1]);
    assert(bytes[2] == data@[at + 2]);
    assert(bytes[3] == data@[at + 3]);
    assert(bytes[4] == data@[at + 4]);
    assert(bytes[5] == data@[at + 5]);
    assert(bytes[6] == data@[at + 6]);
    assert(bytes[7] == data@[at + 7]);
    let low: u64 = data[at] as u64 + data[at + 1] as u64 * 0x100 + data[at + 2] as u64 * 0x1_0000
        + data[at + 3] as u64 * 0x100_0000;
    let high: u64 = data[at + 4] as u64 + data[at + 5] as u64 * 0x100 + data[at + 6] as u64
        * 0x1_0000 + data[at + 7] as u64 * 0x100_0000;
    let unsigned: u64 = low + high * 0x1_0000_0000;
    if unsigned < 0x8000_0000_0000_0000 {
        unsigned as i64
    } else {
        (unsigned - 0x8000_0000_0000_0000) as i64 + i64::MIN
    }
}

impl PriceFeed {
    /// Reads a feed from bytes that are exactly one feed.
    pub fn try_from_slice(data: &[u8]) -> (r: Option<PriceFeed>)
        ensures
            match r {
                Some(feed) => spells_feed(data@, feed),
                None => data@.len() != PRICE_FEED_LEN,
            },
    {
        if data.len() != PRICE_FEED_LEN {
            return None;
        }
        let price = read_i64_le(data, 0);
        let last_updated = read_i64_le(data, 8);
        let mut bytes: [u8; 32] = [0u8; 32];
        let mut i: usize = 0;
        while i < 32
            invariant
                i <= 32,
                data@.len() == PRICE_FEED_LEN,
                forall|j: int| 0 <= j < i ==> bytes[j] == data@[16 + j],
            decreases 32 - i,
        {
            bytes[i] = data[16 + i];
            i += 1;
        }
        let authority = Key::new(bytes);
        assert(authority@ =~= data@.subrange(16, 48));
        Some(PriceFeed { price, last_updated, authority, bump: data[48] })
    }
}

/// The price that a feed record holds.
///
/// Fails with `InvalidPrice` where the record is too short to hold a price
/// or the price is not above zero.
pub fn get_price_from_oracle(data: &[u8]) -> (r: Result<i64, ErrorCode>)
    ensures
        r == checked_oracle_price(data@),
        r matches Ok(price) ==> price > 0,
{
    let price = match PriceFeed::try_from_slice(data) {
        Some(feed) => feed.price,
        None => {
            if data.len() < RECORD_TAG_LEN + 8 {
                return Err(ErrorCode::InvalidPrice);
            }
            read_i64_le(data, RECORD_TAG_LEN)
        },
    };
    if price <= 0 {
        return Err(ErrorCode::InvalidPrice);
    }
    Ok(price)
}

/// Sets up a price feed with its first price at time `now`.
pub fn initialize_price_feed(initial_price: i64, authority: Key, bump: u8, now: i64) -> (feed:
    PriceFeed)
    ensures
        feed == (PriceFeed { price: initial_price, last_updated: now, authority, bump }),
{
    PriceFeed { price: initial_price, last_updated: now, authority, bump }
}

/// Publishes a new price at time `now`.
pub fn set_price(feed: &mut PriceFeed, new_price: i64, now: i64)
    ensures
        *final(feed) == (PriceFeed { price: new_price, last_updated: now, ..*old(feed) }),
{
    feed.price = new_price;
    feed.last_updated = now;
}

/// The price that a feed holds.
pub fn get_price(feed: &PriceFeed) -> (price: i64)
    ensures
        price == feed.price,
{
    feed.price
}

} // verus!
