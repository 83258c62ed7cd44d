//! Account layouts and their decoding from little-endian bytes.
use vstd::prelude::*;

use crate::error::PythError;
use crate::price_conf::PriceConf;

verus! {

/// Magic number at the start of every account.
pub const MAGIC: u32 = 0xa1b2c3d4;
/// Layout version 2.
pub const VERSION_2: u32 = 2;
/// The supported layout version.
pub const VERSION: u32 = VERSION_2;
/// Number of product key slots in a mapping account.
pub const MAP_TABLE_SIZE: usize = 640;
/// Size in bytes of a product account.
pub const PROD_ACCT_SIZE: usize = 512;
/// Size in bytes of a product account's fields before its attributes.
pub const PROD_HDR_SIZE: usize = 48;
/// Size in bytes of a product account's attribute region.
pub const PROD_ATTR_SIZE: usize = PROD_ACCT_SIZE - PROD_HDR_SIZE;
/// Size in bytes of a mapping account: a 56-byte head and the key table.
pub const MAPPING_ACCT_SIZE: usize = 20536;
/// Size in bytes of a price account: a 240-byte head and 32 components of
/// 96 bytes.
pub const PRICE_ACCT_SIZE: usize = 3312;

/// Offset of the key table in a mapping account.
pub const MAPPING_PRODUCTS_OFFSET: usize = 56;
/// Offset of the aggregate price in a price account.
pub const PRICE_AGG_OFFSET: usize = 208;
/// Offset of the first component in a price account.
pub const PRICE_COMP_OFFSET: usize = 240;
/// Size in bytes of a key.
pub const KEY_SIZE: usize = 32;
/// Size in bytes of a price component.
pub const COMP_SIZE: usize = 96;

/// The unsigned value of the 4 bytes at `off`, least significant first.
pub open spec fn le_u32(s: Seq<u8>, off: int) -> int {
    s[off] + s[off + 1] * 0x100 + s[off + 2] * 0x10000 + s[off + 3] * 0x1000000
}

/// The unsigned value of the 8 bytes at `off`, least significant first.
pub open spec fn le_u64(s: Seq<u8>, off: int) -> int {
    le_u32(s, off) + le_u32(s, off + 4) * 0x1_0000_0000
}

/// The two's-complement value of the 4 bytes at `off`.
pub open spec fn le_i32(s: Seq<u8>, off: int) -> int {
    let u = le_u32(s, off);
    if u >= 0x8000_0000 {
        u - 0x1_0000_0000
    } else {
        u
    }
}

/// The two's-complement value of the 8 bytes at `off`.
pub open spec fn le_i64(s: Seq<u8>, off: int) -> int {
    let u = le_u64(s, off);
    if u >= 0x8000_0000_0000_0000 {
        u - 0x1_0000_0000_0000_0000
    } else {
        u
    }
}

/// A slice is never longer than `usize::MAX`.
proof fn lemma_slice_len_bound(data: &[u8])
    ensures
        data@.len() <= usize::MAX,
{
    assert(data.len() == data@.len());
}

fn read_u32(data: &[u8], off: usize) -> (r: u32)
    requires
        off + 4 <= data@.len(),
    ensures
        r == le_u32(data@, off as int),
{
    data[off] as u32 + (data[off + 1] as u32) * 0x100 + (data[off + 2] as u32) * 0x10000 + (
    data[off + 3] as u32) * 0x1000000
}

fn read_u64(data: &[u8], off: usize) -> (r: u64)
    requires
        off + 8 <= data@.len(),
    ensures
        r == le_u64(data@, off as int),
{
    let lo = read_u32(data, off);
    proof {
        lemma_slice_len_bound(data);
    }
    lo as u64 + (read_u32(data, off + 4) as u64) * 0x1_0000_0000
}

fn read_i32(data: &[u8], off: usize) -> (r: i32)
    requires
        off + 4 <= data@.len(),
    ensures
        r == le_i32(data@, off as int),
{
    let u = read_u32(data, off);
    if u >= 0x8000_0000 {
        (u - 0x8000_0000) as i32 - 0x7fff_ffff - 1
    } else {
        u as i32
    }
}

fn read_i64(data: &[u8], off: usize) -> (r: i64)
    requires
        off + 8 <= data@.len(),
    ensures
        r == le_i64(data@, off as int),
{
    let u = read_u64(data, off);
    if u >= 0x8000_0000_0000_0000 {
        (u - 0x8000_0000_0000_0000) as i64 - 0x7fff_ffff_ffff_ffff - 1
    } else {
        u as i64
    }
}

/// The kinds of account, each with its own tag.
#[derive(Clone, Copy, Debug, PartialEq, Eq, Structural)]
pub enum AccountType {
    Unknown,
    Mapping,
    Product,
    Price,
}

impl AccountType {
    /// The tag that marks an account of this kind.
    pub open spec fn spec_tag(self) -> u32 {
        match self {
            AccountType::Unknown => 0,
            AccountType::Mapping => 1,
            AccountType::Product => 2,
            AccountType::Price => 3,
        }
    }

    /// The tag that marks an account of this kind.
    pub fn tag(&self) -> (r: u32)
        ensures
            r == self.spec_tag(),
    {
        match self {
            AccountType::Unknown => 0,
            AccountType::Mapping => 1,
            AccountType::Product => 2,
            AccountType::Price => 3,
        }
    }
}

/// The outcome of checking an account's length and header: the length
/// first, then magic number, version and tag, the first mismatch deciding.
pub open spec fn spec_check_header(s: Seq<u8>, size: int, kind: AccountType) -> Result<(), PythError> {
    if s.len() < size || le_u32(s, 0) != MAGIC {
        Err(PythError::InvalidAccountData)
    } else if le_u32(s, 4) != VERSION_2 {
        Err(PythError::BadVersionNumber)
    } else if le_u32(s, 8) != kind.spec_tag() {
        Err(PythError::WrongAccountType)
    } else {
        Ok(())
    }
}

fn check_header(data: &[u8], size: usize, kind: AccountType) -> (r: Result<(), PythError>)
    requires
        size >= 16,
    ensures
        r == spec_check_header(data@, size as int, kind),
{
    if data.len() < size {
        return Err(PythError::InvalidAccountData);
    }
    if read_u32(data, 0) != MAGIC {
        return Err(PythError::InvalidAccountData);
    }
    if read_u32(data, 4) != VERSION_2 {
        return Err(PythError::BadVersionNumber);
    }
    if read_u32(data, 8) != kind.tag() {
        return Err(PythError::WrongAccountType);
    }
    Ok(())
}

/// A public key of the host runtime.
#[derive(Clone, Copy, Debug)]
pub struct AccKey {
    pub val: [u8; 32],
}

impl AccKey {
    /// This key holds the 32 bytes at `off`.
    pub open spec fn decoded_from(self, s: Seq<u8>, off: int) -> bool {
        self.val@ == s.subrange(off, off + 32)
    }

    /// A key is valid when any of its bytes is not zero.
    pub open spec fn spec_is_valid(self) -> bool {
        exists|j: int| 0 <= j < 32 && self.val@[j] != 0
    }

    /// Whether this key is set: true when any of its bytes is not zero.
    pub fn is_valid(&self) -> (r: bool)
        ensures
            r == self.spec_is_valid(),
    {
        let mut i: usize = 0;
        while i < 32
            invariant
                i <= 32,
                forall|j: int| 0 <= j < i ==> self.val@[j] == 0,
            decreases 32 - i,
        {
            if self.val[i] != 0 {
                return true;
            }
            i = i + 1;
        }
        false
    }
}

fn read_key(data: &[u8], off: usize) -> (r: AccKey)
    requires
        off + 32 <= data@.len(),
    ensures
        r.decoded_from(data@, off as int),
{
    proof {
        lemma_slice_len_bound(data);
    }
    let mut val = [0u8; 32];
    let mut i: usize = 0;
    while i < 32
        invariant
            i <= 32,
            off + 32 <= data@.len() <= usize::MAX,
            forall|j: int| 0 <= j < i ==> val@[j] == data@[off + j],
        decreases 32 - i,
    {
        val[i] = data[off + i];
        i = i + 1;
    }
    let r = AccKey { val };
    assert(r.val@ =~= data@.subrange(off as int, off + 32));
    r
}

/// Trading status of a price. Only `Trading` marks a price that may be used.
#[derive(Clone, Copy, Debug, PartialEq, Eq, Structural)]
pub enum PriceStatus {
    Unknown,
    Trading,
    Halted,
    Auction,
}

/// The status that a stored status word stands for; a word of no known
/// status reads as `Unknown`.
pub open spec fn status_of(v: int) -> PriceStatus {
    if v == 1 {
        PriceStatus::Trading
    } else if v == 2 {
        PriceStatus::Halted
    } else if v == 3 {
        PriceStatus::Auction
    } else {
        PriceStatus::Unknown
    }
}

fn read_status(data: &[u8], off: usize) -> (r: PriceStatus)
    requires
        off + 4 <= data@.len(),
    ensures
        r == status_of(le_u32(data@, off as int)),
{
    let v = read_u32(data, off);
    if v == 1 {
        PriceStatus::Trading
    } else if v == 2 {
        PriceStatus::Halted
    } else if v == 3 {
        PriceStatus::Auction
    } else {
        PriceStatus::Unknown
    }
}

/// Corporate action in progress; none is defined yet, so every stored word
/// reads as `NoCorpAct`.
#[derive(Clone, Copy, Debug, PartialEq, Eq, Structural)]
pub enum CorpAction {
    NoCorpAct,
}

/// Kind of price held by a price account.
#[derive(Clone, Copy, Debug, PartialEq, Eq, Structural)]
pub enum PriceType {
    Unknown,
    Price,
}

/// The price kind that a stored word stands for; any word but `1` reads as
/// `Unknown`.
pub open spec fn price_type_of(v: int) -> PriceType {
    if v == 1 {
        PriceType::Price
    } else {
        PriceType::Unknown
    }
}

fn read_price_type(data: &[u8], off: usize) -> (r: PriceType)
    requires
        off + 4 <= data@.len(),
    ensures
        r == price_type_of(le_u32(data@, off as int)),
{
    if read_u32(data, off) == 1 {
        PriceType::Price
    } else {
        PriceType::Unknown
    }
}

/// A price with its confidence, status and publication slot.
#[derive(Clone, Copy, Debug)]
pub struct PriceInfo {
    /// Product price.
    pub price: i64,
    /// Confidence interval of the price.
    pub conf: u64,
    /// Status of the price; only `Trading` is valid.
    pub status: PriceStatus,
    /// Notification of any corporate action.
    pub corp_act: CorpAction,
    /// Slot in which the price was published.
    pub pub_slot: u64,
}

/// The price information held in the 32 bytes at `off`: price, confidence,
/// status word, corporate-action word and slot.
pub open spec fn price_info_at(s: Seq<u8>, off: int) -> PriceInfo {
    PriceInfo {
        price: le_i64(s, off) as i64,
        conf: le_u64(s, off + 8) as u64,
        status: status_of(le_u32(s, off + 16)),
        corp_act: CorpAction::NoCorpAct,
        pub_slot: le_u64(s, off + 24) as u64,
    }
}

fn read_price_info(data: &[u8], off: usize) -> (r: PriceInfo)
    requires
        off + 32 <= data@.len(),
    ensures
        r == price_info_at(data@, off as int),
{
    proof {
        lemma_slice_len_bound(data);
    }
    PriceInfo {
        price: read_i64(data, off),
        conf: read_u64(data, off + 8),
        status: read_status(data, off + 16),
        corp_act: CorpAction::NoCorpAct,
        pub_slot: read_u64(data, off + 24),
    }
}

/// A publisher's latest price and the one it contributed to the last
/// aggregate.
#[derive(Clone, Copy, Debug)]
pub struct PriceComp {
    /// Key of the contributing publisher.
    pub publisher: AccKey,
    /// Price contributed to the last aggregate.
    pub agg: PriceInfo,
    /// Latest price, not yet in an aggregate.
    pub latest: PriceInfo,
}

impl PriceComp {
    /// This component holds the 96 bytes at `off`.
    pub open spec fn decoded_from(self, s: Seq<u8>, off: int) -> bool {
        &&& self.publisher.decoded_from(s, off)
        &&& self.agg == price_info_at(s, off + 32)
        &&& self.latest == price_info_at(s, off + 64)
    }
}

fn read_price_comp(data: &[u8], off: usize) -> (r: PriceComp)
    requires
        off + 96 <= data@.len(),
    ensures
        r.decoded_from(data@, off as int),
{
    proof {
        lemma_slice_len_bound(data);
    }
    PriceComp {
        publisher: read_key(data, off),
        agg: read_price_info(data, off + 32),
        latest: read_price_info(data, off + 64),
    }
}

/// State of an exponential moving average.
#[derive(Clone, Copy, Debug)]
pub struct Ema {
    /// Current value of the average.
    pub val: i64,
    /// Numerator state for the next update.
    pub numer: i64,
    /// Denominator state for the next update.
    pub denom: i64,
}

/// The moving average held in the 24 bytes at `off`.
pub open spec fn ema_at(s: Seq<u8>, off: int) -> Ema {
    Ema {
        val: le_i64(s, off) as i64,
        numer: le_i64(s, off + 8) as i64,
        denom: le_i64(s, off + 16) as i64,
    }
}

fn read_ema(data: &[u8], off: usize) -> (r: Ema)
    requires
        off + 24 <= data@.len(),
    ensures
        r == ema_at(data@, off as int),
{
    proof {
        lemma_slice_len_bound(data);
    }
    Ema { val: read_i64(data, off), numer: read_i64(data, off + 8), denom: read_i64(data, off + 16) }
}

/// A product account: its header, the key of its first price account and
/// an attribute region that is passed through untouched.
#[derive(Clone, Copy, Debug)]
pub struct Product {
    /// Magic number.
    pub magic: u32,
    /// Layout version.
    pub ver: u32,
    /// Account kind tag.
    pub atype: u32,
    /// Used size of the account.
    pub size: u32,
    /// First price account of the product.
    pub px_acc: AccKey,
    /// Key/value attribute bytes.
    pub attr: [u8; PROD_ATTR_SIZE],
}

impl Product {
    /// This product account holds the first `PROD_ACCT_SIZE` bytes of `s`.
    pub open spec fn decoded_from(self, s: Seq<u8>) -> bool {
        &&& self.magic == le_u32(s, 0)
        &&& self.ver == le_u32(s, 4)
        &&& self.atype == le_u32(s, 8)
        &&& self.size == le_u32(s, 12)
        &&& self.px_acc.decoded_from(s, 16)
        &&& self.attr@ == s.subrange(PROD_HDR_SIZE as int, PROD_ACCT_SIZE as int)
    }
}

/// Decode a product account from `data`.
///
/// Fails with `InvalidAccountData` when `data` is shorter than
/// `PROD_ACCT_SIZE` or its magic number is wrong, then with
/// `BadVersionNumber` on another version, then with `WrongAccountType` when
/// it is not a product account.
pub fn load_product(data: &[u8]) -> (r: Result<Product, PythError>)
    ensures
        r is Ok <==> spec_check_header(data@, PROD_ACCT_SIZE as int, AccountType::Product) is Ok,
        r matches Err(e) ==> spec_check_header(data@, PROD_ACCT_SIZE as int, AccountType::Product)
            == Err::<(), PythError>(e),
        r matches Ok(p) ==> p.decoded_from(data@),
{
    match check_header(data, PROD_ACCT_SIZE, AccountType::Product) {
        Ok(()) => {},
        Err(e) => return Err(e),
    }
    let mut attr = [0u8; PROD_ATTR_SIZE];
    let mut i: usize = 0;
    while i < PROD_ATTR_SIZE
        invariant
            i <= PROD_ATTR_SIZE,
            PROD_ACCT_SIZE <= data@.len(),
            forall|j: int| 0 <= j < i ==> attr@[j] == data@[PROD_HDR_SIZE + j],
        decreases PROD_ATTR_SIZE - i,
    {
        attr[i] = data[PROD_HDR_SIZE + i];
        i = i + 1;
    }
    let p = Product {
        magic: read_u32(data, 0),
        ver: read_u32(data, 4),
        atype: read_u32(data, 8),
        size: read_u32(data, 12),
        px_acc: read_key(data, 16),
        attr,
    };
    assert(p.attr@ =~= data@.subrange(PROD_HDR_SIZE as int, PROD_ACCT_SIZE as int));
    Ok(p)
}

/// A mapping account: its header, the number of products it lists, the key
/// of the next mapping account and a table of product keys.
#[derive(Clone, Copy, Debug)]
pub struct Mapping {
    /// Magic number.
    pub magic: u32,
    /// Layout version.
    pub ver: u32,
    /// Account kind tag.
    pub atype: u32,
    /// Used size of the account.
    pub size: u32,
    /// Number of product accounts listed.
    pub num: u32,
    pub unused: u32,
    /// Next mapping account, if any.
    pub next: AccKey,
    /// Product account keys.
    pub products: [AccKey; MAP_TABLE_SIZE],
}

impl Mapping {
    /// This mapping account holds the first `MAPPING_ACCT_SIZE` bytes of `s`.
    pub open spec fn decoded_from(self, s: Seq<u8>) -> bool {
        &&& self.magic == le_u32(s, 0)
        &&& self.ver == le_u32(s, 4)
        &&& self.atype == le_u32(s, 8)
        &&& self.size == le_u32(s, 12)
        &&& self.num == le_u32(s, 16)
        &&& self.unused == le_u32(s, 20)
        &&& self.next.decoded_from(s, 24)
        &&& forall|i: int|
            0 <= i < MAP_TABLE_SIZE ==> #[trigger] self.products@[i].decoded_from(
                s,
                MAPPING_PRODUCTS_OFFSET + i * KEY_SIZE,
            )
    }
}

/// Decode a mapping account from `data`.
///
/// Fails with `InvalidAccountData` when `data` is shorter than
/// `MAPPING_ACCT_SIZE` or its magic number is wrong, then with
/// `BadVersionNumber` on another version, then with `WrongAccountType` when
/// it is not a mapping account.
pub fn load_mapping(data: &[u8]) -> (r: Result<Mapping, PythError>)
    ensures
        r is Ok <==> spec_check_header(data@, MAPPING_ACCT_SIZE as int, AccountType::Mapping) is Ok,
        r matches Err(e) ==> spec_check_header(data@, MAPPING_ACCT_SIZE as int, AccountType::Mapping)
            == Err::<(), PythError>(e),
        r matches Ok(m) ==> m.decoded_from(data@),
{
    match check_header(data, MAPPING_ACCT_SIZE, AccountType::Mapping) {
        Ok(()) => {},
        Err(e) => return Err(e),
    }
    let mut products = [AccKey { val: [0u8; 32] }; MAP_TABLE_SIZE];
    let mut i: usize = 0;
    while i < MAP_TABLE_SIZE
        invariant
            i <= MAP_TABLE_SIZE,
            MAPPING_ACCT_SIZE <= data@.len(),
            forall|j: int|
                0 <= j < i ==> #[trigger] products@[j].decoded_from(
                    data@,
                    MAPPING_PRODUCTS_OFFSET + j * KEY_SIZE,
                ),
        decreases MAP_TABLE_SIZE - i,
    {
        products[i] = read_key(data, MAPPING_PRODUCTS_OFFSET + i * KEY_SIZE);
        i = i + 1;
    }
    Ok(
        Mapping {
            magic: read_u32(data, 0),
            ver: read_u32(data, 4),
            atype: read_u32(data, 8),
            size: read_u32(data, 12),
            num: read_u32(data, 16),
            unused: read_u32(data, 20),
            next: read_key(data, 24),
            products,
        },
    )
}

/// A price account: header, exponent, moving averages, the aggregate price
/// and one component per publisher.
#[derive(Clone, Copy, Debug)]
pub struct Price {
    /// Magic number.
    pub magic: u32,
    /// Layout version.
    pub ver: u32,
    /// Account kind tag.
    pub atype: u32,
    /// Used size of the account.
    pub size: u32,
    /// Price or calculation kind.
    pub ptype: PriceType,
    /// Decimal exponent of every price in the account.
    pub expo: i32,
    /// Number of component prices.
    pub num: u32,
    /// Number of quoters that make up the aggregate.
    pub num_qt: u32,
    /// Slot of the last valid (not unknown) aggregate price.
    pub last_slot: u64,
    /// Valid slot-time of the aggregate price.
    pub valid_slot: u64,
    /// Time-weighted average price.
    pub twap: Ema,
    /// Time-weighted average confidence interval.
    pub twac: Ema,
    /// Space for future derived values.
    pub drv1: i64,
    /// Space for future derived values.
    pub drv2: i64,
    /// Product account key.
    pub prod: AccKey,
    /// Next price account of the same product.
    pub next: AccKey,
    /// Valid slot of the previous update.
    pub prev_slot: u64,
    /// Aggregate price of the previous update.
    pub prev_price: i64,
    /// Confidence interval of the previous update.
    pub prev_conf: u64,
    /// Space for future derived values.
    pub drv3: i64,
    /// Aggregate price information.
    pub agg: PriceInfo,
    /// Price components, one per quoter.
    pub comp: [PriceComp; 32],
}

impl Price {
    /// This price account holds the first `PRICE_ACCT_SIZE` bytes of `s`.
    pub open spec fn decoded_from(self, s: Seq<u8>) -> bool {
        &&& self.magic == le_u32(s, 0)
        &&& self.ver == le_u32(s, 4)
        &&& self.atype == le_u32(s, 8)
        &&& self.size == le_u32(s, 12)
        &&& self.ptype == price_type_of(le_u32(s, 16))
        &&& self.expo == le_i32(s, 20)
        &&& self.num == le_u32(s, 24)
        &&& self.num_qt == le_u32(s, 28)
        &&& self.last_slot == le_u64(s, 32)
        &&& self.valid_slot == le_u64(s, 40)
        &&& self.twap == ema_at(s, 48)
        &&& self.twac == ema_at(s, 72)
        &&& self.drv1 == le_i64(s, 96)
        &&& self.drv2 == le_i64(s, 104)
        &&& self.prod.decoded_from(s, 112)
        &&& self.next.decoded_from(s, 144)
        &&& self.prev_slot == le_u64(s, 176)
        &&& self.prev_price == le_i64(s, 184)
        &&& self.prev_conf == le_u64(s, 192)
        &&& self.drv3 == le_i64(s, 200)
        &&& self.agg == price_info_at(s, PRICE_AGG_OFFSET as int)
        &&& forall|i: int|
            0 <= i < 32 ==> #[trigger] self.comp@[i].decoded_from(
                s,
                PRICE_COMP_OFFSET + i * COMP_SIZE,
            )
    }

    /// The result of `get_current_price`.
    pub open spec fn spec_current_price(self) -> Option<PriceConf> {
        if self.agg.status == PriceStatus::Trading {
            Some(PriceConf { price: self.agg.price, conf: self.agg.conf, expo: self.expo })
        } else {
            None
        }
    }

    /// The current aggregate price and confidence, with the account's
    /// exponent. `None` unless the aggregate status is `Trading`, whatever
    /// the stored numbers.
    pub fn get_current_price(&self) -> (r: Option<PriceConf>)
        ensures
            r == self.spec_current_price(),
            r is Some <==> self.agg.status == PriceStatus::Trading,
    {
        match self.agg.status {
            PriceStatus::Trading => Some(
                PriceConf { price: self.agg.price, conf: self.agg.conf, expo: self.expo },
            ),
            _ => None,
        }
    }

    /// The time-weighted average price, with the time-weighted average
    /// confidence as its confidence, in the account's exponent. Always
    /// available.
    ///
    /// The confidence here is computed in a somewhat questionable way: do
    /// not rely on it for high-value decisions.
    pub fn get_twap(&self) -> (r: Option<PriceConf>)
        ensures
            r == Some(PriceConf { price: self.twap.val, conf: self.twac.val as u64, expo: self.expo }),
    {
        // the average confidence is a non-negative number stored as i64
        Some(PriceConf { price: self.twap.val, conf: self.twac.val as u64, expo: self.expo })
    }

    /// The result of `get_price_in_quote(quote, result_expo)`.
    pub open spec fn spec_price_in_quote(self, quote: Price, result_expo: i32) -> Option<PriceConf> {
        match (self.spec_current_price(), quote.spec_current_price()) {
            (Some(b), Some(q)) => match b.spec_div(q) {
                Some(d) => d.spec_scale_to_exponent(result_expo),
                None => None,
            },
            _ => None,
        }
    }

    /// The current price of this account in the currency of `quote`: where
    /// this account prices X in Z and `quote` prices Y in Z, the price of X
    /// in Y, with exponent `result_expo`. `None` when either price is not
    /// current, when the division fails, or when the result cannot be
    /// represented with `result_expo`.
    pub fn get_price_in_quote(&self, quote: &Price, result_expo: i32) -> (r: Option<PriceConf>)
        ensures
            r == self.spec_price_in_quote(*quote, result_expo),
    {
        match (self.get_current_price(), quote.get_current_price()) {
            (Some(base_price_conf), Some(quote_price_conf)) => match base_price_conf.div(
                &quote_price_conf,
            ) {
                Some(d) => d.scale_to_exponent(result_expo),
                None => None,
            },
            (_, _) => None,
        }
    }

    /// The value of one basket entry `(price, qty, qty_expo)` in exponent
    /// `result_expo`: the current price times `qty * 10^qty_expo`, scaled.
    pub open spec fn spec_basket_term(entry: (Price, i64, i32), result_expo: i32) -> Option<PriceConf> {
        match entry.0.spec_current_price() {
            Some(p) => match p.spec_mul(PriceConf { price: entry.1, conf: 0, expo: entry.2 }) {
                Some(m) => m.spec_scale_to_exponent(result_expo),
                None => None,
            },
            None => None,
        }
    }

    /// The sum of the first `n` basket entries, starting from zero in
    /// exponent `result_expo`; `None` when any term or sum fails.
    pub open spec fn spec_basket(amounts: Seq<(Price, i64, i32)>, n: nat, result_expo: i32) -> Option<PriceConf>
        decreases n,
    {
        if n == 0 {
            Some(PriceConf { price: 0, conf: 0, expo: result_expo })
        } else {
            match (
                Price::spec_basket(amounts, (n - 1) as nat, result_expo),
                Price::spec_basket_term(amounts[n - 1], result_expo),
            ) {
                (Some(acc), Some(t)) => acc.spec_add(t),
                _ => None,
            }
        }
    }

    /// The value of a basket: each entry `(price, qty, qty_expo)` adds its
    /// current price times `qty * 10^qty_expo`, and the result has exponent
    /// `result_expo`. `None` when any price is not current or any step
    /// fails. The basket must not be empty.
    pub fn price_basket(amounts: &[(Price, i64, i32)], result_expo: i32) -> (r: Option<PriceConf>)
        requires
            amounts@.len() > 0,
        ensures
            r == Price::spec_basket(amounts@, amounts@.len(), result_expo),
    {
        let mut res = PriceConf { price: 0, conf: 0, expo: result_expo };
        let mut i: usize = 0;
        while i < amounts.len()
            invariant
                i <= amounts@.len(),
                Price::spec_basket(amounts@, i as nat, result_expo) == Some(res),
            decreases amounts@.len() - i,
        {
            let entry = &amounts[i];
            let term = match entry.0.get_current_price() {
                Some(p) => match p.cmul(entry.1, entry.2) {
                    Some(m) => m.scale_to_exponent(result_expo),
                    None => None,
                },
                None => None,
            };
            let t = match term {
                Some(t) => t,
                None => {
                    proof {
                        lemma_basket_none_persists(amounts@, (i + 1) as nat, amounts@.len(), result_expo);
                    }
                    return None;
                },
            };
            res = match res.add(&t) {
                Some(s) => s,
                None => {
                    proof {
                        lemma_basket_none_persists(amounts@, (i + 1) as nat, amounts@.len(), result_expo);
                    }
                    return None;
                },
            };
            i = i + 1;
        }
        Some(res)
    }
}

/// Decode a price account from `data`.
///
/// Fails with `InvalidAccountData` when `data` is shorter than
/// `PRICE_ACCT_SIZE` or its magic number is wrong, then with
/// `BadVersionNumber` on another version, then with `WrongAccountType` when
/// it is not a price account.
pub fn load_price(data: &[u8]) -> (r: Result<Price, PythError>)
    ensures
        r is Ok <==> spec_check_header(data@, PRICE_ACCT_SIZE as int, AccountType::Price) is Ok,
        r matches Err(e) ==> spec_check_header(data@, PRICE_ACCT_SIZE as int, AccountType::Price)
            == Err::<(), PythError>(e),
        r matches Ok(p) ==> p.decoded_from(data@),
{
    match check_header(data, PRICE_ACCT_SIZE, AccountType::Price) {
        Ok(()) => {},
        Err(e) => return Err(e),
    }
    let empty = PriceInfo {
        price: 0,
        conf: 0,
        status: PriceStatus::Unknown,
        corp_act: CorpAction::NoCorpAct,
        pub_slot: 0,
    };
    let mut comp = [PriceComp { publisher: AccKey { val: [0u8; 32] }, agg: empty, latest: empty }; 32];
    let mut i: usize = 0;
    while i < 32
        invariant
            i <= 32,
            PRICE_ACCT_SIZE <= data@.len(),
            forall|j: int|
                0 <= j < i ==> #[trigger] comp@[j].decoded_from(data@, PRICE_COMP_OFFSET + j * COMP_SIZE),
        decreases 32 - i,
    {
        comp[i] = read_price_comp(data, PRICE_COMP_OFFSET + i * COMP_SIZE);
        i = i + 1;
    }
    Ok(
        Price {
            magic: read_u32(data, 0),
            ver: read_u32(data, 4),
            atype: read_u32(data, 8),
            size: read_u32(data, 12),
            ptype: read_price_type(data, 16),
            expo: read_i32(data, 20),
            num: read_u32(data, 24),
            num_qt: read_u32(data, 28),
            last_slot: read_u64(data, 32),
            valid_slot: read_u64(data, 40),
            twap: read_ema(data, 48),
            twac: read_ema(data, 72),
            drv1: read_i64(data, 96),
            drv2: read_i64(data, 104),
            prod: read_key(data, 112),
            next: read_key(data, 144),
            prev_slot: read_u64(data, 176),
            prev_price: read_i64(data, 184),
            prev_conf: read_u64(data, 192),
            drv3: read_i64(data, 200),
            agg: read_price_info(data, PRICE_AGG_OFFSET),
            comp,
        },
    )
}

/// Once a basket prefix has no value, no longer prefix has one.
proof fn lemma_basket_none_persists(amounts: Seq<(Price, i64, i32)>, i: nat, n: nat, result_expo: i32)
    requires
        i <= n,
        Price::spec_basket(amounts, i, result_expo) is None,
    ensures
        Price::spec_basket(amounts, n, result_expo) is None,
    decreases n - i,
{
    if i < n {
        lemma_basket_none_persists(amounts, i + 1, n, result_expo);
    }
}

} // verus!
