//! Decoding of oracle price accounts and fixed-point price arithmetic with
//! uncertainty, using integers only.
pub mod account;
pub mod error;
pub mod instruction;
pub mod price_conf;

pub use account::{
    AccKey,
    AccountType,
    CorpAction,
    Ema,
    Mapping,
    PriceComp,
    PriceInfo,
    PriceStatus,
    PriceType,
    Product,
    Price,
    load_mapping,
    load_price,
    load_product,
    MAGIC,
    MAP_TABLE_SIZE,
    PROD_ACCT_SIZE,
    PROD_ATTR_SIZE,
    PROD_HDR_SIZE,
    VERSION,
    VERSION_2,
};
pub use error::PythError;
pub use price_conf::PriceConf;
