//! Instructions of the on-chain test program, and what each one does.
use vstd::prelude::*;

use crate::account::{
    load_price,
    price_info_at,
    spec_check_header,
    AccountType,
    PriceStatus,
    PRICE_ACCT_SIZE,
    PRICE_AGG_OFFSET,
};
use crate::error::PythError;
use crate::price_conf::PriceConf;

verus! {

/// Instructions of the test program, used to measure the cost of each
/// operation on chain.
#[derive(Clone, Debug, PartialEq)]
pub enum PythClientInstruction {
    Divide { numerator: PriceConf, denominator: PriceConf },
    Multiply { x: PriceConf, y: PriceConf },
    Add { x: PriceConf, y: PriceConf },
    ScaleToExponent { x: PriceConf, expo: i32 },
    Normalize { x: PriceConf },
    /// Does nothing, for comparison.
    Noop,
    /// Succeeds when the aggregate status of the price account held in
    /// `price_account_data` is `expected_price_status`.
    PriceStatusCheck { price_account_data: Vec<u8>, expected_price_status: PriceStatus },
}

/// Why an instruction failed.
#[derive(Clone, Copy, Debug, PartialEq, Eq, Structural)]
pub enum ProcessError {
    /// The price account could not be decoded.
    Account(PythError),
    /// The price account's aggregate status is not the expected one.
    UnexpectedStatus,
}

/// The outcome of a status check on the price account held in `s`.
pub open spec fn spec_status_check(s: Seq<u8>, expected: PriceStatus) -> Result<(), ProcessError> {
    match spec_check_header(s, PRICE_ACCT_SIZE as int, AccountType::Price) {
        Err(e) => Err(ProcessError::Account(e)),
        Ok(_) => if price_info_at(s, PRICE_AGG_OFFSET as int).status == expected {
            Ok(())
        } else {
            Err(ProcessError::UnexpectedStatus)
        },
    }
}

impl PythClientInstruction {
    /// Carry out this instruction. The arithmetic instructions compute their
    /// result and drop it, and always succeed, as does `Noop`. A status check
    /// fails with the decoding error when the account cannot be decoded, and
    /// with `UnexpectedStatus` when its aggregate status differs from the
    /// expected one.
    pub fn execute(&self) -> (r: Result<(), ProcessError>)
        ensures
            match self {
                PythClientInstruction::PriceStatusCheck {
                    price_account_data,
                    expected_price_status,
                } => r == spec_status_check(price_account_data@, *expected_price_status),
                _ => r is Ok,
            },
    {
        match self {
            PythClientInstruction::Divide { numerator, denominator } => {
                let _ = numerator.div(denominator);
                Ok(())
            },
            PythClientInstruction::Multiply { x, y } => {
                let _ = x.mul(y);
                Ok(())
            },
            PythClientInstruction::Add { x, y } => {
                let _ = x.add(y);
                Ok(())
            },
            PythClientInstruction::ScaleToExponent { x, expo } => {
                let _ = x.scale_to_exponent(*expo);
                Ok(())
            },
            PythClientInstruction::Normalize { x } => {
                let _ = x.normalize();
                Ok(())
            },
            PythClientInstruction::Noop => Ok(()),
            PythClientInstruction::PriceStatusCheck { price_account_data, expected_price_status } => {
                let price = match load_price(price_account_data.as_slice()) {
                    Ok(p) => p,
                    Err(e) => return Err(ProcessError::Account(e)),
                };
                if price.agg.status == *expected_price_status {
                    Ok(())
                } else {
                    Err(ProcessError::UnexpectedStatus)
                }
            },
        }
    }
}

} // verus!
