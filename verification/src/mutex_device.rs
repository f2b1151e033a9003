use vstd::prelude::*;

verus! {

/// The error of a transaction on a shared SPI bus: from the bus, or from
/// the chip-select pin.
#[derive(Debug, PartialEq, Eq)]
pub enum TransactionError<S, C> {
    /// The bus failed.
    Spi(S),
    /// Setting the chip-select pin failed.
    Cs(C),
}

/// The result of a transaction from the results of its three stages, which
/// all run even after one fails: the operations, the final flush of the
/// bus, and raising chip-select. The first failure in that order is
/// reported.
pub fn transaction_result<S, C>(ops: Result<(), S>, flush: Result<(), S>, cs: Result<(), C>) -> (r: Result<(), TransactionError<S, C>>)
    ensures
        r == match ops {
            Err(e) => Err(TransactionError::Spi(e)),
            Ok(()) => match flush {
                Err(e) => Err(TransactionError::Spi(e)),
                Ok(()) => match cs {
                    Err(e) => Err(TransactionError::Cs(e)),
                    Ok(()) => Ok(()),
                },
            },
        },
{
    match ops {
        Err(e) => Err(TransactionError::Spi(e)),
        Ok(()) => match flush {
            Err(e) => Err(TransactionError::Spi(e)),
            Ok(()) => match cs {
                Err(e) => Err(TransactionError::Cs(e)),
                Ok(()) => Ok(()),
            },
        },
    }
}

} // verus!
