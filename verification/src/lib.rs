//! Amounts of money in English words, on the international scale (thousand,
//! million, billion) or the Indian one (thousand, lakh, crore, arab, kharab).

pub mod constants;
pub mod currency;
pub mod error;
pub mod indian_money_system;
pub mod number;
pub mod scale;
pub mod text;
pub mod util;

pub use crate::currency::{format_with_currency_in_words, Amount};
pub use crate::error::WordsError;
pub use crate::number::format_number_to_word;
pub use crate::scale::NumberScale;
