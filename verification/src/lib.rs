pub mod arch;
pub mod arithmetic;
pub mod binary64;
pub mod constants;
pub mod decimal;
pub mod json;
pub mod natural;
pub mod notation;
pub mod ordering;
pub mod rounding;
pub mod text;
