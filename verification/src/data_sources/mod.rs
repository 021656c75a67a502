//! Market data: mutual-fund NAV histories and the exchange's daily bhavcopy.

pub mod mf_api;
pub mod nse_bhav;
