//! Billing reconciliation for half-hourly energy consumption.
//!
//! Given a customer's consumption readings and a tariff's price schedule
//! (unit rates and standing charges, each valid over a window of time), the
//! library computes what the consumption cost, and reports when the schedule
//! does not cover every reading. Around that core it holds what a comparison
//! of tariffs decides on the way: where each request to the provider goes,
//! which agreement is in force, which meter point is billed.
//!
//! Every executable function carries a contract that Verus proves. Contracts
//! are stated over mathematical views: an instant is an `int` number of
//! seconds, an index of rate periods is a `Seq` of period views.
//!
//! Amounts are integers. A price is a whole number of price units and a
//! quantity a whole number of quantity units, both of the caller's choosing
//! (ten-thousandths of a penny and watt-hours, say); a standing cost is then
//! in price units and a unit cost in price units times quantity units. No
//! total can overflow.
//!
//! - [`time`]: instants and calendar days.
//! - [`reading`]: consumption readings.
//! - [`rate`]: rate periods and the index searched for the period in force.
//! - [`billing`]: the cost of a run of readings.
//! - [`laws`]: what holds of every index, run of readings and summary.
//! - [`order`]: records that arrive newest first.
//! - [`records`]: the provider's records, and the bill they come to.
//! - [`account`]: agreements, meter points and occupancy.
//! - [`api`]: requests to the provider.
//! - [`comparison`]: the course of a tariff comparison.

pub mod account;
pub mod api;
pub mod billing;
pub mod comparison;
pub mod laws;
pub mod order;
pub mod rate;
pub mod reading;
pub mod records;
pub mod time;
