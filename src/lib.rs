// Descriptive statistics over daily closing prices and their CSV report.
// Prices are held in hundredths of a currency unit; times in seconds since
// the Unix epoch (UTC).
pub mod csv;
pub mod input;
pub mod oracle;
pub mod render;
pub mod stats;
pub mod text;
