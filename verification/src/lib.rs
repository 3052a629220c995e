//! Turns the HTML report pages of a static-analysis run into flat records.
//!
//! A report is one summary page and one detail page for each analysed source
//! file. [`links`] finds the detail pages that the summary page refers to,
//! [`findings`] reads the findings table of a detail page, and [`pipeline`]
//! decides, step by step, how a whole run proceeds; [`runs`] states what holds
//! of every run. Reading files and writing the output is left to the caller.
//!
//! The HTML itself is parsed by the `scraper` crate, behind the functions of
//! [`html`], whose contracts are assumed and not proved. Everything else is
//! verified against the contracts that it states.

pub mod findings;
pub mod html;
pub mod links;
pub mod paths;
pub mod pipeline;
pub mod runs;
pub mod text;
