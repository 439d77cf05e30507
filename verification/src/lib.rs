//! Per-user aggregation of programming-language usage and star counts over a
//! set of analysed repositories.

pub mod aggregate;
pub mod analyze;
pub mod client;
pub mod collect;
pub mod model;
pub mod rank;
pub mod shares;
pub mod sums;
pub mod text;
pub mod totals;
