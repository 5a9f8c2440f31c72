pub mod text;
pub mod json;
pub mod token;
pub mod str_map;
pub mod clock;
pub mod analytics;
pub mod usage;
pub mod tray;
pub mod cache;
pub mod totals;
pub mod window;

pub use analytics::{AnalyticsData, TokenStats};
pub use clock::now_unix_ms;
pub use token::extract_access_token;
pub use usage::{FallbackInfo, LimitInfo, UsageData};

