//! Values that a deployment fixes once.

use vstd::prelude::*;

verus! {

/// Base of the links to the pages of the observances.
pub const NATIONAL_DAY_BASE_URL: &'static str = "https://www.nationaldaycalendar.com";

/// Base of the chat service's API.
pub const DISCORD_API_URL: &'static str = "https://discord.com/api/v10";

/// Location of the fact store.
pub const DB_PATH: &'static str = "days.db";

/// Channel that receives the daily message.
pub const CHANNEL_ID: u64 = 1218191951237742612;

/// Largest payload, in bytes, that the chat transport accepts.
pub const DISCORD_MAX_MESSAGE_LEN: usize = 2000;

/// Endpoint of the text service.
pub const ANTHROPIC_API_URL: &'static str = "https://api.anthropic.com/v1/messages";

/// Bound on the length of the narrative, in tokens of the text service.
pub const MAX_OUTPUT_TOKENS: u64 = 1000;

} // verus!
