//! The official OpenAI pages the app links to.
use vstd::prelude::*;

verus! {

broadcast use vstd::string::group_string_axioms;

#[derive(Debug, Clone, Copy)]
pub struct OfficialLinks {
    pub usage_dashboard: &'static str,
    pub codex_help: &'static str,
    pub flexible_credits_help: &'static str,
}

pub const USAGE_DASHBOARD_URL: &'static str = "https://chatgpt.com/codex/settings/usage";

pub const CODEX_HELP_URL: &'static str =
    "https://help.openai.com/en/articles/11369540-using-codex-with-your-chatgpt-plan";

pub const FLEXIBLE_CREDITS_HELP_URL: &'static str =
    "https://help.openai.com/en/articles/12642688-using-credits-for-flexible-usage-in-chatgpt-freegopluspro";

pub fn official_links() -> (r: OfficialLinks)
    ensures
        r.usage_dashboard@ == USAGE_DASHBOARD_URL@,
        r.codex_help@ == CODEX_HELP_URL@,
        r.flexible_credits_help@ == FLEXIBLE_CREDITS_HELP_URL@,
{
    OfficialLinks {
        usage_dashboard: USAGE_DASHBOARD_URL,
        codex_help: CODEX_HELP_URL,
        flexible_credits_help: FLEXIBLE_CREDITS_HELP_URL,
    }
}

} // verus!
