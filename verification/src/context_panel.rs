//! The context breakdown behind the ring under the composer: which backend
//! a session's provider runs on, and how many tokens a relaying command-line
//! backend adds on its own.
use vstd::prelude::*;

verus! {

/// The kind of provider a session uses.
#[derive(PartialEq, Eq, Structural, Clone, Copy, Debug)]
pub enum ProviderKind {
    ClaudeCode,
    Codex,
    Antigravity,
    Cline,
    /// Any provider the daemon speaks to itself.
    Native,
}

/// What the breakdown reports beside the categories the agent counted.
pub struct ContextSummary {
    /// The context window, when known.
    pub window: Option<u64>,
    /// Whether the window is an assumed default rather than a known size.
    pub window_assumed: bool,
    /// `claude_code`, `codex`, `antigravity`, `cline` or `native`.
    pub backend: &'static str,
    /// For a relaying backend, the measured tokens minus the estimate: the
    /// backend's own prompt and tools (negative after the backend rebuilt
    /// its session).
    pub cli_overhead_tokens: Option<i64>,
}

/// The backend name of a provider; `native` when the provider could not be
/// resolved.
pub open spec fn backend_name(provider: Option<ProviderKind>) -> Seq<char> {
    match provider {
        Some(ProviderKind::ClaudeCode) => "claude_code"@,
        Some(ProviderKind::Codex) => "codex"@,
        Some(ProviderKind::Antigravity) => "antigravity"@,
        Some(ProviderKind::Cline) => "cline"@,
        _ => "native"@,
    }
}

/// The summary of a session's context breakdown: the window (with whether
/// it is assumed), the backend, and for a relaying backend with a measured
/// count the measured tokens minus the estimate.
pub fn context_breakdown_for(
    provider: Option<ProviderKind>,
    window: Option<(u64, bool)>,
    measured_tokens: Option<u64>,
    estimate_tokens: u64,
) -> (r: ContextSummary)
    requires
        estimate_tokens <= i64::MAX,
        measured_tokens matches Some(m) ==> m <= i64::MAX,
    ensures
        r.window == (match window {
            Some(w) => Some(w.0),
            None => None,
        }),
        r.window_assumed == (window matches Some(w) && w.1),
        r.backend@ == backend_name(provider),
        r.cli_overhead_tokens == (if backend_name(provider) != "native"@ && measured_tokens is Some {
            Some((measured_tokens.unwrap() - estimate_tokens) as i64)
        } else {
            None
        }),
{
    proof {
        reveal_strlit("claude_code");
        reveal_strlit("codex");
        reveal_strlit("antigravity");
        reveal_strlit("cline");
        reveal_strlit("native");
        assert("claude_code"@.len() != "native"@.len());
        assert("codex"@.len() != "native"@.len());
        assert("antigravity"@.len() != "native"@.len());
        assert("cline"@.len() != "native"@.len());
    }
    let backend: &'static str = match provider {
        Some(ProviderKind::ClaudeCode) => "claude_code",
        Some(ProviderKind::Codex) => "codex",
        Some(ProviderKind::Antigravity) => "antigravity",
        Some(ProviderKind::Cline) => "cline",
        _ => "native",
    };
    let native = match provider {
        Some(ProviderKind::ClaudeCode) | Some(ProviderKind::Codex) | Some(ProviderKind::Antigravity) | Some(
            ProviderKind::Cline,
        ) => false,
        _ => true,
    };
    let cli_overhead_tokens = if !native {
        match measured_tokens {
            Some(m) => {
                let d: i64 = (m as i64) - (estimate_tokens as i64);
                assert(d == m - estimate_tokens);
                Some(d)
            },
            None => None,
        }
    } else {
        None
    };
    let (w, assumed) = match window {
        Some(w) => (Some(w.0), w.1),
        None => (None, false),
    };
    ContextSummary { window: w, window_assumed: assumed, backend, cli_overhead_tokens }
}

} // verus!
