//! Server configuration: the tunables of the rate limiter and the settings
//! that decide whether requests must authenticate.

use crate::text::{chars_of, trim, trimmed};
use vstd::prelude::*;

verus! {

/// A path on the file system; carried through, never inspected.
#[verifier::external_type_specification]
#[verifier::external_body]
pub struct ExPathBuf(std::path::PathBuf);

#[derive(Debug)]
pub struct Config {
    pub port: u16,
    pub db_url: String,
    pub token: Option<String>,
    pub log_level: String,
    pub storage_dir: std::path::PathBuf,
    pub max_file_size: u64,
    pub rate_limits: RateLimitConfig,
}

/// Refill rate and burst per scope, the two ceilings on live streams, and the
/// largest request body accepted.
#[derive(Clone, Copy, Debug)]
pub struct RateLimitConfig {
    pub read_per_min: u32,
    pub read_burst: u32,
    pub write_per_min: u32,
    pub write_burst: u32,
    pub attachment_per_min: u32,
    pub attachment_burst: u32,
    pub webhook_test_per_min: u32,
    pub webhook_test_burst: u32,
    pub mcp_per_min: u32,
    pub mcp_burst: u32,
    pub sse_connect_per_min: u32,
    pub sse_connect_burst: u32,
    pub sse_max_per_identity: u32,
    pub sse_max_global: u32,
    pub max_request_body_bytes: usize,
}

impl RateLimitConfig {
    /// The tunables a server starts with when none is overridden.
    pub open spec fn defaults() -> RateLimitConfig {
        RateLimitConfig {
            read_per_min: 240,
            read_burst: 60,
            write_per_min: 120,
            write_burst: 30,
            attachment_per_min: 30,
            attachment_burst: 10,
            webhook_test_per_min: 20,
            webhook_test_burst: 5,
            mcp_per_min: 80,
            mcp_burst: 20,
            sse_connect_per_min: 40,
            sse_connect_burst: 10,
            sse_max_per_identity: 10,
            sse_max_global: 400,
            max_request_body_bytes: 12582912,
        }
    }

    /// The name of the first tunable that is zero, in declaration order.
    pub open spec fn first_zero(self) -> Option<Seq<char>> {
        if self.read_per_min == 0 {
            Some("LATTICE_RATE_LIMIT_READ_PER_MIN"@)
        } else if self.read_burst == 0 {
            Some("LATTICE_RATE_LIMIT_READ_BURST"@)
        } else if self.write_per_min == 0 {
            Some("LATTICE_RATE_LIMIT_WRITE_PER_MIN"@)
        } else if self.write_burst == 0 {
            Some("LATTICE_RATE_LIMIT_WRITE_BURST"@)
        } else if self.attachment_per_min == 0 {
            Some("LATTICE_RATE_LIMIT_ATTACHMENT_PER_MIN"@)
        } else if self.attachment_burst == 0 {
            Some("LATTICE_RATE_LIMIT_ATTACHMENT_BURST"@)
        } else if self.webhook_test_per_min == 0 {
            Some("LATTICE_RATE_LIMIT_WEBHOOK_TEST_PER_MIN"@)
        } else if self.webhook_test_burst == 0 {
            Some("LATTICE_RATE_LIMIT_WEBHOOK_TEST_BURST"@)
        } else if self.mcp_per_min == 0 {
            Some("LATTICE_RATE_LIMIT_MCP_PER_MIN"@)
        } else if self.mcp_burst == 0 {
            Some("LATTICE_RATE_LIMIT_MCP_BURST"@)
        } else if self.sse_connect_per_min == 0 {
            Some("LATTICE_RATE_LIMIT_SSE_CONNECT_PER_MIN"@)
        } else if self.sse_connect_burst == 0 {
            Some("LATTICE_RATE_LIMIT_SSE_CONNECT_BURST"@)
        } else if self.sse_max_per_identity == 0 {
            Some("LATTICE_RATE_LIMIT_SSE_MAX_PER_IDENTITY"@)
        } else if self.sse_max_global == 0 {
            Some("LATTICE_RATE_LIMIT_SSE_MAX_GLOBAL"@)
        } else if self.max_request_body_bytes == 0 {
            Some("LATTICE_MAX_REQUEST_BODY_BYTES"@)
        } else {
            None
        }
    }

    /// Every tunable is greater than zero.
    pub open spec fn all_positive(self) -> bool {
        self.first_zero() is None
    }

    /// The name of the first tunable that is zero, in declaration order, where one
    /// is. A server is not started with such a configuration.
    pub fn first_zero_key(&self) -> (key: Option<&'static str>)
        ensures
            match key {
                Some(name) => self.first_zero() == Some(name@),
                None => self.first_zero() is None,
            },
    {
        if self.read_per_min == 0 {
            Some("LATTICE_RATE_LIMIT_READ_PER_MIN")
        } else if self.read_burst == 0 {
            Some("LATTICE_RATE_LIMIT_READ_BURST")
        } else if self.write_per_min == 0 {
            Some("LATTICE_RATE_LIMIT_WRITE_PER_MIN")
        } else if self.write_burst == 0 {
            Some("LATTICE_RATE_LIMIT_WRITE_BURST")
        } else if self.attachment_per_min == 0 {
            Some("LATTICE_RATE_LIMIT_ATTACHMENT_PER_MIN")
        } else if self.attachment_burst == 0 {
            Some("LATTICE_RATE_LIMIT_ATTACHMENT_BURST")
        } else if self.webhook_test_per_min == 0 {
            Some("LATTICE_RATE_LIMIT_WEBHOOK_TEST_PER_MIN")
        } else if self.webhook_test_burst == 0 {
            Some("LATTICE_RATE_LIMIT_WEBHOOK_TEST_BURST")
        } else if self.mcp_per_min == 0 {
            Some("LATTICE_RATE_LIMIT_MCP_PER_MIN")
        } else if self.mcp_burst == 0 {
            Some("LATTICE_RATE_LIMIT_MCP_BURST")
        } else if self.sse_connect_per_min == 0 {
            Some("LATTICE_RATE_LIMIT_SSE_CONNECT_PER_MIN")
        } else if self.sse_connect_burst == 0 {
            Some("LATTICE_RATE_LIMIT_SSE_CONNECT_BURST")
        } else if self.sse_max_per_identity == 0 {
            Some("LATTICE_RATE_LIMIT_SSE_MAX_PER_IDENTITY")
        } else if self.sse_max_global == 0 {
            Some("LATTICE_RATE_LIMIT_SSE_MAX_GLOBAL")
        } else if self.max_request_body_bytes == 0 {
            Some("LATTICE_MAX_REQUEST_BODY_BYTES")
        } else {
            None
        }
    }
}

impl Default for RateLimitConfig {
    fn default() -> (settings: Self)
        ensures
            settings == RateLimitConfig::defaults(),
    {
        RateLimitConfig {
            read_per_min: 240,
            read_burst: 60,
            write_per_min: 120,
            write_burst: 30,
            attachment_per_min: 30,
            attachment_burst: 10,
            webhook_test_per_min: 20,
            webhook_test_burst: 5,
            mcp_per_min: 80,
            mcp_burst: 20,
            sse_connect_per_min: 40,
            sse_connect_burst: 10,
            sse_max_per_identity: 10,
            sse_max_global: 400,
            max_request_body_bytes: 12 * 1024 * 1024,
        }
    }
}

/// Takes the tunable `key`, which has to be greater than zero.
pub fn assert_non_zero_u32(key: &'static str, value: u32)
    requires
        value > 0,
{
    let _ = key;
    let _ = value;
}

/// Takes the tunable `key`, which has to be greater than zero.
pub fn assert_non_zero_usize(key: &'static str, value: usize)
    requires
        value > 0,
{
    let _ = key;
    let _ = value;
}

impl Config {
    /// A token is configured and is more than whitespace.
    pub open spec fn spec_auth_enabled(&self) -> bool {
        match self.token {
            Some(token) => trim(token@).len() > 0,
            None => false,
        }
    }

    /// Whether requests must carry the configured bearer token.
    pub fn auth_enabled(&self) -> (enabled: bool)
        ensures
            enabled == self.spec_auth_enabled(),
    {
        match &self.token {
            Some(token) => {
                let chars = chars_of(token.as_str());
                trimmed(chars.as_slice()).len() > 0
            },
            None => false,
        }
    }

    /// What an operator is warned of when the server starts: nothing where requests
    /// authenticate, else that everyone is let in, and that clients are then told
    /// apart by the address that a proxy reports.
    pub fn startup_warnings(&self) -> (warnings: Vec<&'static str>)
        ensures
            self.spec_auth_enabled() ==> warnings@.len() == 0,
            !self.spec_auth_enabled() ==> warnings@.len() == 2 && warnings@[0]@
                == "LATTICE_TOKEN is unset, auth is disabled and all requests are allowed"@
                && warnings@[1]@
                == "no-auth mode enabled, rate limiting identity falls back to forwarded client IP headers"@,
    {
        let mut warnings: Vec<&'static str> = Vec::new();
        if !self.auth_enabled() {
            warnings.push("LATTICE_TOKEN is unset, auth is disabled and all requests are allowed");
            warnings.push(
                "no-auth mode enabled, rate limiting identity falls back to forwarded client IP headers",
            );
        }
        warnings
    }

    /// Takes a configuration whose tunables are all greater than zero. One with a
    /// zero tunable is not to be passed: [`RateLimitConfig::first_zero_key`] tells
    /// which configurations those are, and names the tunable.
    pub fn validate(&self)
        requires
            self.rate_limits.all_positive(),
    {
        let limits = &self.rate_limits;
        assert_non_zero_u32("LATTICE_RATE_LIMIT_READ_PER_MIN", limits.read_per_min);
        assert_non_zero_u32("LATTICE_RATE_LIMIT_READ_BURST", limits.read_burst);
        assert_non_zero_u32("LATTICE_RATE_LIMIT_WRITE_PER_MIN", limits.write_per_min);
        assert_non_zero_u32("LATTICE_RATE_LIMIT_WRITE_BURST", limits.write_burst);
        assert_non_zero_u32("LATTICE_RATE_LIMIT_ATTACHMENT_PER_MIN", limits.attachment_per_min);
        assert_non_zero_u32("LATTICE_RATE_LIMIT_ATTACHMENT_BURST", limits.attachment_burst);
        assert_non_zero_u32("LATTICE_RATE_LIMIT_WEBHOOK_TEST_PER_MIN", limits.webhook_test_per_min);
        assert_non_zero_u32("LATTICE_RATE_LIMIT_WEBHOOK_TEST_BURST", limits.webhook_test_burst);
        assert_non_zero_u32("LATTICE_RATE_LIMIT_MCP_PER_MIN", limits.mcp_per_min);
        assert_non_zero_u32("LATTICE_RATE_LIMIT_MCP_BURST", limits.mcp_burst);
        assert_non_zero_u32("LATTICE_RATE_LIMIT_SSE_CONNECT_PER_MIN", limits.sse_connect_per_min);
        assert_non_zero_u32("LATTICE_RATE_LIMIT_SSE_CONNECT_BURST", limits.sse_connect_burst);
        assert_non_zero_u32("LATTICE_RATE_LIMIT_SSE_MAX_PER_IDENTITY", limits.sse_max_per_identity);
        assert_non_zero_u32("LATTICE_RATE_LIMIT_SSE_MAX_GLOBAL", limits.sse_max_global);
        assert_non_zero_usize("LATTICE_MAX_REQUEST_BODY_BYTES", limits.max_request_body_bytes);
    }
}

} // verus!
