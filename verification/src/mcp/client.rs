//! The MCP client's side: what a tool result says in text, and how the
//! server process to talk to is described.
use vstd::prelude::*;

use crate::mcp::server::{str_views, strings_of};
use crate::orchestrator::memory::string_views;
use crate::text::{chars_eq_str, chars_of, join, join_chars, string_from_chars, views};

verus! {

/// One item of a tool result's content, as the client reads it: its `type`
/// and its `text`, each when it is a string.
#[derive(Debug, Clone)]
pub struct McpContent {
    pub kind: Option<String>,
    pub text: Option<String>,
}

/// Result from calling an MCP tool.
#[derive(Debug, Clone)]
pub struct McpToolResult {
    pub content: Vec<McpContent>,
    pub is_error: bool,
}

/// The texts of the `text` items, in order.
pub open spec fn text_items(cs: Seq<McpContent>) -> Seq<Seq<char>>
    decreases cs.len(),
{
    if cs.len() == 0 {
        seq![]
    } else {
        let before = text_items(cs.drop_last());
        let c = cs.last();
        match (c.kind, c.text) {
            (Some(k), Some(t)) => if k@ == "text"@ {
                before.push(t@)
            } else {
                before
            },
            _ => before,
        }
    }
}

impl McpToolResult {
    /// The text of the result: its `text` items joined by newlines.
    pub fn text(&self) -> (r: String)
        ensures
            r@ == join(text_items(self.content@), "\n"@),
    {
        let mut parts: Vec<Vec<char>> = Vec::new();
        let mut k: usize = 0;
        while k < self.content.len()
            invariant
                k <= self.content@.len(),
                views(parts@) == text_items(self.content@.take(k as int)),
            decreases self.content.len() - k,
        {
            proof {
                assert(self.content@.take(k + 1).drop_last() =~= self.content@.take(k as int));
            }
            let c = &self.content[k];
            match (&c.kind, &c.text) {
                (Some(kind), Some(t)) => {
                    if chars_eq_str(chars_of(kind.as_str()).as_slice(), "text") {
                        let tv = chars_of(t.as_str());
                        proof {
                            assert(views(parts@.push(tv)) =~= views(parts@).push(tv@));
                        }
                        parts.push(tv);
                    }
                },
                _ => {},
            }
            k = k + 1;
        }
        proof {
            assert(self.content@.take(k as int) =~= self.content@);
        }
        string_from_chars(&join_chars(&parts, &chars_of("\n")))
    }
}

/// How to start and talk to an MCP server process: its command line, extra
/// environment variables, the request timeout in milliseconds, and the id of
/// the last request sent.
#[derive(Debug, Clone)]
pub struct StdioMcpClient {
    pub cmd: Vec<String>,
    pub env: Vec<(String, String)>,
    pub timeout_ms: u64,
    pub request_id: u64,
}

impl StdioMcpClient {
    /// A client for `cmd`, with no extra environment and a 30 s timeout.
    pub fn new(cmd: &[&str]) -> (r: Self)
        ensures
            string_views(r.cmd@) == str_views(cmd@),
            r.env@.len() == 0,
            r.timeout_ms == 30_000,
            r.request_id == 0,
    {
        StdioMcpClient { cmd: strings_of(cmd), env: Vec::new(), timeout_ms: 30_000, request_id: 0 }
    }

    /// The same client with these environment variables for the process.
    pub fn with_env(self, env: Vec<(String, String)>) -> (r: Self)
        ensures
            r.env@ == env@,
            r.cmd@ == self.cmd@,
            r.timeout_ms == self.timeout_ms,
            r.request_id == self.request_id,
    {
        StdioMcpClient { env, ..self }
    }

    /// The same client with another request timeout.
    pub fn with_timeout(self, timeout_ms: u64) -> (r: Self)
        ensures
            r.timeout_ms == timeout_ms,
            r.env@ == self.env@,
            r.cmd@ == self.cmd@,
            r.request_id == self.request_id,
    {
        StdioMcpClient { timeout_ms, ..self }
    }

    /// The program and its arguments, or the error for an empty command.
    pub fn program(&self) -> (r: Result<(String, Vec<String>), String>)
        ensures
            self.cmd@.len() == 0 <==> r is Err,
            r matches Err(e) ==> e@ == "Empty command"@,
            r matches Ok((p, args)) ==> p@ == self.cmd@[0]@ && string_views(args@) == string_views(
                self.cmd@.skip(1),
            ),
    {
        if self.cmd.len() == 0 {
            return Err(String::from_str("Empty command"));
        }
        let mut args: Vec<String> = Vec::new();
        let mut k: usize = 1;
        while k < self.cmd.len()
            invariant
                1 <= k <= self.cmd@.len(),
                string_views(args@) == string_views(self.cmd@.subrange(1, k as int)),
            decreases self.cmd.len() - k,
        {
            proof {
                assert(string_views(args@).len() == k - 1);
            }
            let ghost a0 = args@;
            let s = self.cmd[k].clone();
            args.push(s);
            proof {
                assert(args@.drop_last() == a0);
                assert forall|i: int| 0 <= i < k implies #[trigger] string_views(args@)[i]
                    == string_views(self.cmd@.subrange(1, k + 1))[i] by {
                    if i < k - 1 {
                        assert(args@[i] == a0[i]);
                        assert(string_views(a0)[i] == string_views(self.cmd@.subrange(1, k as int))[i]);
                    }
                }
                assert(string_views(args@) =~= string_views(self.cmd@.subrange(1, k + 1)));
            }
            k = k + 1;
        }
        proof {
            assert(self.cmd@.subrange(1, k as int) =~= self.cmd@.skip(1));
        }
        Ok((self.cmd[0].clone(), args))
    }

    /// The id for the next request: one more than the last, wrapping.
    pub fn next_request_id(&mut self) -> (r: u64)
        ensures
            r == (if old(self).request_id == u64::MAX {
                0
            } else {
                old(self).request_id + 1
            }),
            final(self).request_id == r,
            final(self).cmd@ == old(self).cmd@,
            final(self).env@ == old(self).env@,
            final(self).timeout_ms == old(self).timeout_ms,
    {
        let id = if self.request_id == u64::MAX {
            0
        } else {
            self.request_id + 1
        };
        self.request_id = id;
        id
    }
}

} // verus!
