//! The engine-connection policy: where the engine's socket is looked for,
//! how the context-inspection output is parsed for a socket path, and how
//! often a failed connection is retried. Opening the socket, running the
//! context query and sleeping between retries are the surrounding program's
//! work; the decisions are made here.
use vstd::prelude::*;

use crate::strutil::{
    find_char, find_substr, has_substr, rfind_char_before, spec_trim, substr_at, trim_quote_chars,
};

verus! {

/// How many times a failed engine connection is attempted before giving up.
pub const MAX_CONNECT_RETRIES: u32 = 3;

/// Position of the first occurrence of `needle` in `hay`, if any.
pub open spec fn spec_find_sub(hay: Seq<char>, needle: Seq<char>) -> Option<int>
    decreases hay.len(),
{
    if hay.len() == 0 || hay.len() < needle.len() {
        None
    } else if hay.subrange(0, needle.len() as int) == needle {
        Some(0)
    } else {
        match spec_find_sub(hay.drop_first(), needle) {
            Some(i) => Some(i + 1),
            None => None,
        }
    }
}

proof fn lemma_find_sub_at(hay: Seq<char>, needle: Seq<char>, i: int)
    requires
        needle.len() > 0,
        substr_at(hay, needle, i),
        forall|j: int| 0 <= j < i ==> !substr_at(hay, needle, j),
    ensures
        spec_find_sub(hay, needle) == Some(i),
    decreases i,
{
    if i == 0 {
    } else {
        assert(!substr_at(hay, needle, 0));
        assert(hay.len() >= needle.len());
        assert(hay.subrange(0, needle.len() as int) != needle);
        assert(substr_at(hay.drop_first(), needle, i - 1)) by {
            assert(hay.drop_first().subrange(i - 1, i - 1 + needle.len()) =~= hay.subrange(
                i,
                i + needle.len(),
            ));
        }
        assert forall|j: int| 0 <= j < i - 1 implies !substr_at(hay.drop_first(), needle, j) by {
            if substr_at(hay.drop_first(), needle, j) {
                assert(hay.subrange(j + 1, j + 1 + needle.len()) =~= hay.drop_first().subrange(
                    j,
                    j + needle.len(),
                ));
                assert(substr_at(hay, needle, j + 1));
            }
        }
        lemma_find_sub_at(hay.drop_first(), needle, i - 1);
    }
}

proof fn lemma_find_sub_none(hay: Seq<char>, needle: Seq<char>)
    requires
        needle.len() > 0,
        !has_substr(hay, needle),
    ensures
        spec_find_sub(hay, needle) is None,
    decreases hay.len(),
{
    if hay.len() >= needle.len() {
        assert(!substr_at(hay, needle, 0));
        assert(hay.subrange(0, needle.len() as int) != needle);
        assert(hay.drop_first().len() == hay.len() - 1);
        assert(!has_substr(hay.drop_first(), needle)) by {
            if has_substr(hay.drop_first(), needle) {
                let j = choose|j: int| substr_at(hay.drop_first(), needle, j);
                assert(substr_at(hay.drop_first(), needle, j));
                assert(0 <= j && j + needle.len() <= hay.len() - 1);
                assert(hay.subrange(j + 1, j + 1 + needle.len()) =~= hay.drop_first().subrange(
                    j,
                    j + needle.len(),
                ));
                assert(substr_at(hay, needle, j + 1));
            }
        }
        lemma_find_sub_none(hay.drop_first(), needle);
    }
}

/// Position of the last occurrence of `c` strictly before `end`, if any.
pub open spec fn spec_rfind(s: Seq<char>, c: char, end: int) -> Option<int>
    decreases end,
{
    if end <= 0 {
        None
    } else if s[end - 1] == c {
        Some(end - 1)
    } else {
        spec_rfind(s, c, end - 1)
    }
}

proof fn lemma_rfind_at(s: Seq<char>, c: char, end: int, i: int)
    requires
        0 <= i < end <= s.len(),
        s[i] == c,
        forall|j: int| i < j < end ==> s[j] != c,
    ensures
        spec_rfind(s, c, end) == Some(i),
    decreases end,
{
    if i < end - 1 {
        lemma_rfind_at(s, c, end - 1, i);
    }
}

proof fn lemma_rfind_none(s: Seq<char>, c: char, end: int)
    requires
        0 <= end <= s.len(),
        forall|j: int| 0 <= j < end ==> s[j] != c,
    ensures
        spec_rfind(s, c, end) is None,
    decreases end,
{
    if end > 0 {
        lemma_rfind_none(s, c, end - 1);
    }
}

/// Position of the first occurrence of `c` at or after `start`, if any.
pub open spec fn spec_find_from(s: Seq<char>, c: char, start: int) -> Option<int>
    decreases s.len() - start,
{
    if start < 0 || start >= s.len() {
        None
    } else if s[start] == c {
        Some(start)
    } else {
        spec_find_from(s, c, start + 1)
    }
}

proof fn lemma_find_from_at(s: Seq<char>, c: char, start: int, i: int)
    requires
        0 <= start <= i < s.len(),
        s[i] == c,
        forall|j: int| start <= j < i ==> s[j] != c,
    ensures
        spec_find_from(s, c, start) == Some(i),
    decreases i - start,
{
    if start < i {
        lemma_find_from_at(s, c, start + 1, i);
    }
}

proof fn lemma_find_from_none(s: Seq<char>, c: char, start: int)
    requires
        0 <= start <= s.len(),
        forall|j: int| start <= j < s.len() ==> s[j] != c,
    ensures
        spec_find_from(s, c, start) is None,
    decreases s.len() - start,
{
    if start < s.len() {
        lemma_find_from_none(s, c, start + 1);
    }
}

/// The line of `s` around position `p`: from just after the previous line
/// break (or the start) up to the next line break (or the end).
pub open spec fn spec_line_around(s: Seq<char>, p: int) -> Seq<char> {
    let start = match spec_rfind(s, '\n', p) {
        Some(i) => i + 1,
        None => 0,
    };
    let stop = match spec_find_from(s, '\n', p) {
        Some(i) => i,
        None => s.len() as int,
    };
    s.subrange(start, stop)
}

/// The socket path named by an engine context inspection: on the first line
/// that names a host, the text after the first `unix://`, with surrounding
/// quotes, commas and spaces removed. Nothing when no line names a unix
/// socket host.
pub open spec fn spec_parse_socket_path(s: Seq<char>) -> Option<Seq<char>> {
    match spec_find_sub(s, "\"Host\":"@) {
        None => None,
        Some(p) => {
            let line = spec_line_around(s, p);
            match spec_find_sub(line, "unix://"@) {
                None => None,
                Some(q) => Some(spec_trim(line.skip(q + "unix://"@.len()))),
            }
        },
    }
}

/// The engine-connection policy: socket discovery and retry decisions. The
/// surrounding program owns the connection itself.
pub struct DockerClient;

impl DockerClient {
    /// The path tried first, and the fallback when discovery finds nothing.
    pub fn default_socket_path() -> (r: String)
        ensures
            r@ == "/var/run/docker.sock"@,
    {
        String::from_str("/var/run/docker.sock")
    }

    /// Whether a connection attempt number `attempt` (counted from zero) may
    /// still be made.
    pub fn should_retry(attempt: u32) -> (r: bool)
        ensures
            r == (attempt < MAX_CONNECT_RETRIES),
    {
        attempt < MAX_CONNECT_RETRIES
    }

    /// Extract a unix socket path from the engine's context-inspection
    /// output.
    pub fn parse_socket_path(output: &str) -> (r: Option<String>)
        ensures
            r.deep_view() == spec_parse_socket_path(output@),
    {
        proof {
            reveal_strlit("\"Host\":");
            reveal_strlit("unix://");
        }
        let len = output.unicode_len();
        let p = match find_substr(output, "\"Host\":") {
            Some(p) => {
                proof {
                    lemma_find_sub_at(output@, "\"Host\":"@, p as int);
                }
                p
            },
            None => {
                proof {
                    lemma_find_sub_none(output@, "\"Host\":"@);
                }
                return None;
            },
        };
        let line_start = match rfind_char_before(output, '\n', p) {
            Some(i) => {
                proof {
                    lemma_rfind_at(output@, '\n', p as int, i as int);
                }
                i + 1
            },
            None => {
                proof {
                    lemma_rfind_none(output@, '\n', p as int);
                }
                0
            },
        };
        let after = output.substring_char(p, len);
        let line_stop = match find_char(after, '\n') {
            Some(i) => {
                proof {
                    assert(after@[i as int] == output@[p + i]);
                    assert forall|j: int| p as int <= j < p + i implies output@[j] != '\n' by {
                        assert(after@[j - p] == output@[j]);
                    }
                    lemma_find_from_at(output@, '\n', p as int, p + i);
                }
                p + i
            },
            None => {
                proof {
                    assert forall|j: int| p as int <= j < output@.len() implies output@[j]
                        != '\n' by {
                        assert(after@[j - p] == output@[j]);
                    }
                    lemma_find_from_none(output@, '\n', p as int);
                }
                len
            },
        };
        proof {
            assert(line_start <= p as int) by {
                if line_start > 0 {
                }
            }
        }
        let line = output.substring_char(line_start, line_stop);
        proof {
            assert(line@ == spec_line_around(output@, p as int));
        }
        let q = match find_substr(line, "unix://") {
            Some(q) => {
                proof {
                    lemma_find_sub_at(line@, "unix://"@, q as int);
                }
                q
            },
            None => {
                proof {
                    lemma_find_sub_none(line@, "unix://"@);
                }
                return None;
            },
        };
        let scheme_len = "unix://".unicode_len();
        let tail = line.substring_char(q + scheme_len, line.unicode_len());
        proof {
            assert(tail@ =~= line@.skip(q + "unix://"@.len()));
        }
        Some(trim_quote_chars(tail))
    }
}

} // verus!
