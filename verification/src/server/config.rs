//! The server configuration: port, token and data directory, each with its default.

use vstd::prelude::*;
use vstd::string::*;
use crate::text::{chars_of, decimal, digit_char};
use std::path::Path;

verus! {

broadcast use vstd::string::group_string_axioms;

/// The port of the domain API.
pub const DEFAULT_PORT: u16 = 4765;

/// The fixed development token.
pub const DEFAULT_TOKEN: &'static str = "dev-token";

/// The data directory (the vault root), relative to the working directory.
pub const DEFAULT_DATA_DIR: &'static str = "./vault";

/// An ASCII digit.
pub open spec fn is_digit(c: char) -> bool {
    '0' <= c <= '9'
}

/// The value of a string of decimal digits.
pub open spec fn digits_value(ds: Seq<char>) -> nat
    decreases ds.len(),
{
    if ds.len() == 0 {
        0
    } else {
        digits_value(ds.drop_last()) * 10 + ((ds.last() as nat) - ('0' as nat)) as nat
    }
}

/// The digits of an unsigned integer text: the text without one leading `+`.
pub open spec fn unsigned_digits(s: Seq<char>) -> Seq<char> {
    if s.len() > 0 && s[0] == '+' {
        s.drop_first()
    } else {
        s
    }
}

/// What `u16::from_str` yields: an optional `+`, then at least one ASCII digit and nothing
/// else, of a value that fits in 16 bits.
pub open spec fn u16_of(s: Seq<char>) -> Option<u16> {
    let ds = unsigned_digits(s);
    if ds.len() > 0 && (forall|i: int| 0 <= i < ds.len() ==> is_digit(#[trigger] ds[i]))
        && digits_value(ds) <= u16::MAX {
        Some(digits_value(ds) as u16)
    } else {
        None
    }
}

/// Parses a 16-bit unsigned integer (see [`u16_of`]).
pub fn parse_u16(s: &str) -> (r: Option<u16>)
    ensures
        r == u16_of(s@),
{
    let v = chars_of(s);
    let start: usize = if v.len() > 0 && v[0] == '+' { 1 } else { 0 };
    let ghost ds = unsigned_digits(s@);
    proof {
        if start == 1 {
            assert(ds =~= v@.subrange(1, v@.len() as int));
        } else {
            assert(ds =~= v@.subrange(0, v@.len() as int));
        }
    }
    if start >= v.len() {
        return None;
    }
    let mut value: u32 = 0;
    let mut i = start;
    while i < v.len()
        invariant
            start <= i <= v.len(),
            v@ == s@,
            ds == unsigned_digits(s@),
            ds.len() > 0,
            ds == v@.subrange(start as int, v@.len() as int),
            forall|j: int| 0 <= j < i - start ==> is_digit(#[trigger] ds[j]),
            value == digits_value(ds.take(i - start)),
            value <= u16::MAX,
        decreases v.len() - i,
    {
        let c = v[i];
        if !('0' <= c && c <= '9') {
            proof {
                assert(ds[i - start] == v@[i as int]);
                assert(!is_digit(ds[i - start]));
            }
            return None;
        }
        let d = (c as u32) - ('0' as u32);
        proof {
            assert(ds.take(i - start + 1).drop_last() =~= ds.take(i - start));
            assert(ds.take(i - start + 1).last() == c);
        }
        let next = value * 10 + d;
        if next > 65535 {
            proof {
                assert(ds[i - start] == v@[i as int]);
                if forall|j: int| 0 <= j < ds.len() ==> is_digit(#[trigger] ds[j]) {
                    lemma_digits_value_grows(ds, i - start + 1);
                }
            }
            return None;
        }
        proof {
            assert(ds[i - start] == v@[i as int]);
        }
        value = next;
        i = i + 1;
    }
    proof {
        assert(ds.take(i - start) =~= ds);
    }
    Some(value as u16)
}

proof fn lemma_digits_value_grows(ds: Seq<char>, k: int)
    requires
        0 <= k <= ds.len(),
        forall|i: int| 0 <= i < ds.len() ==> is_digit(#[trigger] ds[i]),
    ensures
        digits_value(ds.take(k)) <= digits_value(ds),
    decreases ds.len() - k,
{
    if k < ds.len() {
        lemma_digits_value_grows(ds, k + 1);
        assert(ds.take(k + 1).drop_last() =~= ds.take(k));
        assert(ds.take(k + 1).last() == ds[k]);
        assert(is_digit(ds[k]));
    } else {
        assert(ds.take(k) =~= ds);
    }
}

/// The server configuration.
#[derive(Debug, Clone, PartialEq)]
pub struct ServerConfig {
    pub port: u16,
    pub token: String,
    pub data_dir: String,
}

impl ServerConfig {
    /// The configuration from the values of `JOTLINE_API_PORT`, `JOTLINE_DEV_TOKEN` and
    /// `JOTLINE_DATA_DIR` (each absent when unset): a port that does not parse, or an absent
    /// value, takes the default.
    pub fn from_vars(port: Option<&str>, token: Option<String>, data_dir: Option<String>) -> (c: Self)
        ensures
            c.port == match port {
                Some(p) => match u16_of(p@) {
                    Some(n) => n,
                    None => DEFAULT_PORT,
                },
                None => DEFAULT_PORT,
            },
            c.token@ == match token {
                Some(t) => t@,
                None => DEFAULT_TOKEN@,
            },
            c.data_dir@ == match data_dir {
                Some(d) => d@,
                None => DEFAULT_DATA_DIR@,
            },
    {
        let port = match port {
            Some(p) => match parse_u16(p) {
                Some(n) => n,
                None => DEFAULT_PORT,
            },
            None => DEFAULT_PORT,
        };
        let token = match token {
            Some(t) => t,
            None => DEFAULT_TOKEN.to_owned(),
        };
        let data_dir = match data_dir {
            Some(d) => d,
            None => DEFAULT_DATA_DIR.to_owned(),
        };
        ServerConfig { port, token, data_dir }
    }
}

// ---------------------------------------------------------------------------
// The repository root (where the sidecar runs and the contract files live).
// ---------------------------------------------------------------------------

/// What std's `Path::new(path).ancestors().nth(n)` yields for a text path, as text: the path
/// with its last `n` components taken off, or nothing when it has fewer parents.
pub uninterp spec fn std_path_ancestor(path: Seq<char>, n: usize) -> Option<Seq<char>>;

/// std's `Path::ancestors` (the path itself, then each parent in turn), its `n`-th item, as
/// text. The result depends on the path and `n` alone.
#[verifier::external_body]
fn path_ancestor(path: &str, n: usize) -> (r: Option<String>)
    ensures
        match r {
            Some(a) => std_path_ancestor(path@, n) == Some(a@),
            None => std_path_ancestor(path@, n) is None,
        },
{
    Path::new(path).ancestors().nth(n).map(|a| a.to_string_lossy().into_owned())
}

/// How many levels the repository root lies above the manifest directory of the build.
pub const REPO_ROOT_DEPTH: usize = 3;

/// The file that marks the repository root.
pub const REPO_ROOT_MARKER: &'static str = "pnpm-workspace.yaml";

/// Where the repository root should be: three levels above the manifest directory.
pub fn repo_root_candidate(manifest_dir: &str) -> (r: Option<String>)
    ensures
        match r {
            Some(a) => std_path_ancestor(manifest_dir@, REPO_ROOT_DEPTH) == Some(a@),
            None => std_path_ancestor(manifest_dir@, REPO_ROOT_DEPTH) is None,
        },
{
    path_ancestor(manifest_dir, REPO_ROOT_DEPTH)
}

/// The message when the manifest directory has too few parents.
pub open spec fn root_missing_text() -> Seq<char> {
    "无法定位仓库根目录"@
}

/// The message when the candidate root lacks its marker file.
pub open spec fn root_unmarked_text(root: Seq<char>) -> Seq<char> {
    "仓库根定位失败："@ + root
}

/// The repository root, from its candidate and whether the marker file was found there: no
/// candidate, or no marker, is an error.
pub fn repo_root(candidate: Option<String>, marker_found: bool) -> (r: Result<String, String>)
    ensures
        match candidate {
            None => r matches Err(m) && m@ == root_missing_text(),
            Some(c) => if marker_found {
                r matches Ok(p) && p == c
            } else {
                r matches Err(m) && m@ == root_unmarked_text(c@)
            },
        },
{
    match candidate {
        None => Err("无法定位仓库根目录".to_owned()),
        Some(c) => {
            if marker_found {
                Ok(c)
            } else {
                let mut m = "仓库根定位失败：".to_owned();
                m.append(c.as_str());
                Err(m)
            }
        },
    }
}

proof fn lemma_decimal_digits(n: nat)
    ensures
        decimal(n).len() > 0,
        forall|i: int| 0 <= i < decimal(n).len() ==> is_digit(#[trigger] decimal(n)[i]),
        digits_value(decimal(n)) == n,
    decreases n,
{
    let d = n % 10;
    assert(is_digit(digit_char(d)) && (digit_char(d) as nat) - ('0' as nat) == d) by {
        assert(d < 10);
    }
    if n >= 10 {
        lemma_decimal_digits(n / 10);
        let s = decimal(n);
        assert(s.drop_last() =~= decimal(n / 10));
        assert forall|i: int| 0 <= i < s.len() implies is_digit(#[trigger] s[i]) by {
            if i < s.len() - 1 {
                assert(s[i] == decimal(n / 10)[i]);
            }
        }
        assert(s.last() == digit_char(d));
        assert(n == (n / 10) * 10 + n % 10) by (nonlinear_arith);
        assert(digits_value(s) == digits_value(s.drop_last()) * 10 + (((s.last() as nat) - ('0' as nat)) as nat));
        assert(digits_value(s.drop_last()) == n / 10);
        assert((((s.last() as nat) - ('0' as nat)) as nat) == d);
    } else {
        let s = decimal(n);
        assert(s.drop_last() =~= Seq::<char>::empty());
        assert(digits_value(s) == digits_value(s.drop_last()) * 10 + (((s.last() as nat) - ('0' as nat)) as nat));
        assert(s.last() == digit_char(d));
        assert(d == n);
    }
}

/// The port passed to the sidecar as decimal text reads back as the same port.
pub proof fn law_port_text_roundtrip(port: u16)
    ensures
        u16_of(decimal(port as nat)) == Some(port),
{
    lemma_decimal_digits(port as nat);
    assert(decimal(port as nat)[0] != '+') by {
        assert(is_digit(decimal(port as nat)[0]));
    }
    assert(unsigned_digits(decimal(port as nat)) == decimal(port as nat));
}

} // verus!
