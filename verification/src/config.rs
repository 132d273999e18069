//! The configuration file format: one `KEY=VALUE` pair per line, keys and
//! values trimmed, lines without `=` ignored, later duplicates overriding
//! earlier ones. Required keys: `PUSHOVER_TOKEN` and `PUSHOVER_USER`;
//! optional key: `PUSHOVER_API`.

use vstd::prelude::*;

use crate::text::{find_char, idx_of, lemma_idx_of_is_first, trim, trim_spec};

verus! {

/// The credentials and optional endpoint override read from a config file.
#[derive(Debug)]
pub struct PushoverConfig {
    pub token: String,
    pub user: String,
    pub api_url: Option<String>,
}

/// Why configuration resolution failed.
#[derive(Debug, Clone, Copy, PartialEq, Eq, Structural)]
pub enum ConfigError {
    /// No config file in the working directory, its ancestors, or home.
    NotFound,
    /// A config file was selected but could not be read.
    Unreadable,
    /// The file has no `PUSHOVER_TOKEN` entry.
    MissingToken,
    /// The file has no `PUSHOVER_USER` entry.
    MissingUser,
    /// A required entry is present but empty after trimming.
    EmptyCredential,
}

impl ConfigError {
    /// The single-line message reported for this error.
    pub open spec fn message_spec(self) -> Seq<char> {
        match self {
            ConfigError::NotFound => "No .pushtime config found in the current or parent directories or home directory."@,
            ConfigError::Unreadable => "Failed to read pushover configuration file."@,
            ConfigError::MissingToken => "PUSHOVER_TOKEN not found in config."@,
            ConfigError::MissingUser => "PUSHOVER_USER not found in config."@,
            ConfigError::EmptyCredential => "PUSHOVER_TOKEN or PUSHOVER_USER is empty in config."@,
        }
    }

    /// Renders the error as its single-line message.
    pub fn message(&self) -> (r: String)
        ensures
            r@ == self.message_spec(),
    {
        match self {
            ConfigError::NotFound => "No .pushtime config found in the current or parent directories or home directory.".to_owned(),
            ConfigError::Unreadable => "Failed to read pushover configuration file.".to_owned(),
            ConfigError::MissingToken => "PUSHOVER_TOKEN not found in config.".to_owned(),
            ConfigError::MissingUser => "PUSHOVER_USER not found in config.".to_owned(),
            ConfigError::EmptyCredential => "PUSHOVER_TOKEN or PUSHOVER_USER is empty in config.".to_owned(),
        }
    }
}

/// The key/value pair a line contributes: the parts before and after its
/// first `=`, both trimmed, or nothing when the line has no `=`.
pub open spec fn line_kv(line: Seq<char>) -> Option<(Seq<char>, Seq<char>)> {
    let i = idx_of(line, '=');
    if i >= line.len() {
        None
    } else {
        Some(
            (
                trim_spec(line.subrange(0, i as int)),
                trim_spec(line.subrange(i as int + 1, line.len() as int)),
            ),
        )
    }
}

/// `s` split at every newline character.
pub open spec fn split_lines(s: Seq<char>) -> Seq<Seq<char>>
    decreases s.len(),
{
    let i = idx_of(s, '\n');
    if i >= s.len() {
        seq![s]
    } else {
        seq![s.subrange(0, i as int)] + split_lines(s.subrange(i as int + 1, s.len() as int))
    }
}

/// The value the lines bind `key` to, the latest binding winning.
pub open spec fn kv_lookup(lines: Seq<Seq<char>>, key: Seq<char>) -> Option<Seq<char>>
    decreases lines.len(),
{
    if lines.len() == 0 {
        None
    } else {
        match line_kv(lines.last()) {
            Some(kv) => if kv.0 == key {
                Some(kv.1)
            } else {
                kv_lookup(lines.drop_last(), key)
            },
            None => kv_lookup(lines.drop_last(), key),
        }
    }
}

/// The value a config file with contents `s` binds `key` to.
pub open spec fn config_value(s: Seq<char>, key: Seq<char>) -> Option<Seq<char>> {
    kv_lookup(split_lines(s), key)
}

proof fn lemma_kv_lookup_cons(l: Seq<char>, rest: Seq<Seq<char>>, key: Seq<char>)
    ensures
        kv_lookup(seq![l] + rest, key) == (match kv_lookup(rest, key) {
            Some(v) => Some(v),
            None => kv_lookup(seq![l], key),
        }),
    decreases rest.len(),
{
    if rest.len() == 0 {
        assert(seq![l] + rest =~= seq![l]);
    } else {
        let all = seq![l] + rest;
        assert(all.len() == 1 + rest.len());
        assert(all.last() == rest.last());
        assert(all.drop_last() =~= seq![l] + rest.drop_last());
        lemma_kv_lookup_cons(l, rest.drop_last(), key);
    }
}

/// What the state of one tracked key must say mid-scan: the whole file's
/// binding is the suffix's binding if the suffix has one, else the binding
/// collected from the lines already scanned.
spec fn scan_inv(full: Seq<char>, start: int, cur: Option<Seq<char>>, key: Seq<char>) -> bool {
    config_value(full, key) == (match kv_lookup(split_lines(full.subrange(start, full.len() as int)), key) {
        Some(v) => Some(v),
        None => cur,
    })
}

spec fn opt_view(o: Option<String>) -> Option<Seq<char>> {
    match o {
        Some(s) => Some(s@),
        None => None,
    }
}

/// What one tracked key's state becomes after scanning one more line.
spec fn scan_update(line: Seq<char>, cur: Option<Seq<char>>, key: Seq<char>) -> Option<Seq<char>> {
    match line_kv(line) {
        Some(kv) => if kv.0 == key {
            Some(kv.1)
        } else {
            cur
        },
        None => cur,
    }
}

/// Consuming the next line (ending at `j`, or at the end of the file) keeps
/// the scan invariant, and finishes it when the line was the last.
proof fn lemma_scan_step(full: Seq<char>, start: int, j: int, cur: Option<Seq<char>>, key: Seq<char>)
    requires
        0 <= start <= j <= full.len(),
        forall|k: int| start <= k < j ==> full[k] != '\n',
        j < full.len() ==> full[j] == '\n',
        scan_inv(full, start, cur, key),
    ensures
        j == full.len() ==> config_value(full, key) == scan_update(
            full.subrange(start, j),
            cur,
            key,
        ),
        j < full.len() ==> scan_inv(full, j + 1, scan_update(full.subrange(start, j), cur, key), key),
{
    let suffix = full.subrange(start, full.len() as int);
    let line = full.subrange(start, j);
    assert(line =~= suffix.subrange(0, j - start));
    assert forall|k: int| 0 <= k < j - start implies suffix[k] != '\n' by {
        assert(suffix[k] == full[start + k]);
    }
    if j < full.len() {
        assert(suffix[j - start] == full[j]);
    }
    lemma_idx_of_is_first(suffix, '\n', j - start);
    let single = seq![line];
    assert(single.last() == line);
    assert(single.drop_last() =~= Seq::<Seq<char>>::empty());
    assert(kv_lookup(Seq::<Seq<char>>::empty(), key) is None);
    assert(kv_lookup(single, key) == (match line_kv(line) {
        Some(kv) => if kv.0 == key {
            Some(kv.1)
        } else {
            None
        },
        None => None,
    }));
    if j == full.len() {
        assert(suffix =~= line);
        assert(split_lines(suffix) == seq![suffix]);
        assert(split_lines(suffix) == single);
    } else {
        let rest = full.subrange(j + 1, full.len() as int);
        assert(suffix.subrange(j - start + 1, suffix.len() as int) =~= rest);
        assert(split_lines(suffix) == seq![suffix.subrange(0, j - start)] + split_lines(
            suffix.subrange(j - start + 1, suffix.len() as int),
        ));
        assert(seq![suffix.subrange(0, j - start)] =~= single);
        assert(split_lines(suffix) == single + split_lines(rest));
        lemma_kv_lookup_cons(line, split_lines(rest), key);
    }
}

/// Parses config-file contents.
///
/// Succeeds exactly when the file binds both `PUSHOVER_TOKEN` and
/// `PUSHOVER_USER` to non-empty values; the returned fields are the file's
/// last binding of each key (and of `PUSHOVER_API`, when present).
pub fn parse_config(contents: &str) -> (r: Result<PushoverConfig, ConfigError>)
    ensures
        match r {
            Ok(c) => {
                &&& config_value(contents@, "PUSHOVER_TOKEN"@) == Some(c.token@)
                &&& config_value(contents@, "PUSHOVER_USER"@) == Some(c.user@)
                &&& c.token@.len() > 0
                &&& c.user@.len() > 0
                &&& (match c.api_url {
                    Some(u) => config_value(contents@, "PUSHOVER_API"@) == Some(u@),
                    None => config_value(contents@, "PUSHOVER_API"@) is None,
                })
            },
            Err(e) => match e {
                ConfigError::MissingToken => config_value(contents@, "PUSHOVER_TOKEN"@) is None,
                ConfigError::MissingUser => {
                    &&& config_value(contents@, "PUSHOVER_TOKEN"@) is Some
                    &&& config_value(contents@, "PUSHOVER_USER"@) is None
                },
                ConfigError::EmptyCredential => {
                    &&& config_value(contents@, "PUSHOVER_TOKEN"@) is Some
                    &&& config_value(contents@, "PUSHOVER_USER"@) is Some
                    &&& (match (config_value(contents@, "PUSHOVER_TOKEN"@), config_value(
                        contents@,
                        "PUSHOVER_USER"@,
                    )) {
                        (Some(t), Some(u)) => t.len() == 0 || u.len() == 0,
                        _ => false,
                    })
                },
                _ => false,
            },
        },
{
    proof {
        reveal_strlit("PUSHOVER_TOKEN");
        reveal_strlit("PUSHOVER_USER");
        reveal_strlit("PUSHOVER_API");
        assert(("PUSHOVER_TOKEN"@).len() == 14);
        assert(("PUSHOVER_USER"@).len() == 13);
        assert(("PUSHOVER_API"@).len() == 12);
        assert("PUSHOVER_TOKEN"@ != "PUSHOVER_USER"@);
        assert("PUSHOVER_TOKEN"@ != "PUSHOVER_API"@);
        assert("PUSHOVER_USER"@ != "PUSHOVER_API"@);
    }
    let ghost full = contents@;
    let n = contents.unicode_len();
    let token_key = String::from_str("PUSHOVER_TOKEN");
    let user_key = String::from_str("PUSHOVER_USER");
    let api_key = String::from_str("PUSHOVER_API");
    let mut token: Option<String> = None;
    let mut user: Option<String> = None;
    let mut api: Option<String> = None;
    let mut start: usize = 0;
    proof {
        assert(full.subrange(0, full.len() as int) =~= full);
    }
    loop
        invariant_except_break
            scan_inv(full, start as int, opt_view(token), "PUSHOVER_TOKEN"@),
            scan_inv(full, start as int, opt_view(user), "PUSHOVER_USER"@),
            scan_inv(full, start as int, opt_view(api), "PUSHOVER_API"@),
        invariant
            n == full.len(),
            contents@ == full,
            start <= n,
            token_key@ == "PUSHOVER_TOKEN"@,
            user_key@ == "PUSHOVER_USER"@,
            api_key@ == "PUSHOVER_API"@,
            "PUSHOVER_TOKEN"@ != "PUSHOVER_USER"@,
            "PUSHOVER_TOKEN"@ != "PUSHOVER_API"@,
            "PUSHOVER_USER"@ != "PUSHOVER_API"@,
        ensures
            config_value(full, "PUSHOVER_TOKEN"@) == opt_view(token),
            config_value(full, "PUSHOVER_USER"@) == opt_view(user),
            config_value(full, "PUSHOVER_API"@) == opt_view(api),
        decreases n - start,
    {
        let j = find_char(contents, start, '\n');
        let line = contents.substring_char(start, j);
        proof {
            reveal_strlit("PUSHOVER_TOKEN");
            reveal_strlit("PUSHOVER_USER");
            assert(line@ == full.subrange(start as int, j as int));
            lemma_scan_step(full, start as int, j as int, opt_view(token), "PUSHOVER_TOKEN"@);
            lemma_scan_step(full, start as int, j as int, opt_view(user), "PUSHOVER_USER"@);
            lemma_scan_step(full, start as int, j as int, opt_view(api), "PUSHOVER_API"@);
        }
        let line_len = line.unicode_len();
        let eq = find_char(line, 0, '=');
        let ghost kv = line_kv(line@);
        if eq < line_len {
            proof {
                lemma_idx_of_is_first(line@, '=', eq as int);
            }
            let key = trim(line.substring_char(0, eq));
            let val = trim(line.substring_char(eq + 1, line_len));
            proof {
                assert(kv == Some((key@, val@)));
            }
            if key == token_key {
                token = Some(val);
            } else if key == user_key {
                user = Some(val);
            } else if key == api_key {
                api = Some(val);
            }
        } else {
            proof {
                lemma_idx_of_is_first(line@, '=', line@.len() as int);
                assert(kv is None);
            }
        }
        if j == n {
            break;
        }
        start = j + 1;
    }
    let token = match token {
        Some(t) => t,
        None => {
            return Err(ConfigError::MissingToken);
        },
    };
    let user = match user {
        Some(u) => u,
        None => {
            return Err(ConfigError::MissingUser);
        },
    };
    if token.as_str().is_empty() || user.as_str().is_empty() {
        return Err(ConfigError::EmptyCredential);
    }
    Ok(PushoverConfig { token, user, api_url: api })
}

} // verus!
