use vstd::prelude::*;
use vstd::slice::slice_subrange;
use vstd::string::StringExecFns;

use crate::message::{chars_of, is_white_space_char, string_of, trim, trimmed, trailing_ws, is_white_space};

verus! {

/// The settings file's layout: each setting with its default value, in
/// order; `None` is a blank separator line.
pub open spec fn default_settings() -> Seq<Option<(Seq<char>, Seq<char>)>> {
    seq![
        Some(("HISTORY_LIMIT"@, "30"@)),
        Some(("CHANNEL_CAPACITY"@, "50"@)),
        None,
        Some(("JWT_SECRET"@, "jwt_secret_here"@)),
        Some(("JWT_SECRET_REFRESH"@, "jwt_refresh_secret_here"@)),
        None,
        Some(("BACKEND_URL"@, "http://localhost:8080"@)),
        Some(("FRONTEND_URL"@, "http://localhost:4329"@)),
        Some(("DATABASE_URL"@, "sqlite:imphnen.db"@)),
        None,
        Some(("DISCORD_GUILD_ID"@, "1234567891234567890"@)),
        Some(("DISCORD_CLIENT_ID"@, "1234567891234567890"@)),
        Some(("DISCORD_CLIENT_SECRET"@, "discord_secret_here"@)),
        Some(("DISCORD_REDIRECT_URL"@, "http://localhost:8080/api/auth/discord/authorized"@)),
    ]
}

/// Whether `p` is the position of the first `=` in `line`.
pub open spec fn first_equals_at(line: Seq<char>, p: int) -> bool {
    0 <= p < line.len() && line[p] == '=' && forall|k: int| 0 <= k < p ==> line[k] != '='
}

/// The trimmed key and value of a `key=value` line, split at its first `=`;
/// `None` for a line without `=`.
pub open spec fn line_setting(line: Seq<char>) -> Option<(Seq<char>, Seq<char>)> {
    if exists|p: int| first_equals_at(line, p) {
        let p = choose|p: int| first_equals_at(line, p);
        Some((trimmed(line.subrange(0, p)), trimmed(line.subrange(p + 1, line.len() as int))))
    } else {
        None
    }
}

/// The value that the last of `lines` to set `key` gives it.
pub open spec fn setting_value(lines: Seq<Seq<char>>, key: Seq<char>) -> Option<Seq<char>>
    decreases lines.len(),
{
    if lines.len() == 0 {
        None
    } else {
        match line_setting(lines.last()) {
            Some((k, v)) if k == key => Some(v),
            _ => setting_value(lines.drop_last(), key),
        }
    }
}

/// The line written for one entry of the layout.
pub open spec fn rendered_entry(entry: Option<(Seq<char>, Seq<char>)>, lines: Seq<Seq<char>>) -> Seq<char> {
    match entry {
        None => seq!['\n'],
        Some((key, default)) => {
            let value = match setting_value(lines, key) {
                Some(v) => v,
                None => default,
            };
            key + seq!['='] + value + seq!['\n']
        },
    }
}

/// The lines written for `entries`, in order.
pub open spec fn rendered(entries: Seq<Option<(Seq<char>, Seq<char>)>>, lines: Seq<Seq<char>>) -> Seq<char>
    decreases entries.len(),
{
    if entries.len() == 0 {
        Seq::empty()
    } else {
        rendered(entries.drop_last(), lines) + rendered_entry(entries.last(), lines)
    }
}

/// `s` without its trailing white space.
pub open spec fn trimmed_end(s: Seq<char>) -> Seq<char> {
    s.subrange(0, s.len() - trailing_ws(s))
}

pub open spec fn line_views(lines: Seq<String>) -> Seq<Seq<char>> {
    lines.map_values(|l: String| l@)
}

fn settings_layout() -> (r: Vec<Option<(&'static str, &'static str)>>)
    ensures
        r@.len() == default_settings().len(),
        forall|i: int| 0 <= i < r@.len() ==> match #[trigger] r@[i] {
            None => default_settings()[i].is_none(),
            Some((k, d)) => default_settings()[i] == Some((k@, d@)),
        },
{
    vec![
        Some(("HISTORY_LIMIT", "30")),
        Some(("CHANNEL_CAPACITY", "50")),
        None,
        Some(("JWT_SECRET", "jwt_secret_here")),
        Some(("JWT_SECRET_REFRESH", "jwt_refresh_secret_here")),
        None,
        Some(("BACKEND_URL", "http://localhost:8080")),
        Some(("FRONTEND_URL", "http://localhost:4329")),
        Some(("DATABASE_URL", "sqlite:imphnen.db")),
        None,
        Some(("DISCORD_GUILD_ID", "1234567891234567890")),
        Some(("DISCORD_CLIENT_ID", "1234567891234567890")),
        Some(("DISCORD_CLIENT_SECRET", "discord_secret_here")),
        Some(("DISCORD_REDIRECT_URL", "http://localhost:8080/api/auth/discord/authorized")),
    ]
}

/// The key and value that `line` sets, if it holds an `=`.
pub fn parse_line(line: &str) -> (r: Option<(String, String)>)
    ensures
        match r {
            Some((k, v)) => line_setting(line@) == Some((k@, v@)),
            None => line_setting(line@).is_none(),
        },
{
    let chars = chars_of(line);
    let n = chars.len();
    let mut p: usize = 0;
    while p < n && chars[p] != '='
        invariant
            0 <= p <= n,
            n == chars@.len(),
            forall|k: int| 0 <= k < p ==> chars@[k] != '=',
        decreases n - p,
    {
        p += 1;
    }
    if p == n {
        assert(!exists|q: int| first_equals_at(line@, q));
        return None;
    }
    proof {
        assert(first_equals_at(line@, p as int));
        let q = choose|q: int| first_equals_at(line@, q);
        assert(q == p) by {
            if q < p {
                assert(line@[q] != '=');
            } else if q > p {
                assert(line@[p as int] != '=');
            }
        }
    }
    let key = string_of(slice_subrange(chars.as_slice(), 0, p));
    let value = string_of(slice_subrange(chars.as_slice(), p + 1, n));
    Some((trim(key.as_str()), trim(value.as_str())))
}

/// The value that the last of `lines` to set `key` gives it.
pub fn lookup_setting(lines: &Vec<String>, key: &str) -> (r: Option<String>)
    ensures
        match r {
            Some(v) => setting_value(line_views(lines@), key@) == Some(v@),
            None => setting_value(line_views(lines@), key@).is_none(),
        },
{
    let wanted = String::from_str(key);
    let mut i: usize = lines.len();
    assert(lines@.subrange(0, i as int) =~= lines@);
    while i > 0
        invariant
            0 <= i <= lines@.len(),
            wanted@ == key@,
            setting_value(line_views(lines@), key@) == setting_value(line_views(lines@.subrange(0, i as int)), key@),
        decreases i,
    {
        let ghost prefix = line_views(lines@.subrange(0, i as int));
        proof {
            assert(prefix.last() == lines@[i - 1]@);
            assert(prefix.drop_last() =~= line_views(lines@.subrange(0, i - 1)));
        }
        match parse_line(lines[i - 1].as_str()) {
            Some((k, v)) => {
                if k == wanted {
                    return Some(v);
                }
            },
            None => {},
        }
        i -= 1;
    }
    proof {
        assert(line_views(lines@.subrange(0, 0)) =~= Seq::<Seq<char>>::empty());
    }
    None
}

/// The settings file to write, given the lines of the current one: every
/// setting of the layout in order, with the value the current file gives
/// it (its last `key=value` line for that key, both sides trimmed) or
/// else its default, blank separator lines kept, trailing white space
/// removed.
pub fn settings_file(lines: &Vec<String>) -> (r: String)
    ensures
        r@ == trimmed_end(rendered(default_settings(), line_views(lines@))),
{
    let layout = settings_layout();
    let ghost ls = line_views(lines@);
    let mut out = String::new();
    let mut i: usize = 0;
    while i < layout.len()
        invariant
            0 <= i <= layout@.len(),
            ls == line_views(lines@),
            layout@.len() == default_settings().len(),
            forall|j: int| 0 <= j < layout@.len() ==> match #[trigger] layout@[j] {
                None => default_settings()[j].is_none(),
                Some((k, d)) => default_settings()[j] == Some((k@, d@)),
            },
            out@ == rendered(default_settings().subrange(0, i as int), ls),
        decreases layout@.len() - i,
    {
        let ghost before = out@;
        let entry = layout[i];
        match entry {
            None => {
                out.append("\n");
            },
            Some((key, default)) => {
                out.append(key);
                out.append("=");
                match lookup_setting(lines, key) {
                    Some(v) => out.append(v.as_str()),
                    None => out.append(default),
                }
                out.append("\n");
            },
        }
        proof {
            reveal_strlit("\n");
            reveal_strlit("=");
            let entries = default_settings().subrange(0, i + 1);
            assert(entries.drop_last() =~= default_settings().subrange(0, i as int));
            assert(out@ =~= before + rendered_entry(default_settings()[i as int], ls));
        }
        i += 1;
    }
    proof {
        assert(default_settings().subrange(0, layout@.len() as int) =~= default_settings());
    }
    let chars = chars_of(out.as_str());
    let mut j: usize = chars.len();
    while j > 0 && is_white_space_char(chars[j - 1])
        invariant
            j <= chars@.len(),
            forall|k: int| j <= k < chars@.len() ==> is_white_space(#[trigger] chars@[k]),
        decreases j,
    {
        j -= 1;
    }
    proof {
        crate::message::lemma_trailing_ws(chars@, j as int);
    }
    string_of(slice_subrange(chars.as_slice(), 0, j))
}

} // verus!
