use vstd::prelude::*;

use crate::strutil::chars_eq_nocase;
use crate::strutil::chars_of;
use crate::strutil::chars_to_string;
use crate::strutil::eq_char_nocase;
use crate::strutil::find_char;
use crate::strutil::split_char;
use crate::strutil::split_spec;
use crate::strutil::trim_chars;
use crate::strutil::trim_spec;

verus! {

/// Case-insensitive equality over ASCII letters, character by character.
pub open spec fn eq_nocase(a: Seq<char>, b: Seq<char>) -> bool {
    a.len() == b.len() && forall|i: int| 0 <= i < a.len() ==> eq_char_nocase(a[i], b[i])
}

fn chars_eq_nocase_vec(a: &Vec<char>, b: &Vec<char>) -> (r: bool)
    ensures
        r == eq_nocase(a@, b@),
{
    if a.len() != b.len() {
        return false;
    }
    let n = a.len();
    let mut i: usize = 0;
    while i < n
        invariant
            n == a@.len(),
            b@.len() == n,
            i <= n,
            forall|j: int| 0 <= j < i ==> eq_char_nocase(a@[j], b@[j]),
        decreases n - i,
    {
        if !chars_eq_nocase(a[i], b[i]) {
            return false;
        }
        i = i + 1;
    }
    true
}

/// The index of the first `c` in `s`, or `-1`.
pub open spec fn first_index_of(s: Seq<char>, c: char) -> int
    decreases s.len(),
{
    if s.len() == 0 {
        -1
    } else if s[0] == c {
        0
    } else {
        let r = first_index_of(s.drop_first(), c);
        if r < 0 {
            -1
        } else {
            r + 1
        }
    }
}

proof fn lemma_first_index_of(s: Seq<char>, c: char)
    ensures
        ({
            let r = first_index_of(s, c);
            if r < 0 {
                forall|j: int| 0 <= j < s.len() ==> s[j] != c
            } else {
                0 <= r < s.len() && s[r] == c && forall|j: int| 0 <= j < r ==> s[j] != c
            }
        }),
    decreases s.len(),
{
    if s.len() > 0 && s[0] != c {
        let d = s.drop_first();
        lemma_first_index_of(d, c);
        let rd = first_index_of(d, c);
        assert(forall|j: int| 0 <= j < d.len() ==> #[trigger] d[j] == s[j + 1]);
        if rd < 0 {
            assert(first_index_of(s, c) == -1);
            assert forall|j: int| 0 <= j < s.len() implies s[j] != c by {
                if j >= 1 {
                    assert(d[j - 1] == s[j]);
                }
            }
        } else {
            assert(first_index_of(s, c) == rd + 1);
            assert(s[rd + 1] == d[rd]);
            assert forall|j: int| 0 <= j < rd + 1 implies s[j] != c by {
                if j >= 1 {
                    assert(d[j - 1] == s[j]);
                }
            }
        }
    }
}

/// A quoted value with its symmetric quotes removed; anything else stays.
pub open spec fn strip_quotes_spec(v: Seq<char>) -> Seq<char> {
    if v.len() >= 2 && ((v[0] == '"' && v.last() == '"') || (v[0] == '\'' && v.last()
        == '\'')) {
        v.subrange(1, v.len() - 1)
    } else {
        v
    }
}

/// What one configuration line means while scanning inside (`in_sec`) or
/// outside the wanted section, and what the lines after it yield: blank
/// lines and comments are skipped, a `[section]` header switches the state,
/// and a `key = value` line inside the wanted section ends the scan with
/// its trimmed, unquoted value.
pub open spec fn scan_lines(
    lines: Seq<Seq<char>>,
    in_sec: bool,
    section: Seq<char>,
    key: Seq<char>,
) -> Option<Seq<char>>
    decreases lines.len(),
{
    if lines.len() == 0 {
        None
    } else {
        let l = trim_spec(lines.first());
        let rest = lines.drop_first();
        if l.len() == 0 || l[0] == '#' || l[0] == ';' {
            scan_lines(rest, in_sec, section, key)
        } else if l[0] == '[' && l.last() == ']' {
            scan_lines(
                rest,
                eq_nocase(trim_spec(l.subrange(1, l.len() - 1)), section),
                section,
                key,
            )
        } else if in_sec && first_index_of(l, '=') >= 0 {
            let e = first_index_of(l, '=');
            if eq_nocase(trim_spec(l.subrange(0, e)), key) {
                Some(strip_quotes_spec(trim_spec(l.subrange(e + 1, l.len() as int))))
            } else {
                scan_lines(rest, in_sec, section, key)
            }
        } else {
            scan_lines(rest, in_sec, section, key)
        }
    }
}

/// The value a configuration text gives `key` inside `section`, under the
/// INI-style shape these files use.
pub open spec fn gitconfig_value_spec(
    content: Seq<char>,
    section: Seq<char>,
    key: Seq<char>,
) -> Option<Seq<char>> {
    scan_lines(split_spec(content, '\n'), false, section, key)
}

/// Reads `key` out of `section` of an INI-style configuration text:
/// sections and keys compare case-insensitively, comments and blank lines
/// are skipped, values are trimmed and lose one layer of symmetric quotes.
pub fn parse_gitconfig(content: &str, target_section: &str, target_key: &str) -> (r: Option<
    String,
>)
    ensures
        match r {
            Some(v) => gitconfig_value_spec(content@, target_section@, target_key@) == Some(
                v@,
            ),
            None => gitconfig_value_spec(content@, target_section@, target_key@) is None,
        },
{
    let chars = chars_of(content);
    let section = chars_of(target_section);
    let key = chars_of(target_key);
    let lines = split_char(&chars, '\n');
    let ghost lines_model = split_spec(content@, '\n');
    let n = lines.len();
    let mut in_sec: bool = false;
    let mut i: usize = 0;
    proof {
        assert(lines_model.subrange(0, lines_model.len() as int) =~= lines_model);
    }
    while i < n
        invariant
            n == lines@.len(),
            lines_model.len() == n,
            forall|j: int| 0 <= j < n ==> lines@[j]@ == lines_model[j],
            i <= n,
            section@ == target_section@,
            key@ == target_key@,
            gitconfig_value_spec(content@, target_section@, target_key@) == scan_lines(
                lines_model.subrange(i as int, n as int),
                in_sec,
                target_section@,
                target_key@,
            ),
        decreases n - i,
    {
        let ghost remaining = lines_model.subrange(i as int, n as int);
        proof {
            assert(remaining.first() == lines_model[i as int]);
            assert(remaining.drop_first() =~= lines_model.subrange(i as int + 1, n as int));
        }
        let line = trim_chars(&lines[i]);
        let llen = line.len();
        if llen == 0 || line[0] == '#' || line[0] == ';' {
            // comment or blank line
        } else if line[0] == '[' && line[llen - 1] == ']' {
            let mut inner: Vec<char> = Vec::new();
            let mut k: usize = 1;
            while k < llen - 1
                invariant
                    1 <= k <= llen - 1,
                    llen == line@.len(),
                    llen >= 1,
                    inner@ == line@.subrange(1, k as int),
                decreases llen - 1 - k,
            {
                inner.push(line[k]);
                k = k + 1;
                assert(inner@ =~= line@.subrange(1, k as int));
            }
            assert(inner@ =~= line@.subrange(1, llen - 1));
            let inner_trimmed = trim_chars(&inner);
            in_sec = chars_eq_nocase_vec(&inner_trimmed, &section);
        } else {
            if in_sec {
                match find_char(&line, '=') {
                    Some(e) => {
                        proof {
                            lemma_first_index_of(line@, '=');
                            assert(first_index_of(line@, '=') == e as int);
                        }
                        let mut key_part: Vec<char> = Vec::new();
                        let mut k: usize = 0;
                        while k < e
                            invariant
                                k <= e,
                                e < line@.len(),
                                key_part@ == line@.subrange(0, k as int),
                            decreases e - k,
                        {
                            key_part.push(line[k]);
                            k = k + 1;
                            assert(key_part@ =~= line@.subrange(0, k as int));
                        }
                        let key_trimmed = trim_chars(&key_part);
                        if chars_eq_nocase_vec(&key_trimmed, &key) {
                            let mut value_part: Vec<char> = Vec::new();
                            let mut k: usize = e + 1;
                            while k < llen
                                invariant
                                    e + 1 <= k <= llen,
                                    llen == line@.len(),
                                    value_part@ == line@.subrange(e + 1, k as int),
                                decreases llen - k,
                            {
                                value_part.push(line[k]);
                                k = k + 1;
                                assert(value_part@ =~= line@.subrange(e + 1, k as int));
                            }
                            assert(value_part@ =~= line@.subrange(e + 1, llen as int));
                            let value = trim_chars(&value_part);
                            let vlen = value.len();
                            let stripped: Vec<char> = if vlen >= 2 && ((value[0] == '"'
                                && value[vlen - 1] == '"') || (value[0] == '\'' && value[vlen
                                - 1] == '\'')) {
                                let mut s: Vec<char> = Vec::new();
                                let mut k: usize = 1;
                                while k < vlen - 1
                                    invariant
                                        1 <= k <= vlen - 1,
                                        vlen == value@.len(),
                                        vlen >= 2,
                                        s@ == value@.subrange(1, k as int),
                                    decreases vlen - 1 - k,
                                {
                                    s.push(value[k]);
                                    k = k + 1;
                                    assert(s@ =~= value@.subrange(1, k as int));
                                }
                                assert(s@ =~= value@.subrange(1, vlen - 1));
                                s
                            } else {
                                value
                            };
                            assert(stripped@ == strip_quotes_spec(
                                trim_spec(line@.subrange(e + 1, line@.len() as int)),
                            ));
                            return Some(chars_to_string(&stripped));
                        }
                    },
                    None => {
                        proof {
                            lemma_first_index_of(line@, '=');
                        }
                    },
                }
            }
        }
        i = i + 1;
    }
    proof {
        assert(lines_model.subrange(n as int, n as int) =~= Seq::<Seq<char>>::empty());
    }
    None
}

/// The user-level configuration path a set of home variables names: the
/// home directory first, then the two profile conventions; `None` when no
/// home is known.
pub open spec fn user_gitconfig_spec(
    home: Option<Seq<char>>,
    userprofile: Option<Seq<char>>,
    homedrive: Option<Seq<char>>,
    homepath: Option<Seq<char>>,
) -> Option<Seq<char>> {
    match home {
        Some(h) => Some(h + "/.gitconfig"@),
        None => match userprofile {
            Some(u) => Some(u + "/.gitconfig"@),
            None => match (homedrive, homepath) {
                (Some(d), Some(p)) => Some(d + p + "/.gitconfig"@),
                _ => None,
            },
        },
    }
}

/// The system-level configuration path: a fixed location on Unix-like
/// systems, the first installed candidate on Windows.
pub open spec fn system_gitconfig_spec(windows: bool, windows_config: Option<Seq<char>>)
    -> Option<Seq<char>> {
    if !windows {
        Some("/etc/gitconfig"@)
    } else {
        windows_config
    }
}

pub open spec fn view_opt_str(s: Option<String>) -> Option<Seq<char>> {
    match s {
        Some(v) => Some(v@),
        None => None,
    }
}

pub open spec fn opt_path_seq(o: Option<Seq<char>>) -> Seq<Seq<char>> {
    match o {
        Some(p) => seq![p],
        None => Seq::empty(),
    }
}

/// The user-level configuration path for the given home variables.
pub fn get_user_gitconfig_path(
    home: Option<String>,
    userprofile: Option<String>,
    homedrive: Option<String>,
    homepath: Option<String>,
) -> (r: Option<String>)
    ensures
        view_opt_str(r) == user_gitconfig_spec(
            view_opt_str(home),
            view_opt_str(userprofile),
            view_opt_str(homedrive),
            view_opt_str(homepath),
        ),
{
    match home {
        Some(h) => Some(h.concat("/.gitconfig")),
        None => match userprofile {
            Some(u) => Some(u.concat("/.gitconfig")),
            None => match (homedrive, homepath) {
                (Some(d), Some(hp)) => Some(d.concat(hp.as_str()).concat("/.gitconfig")),
                _ => None,
            },
        },
    }
}

/// The system-level configuration path; on Windows the caller names the
/// first candidate it found installed.
pub fn get_system_gitconfig_path(windows: bool, windows_config: Option<String>) -> (r: Option<
    String,
>)
    ensures
        view_opt_str(r) == system_gitconfig_spec(windows, view_opt_str(windows_config)),
{
    if !windows {
        Some(String::from_str("/etc/gitconfig"))
    } else {
        windows_config
    }
}

/// The configuration paths to try, in order of precedence: the user-level
/// path (when a home is known), then the system-level one.
pub fn get_gitconfig_paths(
    home: Option<String>,
    userprofile: Option<String>,
    homedrive: Option<String>,
    homepath: Option<String>,
    windows: bool,
    windows_config: Option<String>,
) -> (r: Vec<String>)
    ensures
        r@.map_values(|p: String| p@) == opt_path_seq(
            user_gitconfig_spec(
                view_opt_str(home),
                view_opt_str(userprofile),
                view_opt_str(homedrive),
                view_opt_str(homepath),
            ),
        ) + opt_path_seq(system_gitconfig_spec(windows, view_opt_str(windows_config))),
{
    let ghost user_spec = user_gitconfig_spec(
        view_opt_str(home),
        view_opt_str(userprofile),
        view_opt_str(homedrive),
        view_opt_str(homepath),
    );
    let ghost system_spec = system_gitconfig_spec(windows, view_opt_str(windows_config));
    let user = get_user_gitconfig_path(home, userprofile, homedrive, homepath);
    let system = get_system_gitconfig_path(windows, windows_config);
    let mut r: Vec<String> = Vec::new();
    match user {
        Some(p) => {
            r.push(p);
        },
        None => {},
    }
    match system {
        Some(p) => {
            r.push(p);
        },
        None => {},
    }
    proof {
        assert(r@.map_values(|p: String| p@) =~= opt_path_seq(user_spec) + opt_path_seq(
            system_spec,
        ));
    }
    r
}

} // verus!
