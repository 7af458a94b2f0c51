use vstd::prelude::*;

use crate::datetime::datetime_format_spec;
use crate::datetime::is_valid_datetime_format;
use crate::errors::Error;
use crate::errors::Result;
use crate::strutil::chars_of;
use crate::strutil::find_char;
use crate::strutil::is_digit_char;
use crate::strutil::lex_lt;
use crate::strutil::lex_lt_spec;
use crate::strutil::rfind_char;
use crate::strutil::trim_chars;
use crate::strutil::trim_spec;
use crate::types::Args;
use crate::types::keep_original_marker;

verus! {

pub open spec fn is_alpha_char(c: char) -> bool {
    ('A' <= c && c <= 'Z') || ('a' <= c && c <= 'z')
}

pub open spec fn is_alnum_char(c: char) -> bool {
    is_alpha_char(c) || is_digit_char(c)
}

/// The characters allowed before the `@` of an accepted address.
pub open spec fn is_local_char(c: char) -> bool {
    is_alnum_char(c) || c == '.' || c == '_' || c == '%' || c == '+' || c == '-'
}

/// The characters allowed in the host part, before its final dot.
pub open spec fn is_host_char(c: char) -> bool {
    is_alnum_char(c) || c == '.' || c == '-'
}

fn is_alpha(c: char) -> (r: bool)
    ensures
        r == is_alpha_char(c),
{
    ('A' <= c && c <= 'Z') || ('a' <= c && c <= 'z')
}

fn is_local(c: char) -> (r: bool)
    ensures
        r == is_local_char(c),
{
    is_alpha(c) || ('0' <= c && c <= '9') || c == '.' || c == '_' || c == '%' || c == '+' || c
        == '-'
}

fn is_host(c: char) -> (r: bool)
    ensures
        r == is_host_char(c),
{
    is_alpha(c) || ('0' <= c && c <= '9') || c == '.' || c == '-'
}

/// A host is a nonempty run of host characters, a dot, and at least two
/// letters, nothing more.
pub open spec fn valid_host(h: Seq<char>) -> bool {
    exists|dot: int|
        1 <= dot <= h.len() - 3 && #[trigger] h[dot] == '.' && (forall|j: int|
            0 <= j < dot ==> is_host_char(#[trigger] h[j])) && (forall|j: int|
            dot < j < h.len() ==> is_alpha_char(#[trigger] h[j]))
}

/// An accepted address: a nonempty run of local characters, one `@`, and a
/// valid host, nothing more.
pub open spec fn valid_email(s: Seq<char>) -> bool {
    exists|at: int|
        1 <= at < s.len() && #[trigger] s[at] == '@' && (forall|j: int|
            0 <= j < at ==> is_local_char(#[trigger] s[j])) && valid_host(
            s.subrange(at + 1, s.len() as int),
        )
}

/// Whether a string is an address the full rewrite accepts.
pub fn is_valid_email(email: &str) -> (r: bool)
    ensures
        r == valid_email(email@),
{
    let v = chars_of(email);
    let n = v.len();
    let at = match find_char(&v, '@') {
        Some(i) => i,
        None => {
            proof {
                if valid_email(v@) {
                    let a = email_witness(v@);
                    assert(v@[a] == '@');
                }
            }
            return false;
        },
    };
    if at == 0 {
        proof {
            if valid_email(v@) {
                let a = email_witness(v@);
                assert(is_local_char(v@[0]));
            }
        }
        return false;
    }
    // every character before the first `@` must be a local character
    let mut i: usize = 0;
    while i < at
        invariant
            v@ == email@,
            at < v@.len(),
            at >= 1,
            v@[at as int] == '@',
            forall|j: int| 0 <= j < at ==> v@[j] != '@',
            i <= at,
            forall|j: int| 0 <= j < i ==> is_local_char(#[trigger] v@[j]),
        decreases at - i,
    {
        if !is_local(v[i]) {
            proof {
                let bad = i as int;
                if valid_email(v@) {
                    let a = email_witness(v@);
                    if a < at {
                        assert(v@[a] != '@');
                        assert(false);
                    } else if a == at {
                        assert(is_local_char(v@[bad]));
                        assert(false);
                    } else {
                        assert(is_local_char(v@[at as int]));
                        assert(!is_local_char('@'));
                        assert(false);
                    }
                }
            }
            return false;
        }
        i = i + 1;
    }
    // the host part
    let mut host: Vec<char> = Vec::new();
    let mut k: usize = at + 1;
    while k < n
        invariant
            v@ == email@,
            at < n,
            at >= 1,
            n == v@.len(),
            v@[at as int] == '@',
            forall|j: int| 0 <= j < at ==> v@[j] != '@',
            forall|j: int| 0 <= j < at ==> is_local_char(#[trigger] v@[j]),
            at + 1 <= k <= n,
            host@ == v@.subrange(at + 1, k as int),
        decreases n - k,
    {
        host.push(v[k]);
        k = k + 1;
        assert(host@ =~= v@.subrange(at + 1, k as int));
    }
    assert(host@ =~= v@.subrange(at + 1, n as int));
    let hlen = host.len();
    // the witness `@` can only be the first one: anything before a witness
    // is a local character, and `@` is not one
    proof {
        if valid_email(v@) {
            let a = email_witness(v@);
            if a < at {
                assert(v@[a] != '@');
            }
            if a > at {
                assert(is_local_char(v@[at as int]));
                assert(!is_local_char('@'));
            }
            assert(a == at as int);
            assert(valid_host(host@));
        }
    }
    let dot = match rfind_char(&host, '.') {
        Some(d) => d,
        None => {
            proof {
                if valid_host(host@) {
                    let d = host_witness(host@);
                    assert(host@[d] == '.');
                }
            }
            proof {
                if valid_email(v@) {
                    assert(valid_host(host@));
                }
            }
            return false;
        },
    };
    // the witness dot can only be the last one: everything after a witness
    // is a letter, and a later dot is not one
    if dot < 1 || hlen < 4 || dot > hlen - 3 {
        proof {
            if valid_host(host@) {
                let d = host_witness(host@);
                if d < dot {
                    assert(is_alpha_char(host@[dot as int]));
                    assert(!is_alpha_char('.'));
                }
                if d > dot {
                    assert(host@[d] != '.');
                }
                assert(d == dot as int);
            }
            if valid_email(v@) {
                assert(valid_host(host@));
            }
        }
        return false;
    }
    let mut j: usize = 0;
    while j < dot
        invariant
            v@ == email@,
            valid_email(v@) ==> valid_host(host@),
            1 <= dot < host@.len(),
            host@.len() >= 4,
            dot <= host@.len() - 3,
            host@[dot as int] == '.',
            forall|u: int| dot < u < host@.len() ==> host@[u] != '.',
            j <= dot,
            forall|t: int| 0 <= t < j ==> is_host_char(#[trigger] host@[t]),
        decreases dot - j,
    {
        if !is_host(host[j]) {
            proof {
                let bad = j as int;
                if valid_host(host@) {
                    let d = host_witness(host@);
                    if d < dot {
                        assert(is_alpha_char(host@[dot as int]));
                        assert(!is_alpha_char('.'));
                        assert(false);
                    }
                    if d > dot {
                        assert(host@[d] != '.');
                        assert(false);
                    }
                    assert(d == dot as int);
                    assert(is_host_char(host@[bad]));
                    assert(false);
                }
            }
            return false;
        }
        j = j + 1;
    }
    let mut t: usize = dot + 1;
    while t < hlen
        invariant
            v@ == email@,
            valid_email(v@) ==> valid_host(host@),
            1 <= dot < hlen,
            hlen == host@.len(),
            hlen >= 4,
            dot <= hlen - 3,
            host@[dot as int] == '.',
            forall|u: int| dot < u < host@.len() ==> host@[u] != '.',
            forall|u: int| 0 <= u < dot ==> is_host_char(#[trigger] host@[u]),
            dot + 1 <= t <= hlen,
            forall|u: int| dot < u < t ==> is_alpha_char(#[trigger] host@[u]),
        decreases hlen - t,
    {
        if !is_alpha(host[t]) {
            proof {
                let bad = t as int;
                if valid_host(host@) {
                    let d = host_witness(host@);
                    if d < dot {
                        assert(is_alpha_char(host@[dot as int]));
                        assert(!is_alpha_char('.'));
                        assert(false);
                    }
                    if d > dot {
                        assert(host@[d] != '.');
                        assert(false);
                    }
                    assert(d == dot as int);
                    assert(is_alpha_char(host@[bad]));
                    assert(false);
                }
            }
            return false;
        }
        t = t + 1;
    }
    proof {
        let d = dot as int;
        assert(1 <= d <= host@.len() - 3 && host@[d] == '.' && (forall|u: int|
            0 <= u < d ==> is_host_char(#[trigger] host@[u])) && (forall|u: int|
            d < u < host@.len() ==> is_alpha_char(#[trigger] host@[u])));
        assert(valid_host(host@));
        let a = at as int;
        assert(1 <= a < v@.len() && v@[a] == '@' && (forall|u: int|
            0 <= u < a ==> is_local_char(#[trigger] v@[u])) && valid_host(
            v@.subrange(a + 1, v@.len() as int),
        ));
    }
    true
}

/// The position of the `@` of an accepted address.
proof fn email_witness(s: Seq<char>) -> (a: int)
    requires
        valid_email(s),
    ensures
        1 <= a < s.len(),
        s[a] == '@',
        forall|j: int| 0 <= j < a ==> is_local_char(#[trigger] s[j]),
        valid_host(s.subrange(a + 1, s.len() as int)),
{
    choose|a: int|
        1 <= a < s.len() && #[trigger] s[a] == '@' && (forall|j: int|
            0 <= j < a ==> is_local_char(#[trigger] s[j])) && valid_host(
            s.subrange(a + 1, s.len() as int),
        )
}

/// The position of the final dot of an accepted host.
proof fn host_witness(h: Seq<char>) -> (d: int)
    requires
        valid_host(h),
    ensures
        1 <= d <= h.len() - 3,
        h[d] == '.',
        forall|j: int| 0 <= j < d ==> is_host_char(#[trigger] h[j]),
        forall|j: int| d < j < h.len() ==> is_alpha_char(#[trigger] h[j]),
{
    choose|d: int|
        1 <= d <= h.len() - 3 && #[trigger] h[d] == '.' && (forall|j: int|
            0 <= j < d ==> is_host_char(#[trigger] h[j])) && (forall|j: int|
            d < j < h.len() ==> is_alpha_char(#[trigger] h[j]))
}

/// What the path-inspection layer found out about the configured
/// repository location.
#[derive(Debug, Clone, Copy, PartialEq, Eq, Structural)]
pub struct RepoPathStatus {
    /// The location parses as a URL.
    pub is_url: bool,
    /// A file-system entry exists at the location.
    pub exists: bool,
    /// That entry is a directory.
    pub is_dir: bool,
    /// The directory holds a repository marker.
    pub has_git_dir: bool,
}

/// Checks the operator's inputs before any mutation: the repository
/// location must name something usable, and a full rewrite additionally
/// needs a well-formed address, a nonblank name, and an ordered pair of
/// well-formed dates (unless the keep-original sentinel stands in for
/// them). The browsing, picking, range and simulation modes need only the
/// repository checks.
pub fn validate_inputs(args: &Args, repo: &RepoPathStatus) -> (r: Result<()>)
    requires
        args.repo_path is Some,
        !(args.show_history || args.pick_specific_commits || args.range || args.simulate)
            ==> args.email is Some && args.name is Some && args.start is Some && args.end
            is Some,
    ensures
        ({
            let path = args.repo_path->0@;
            let skip_identity = args.show_history || args.pick_specific_commits || args.range
                || args.simulate;
            match r {
                Ok(()) => {
                    &&& path.len() > 0
                    &&& (repo.is_url || repo.exists)
                    &&& (repo.exists ==> repo.is_dir && repo.has_git_dir)
                    &&& (!skip_identity ==> {
                        let email = args.email->0@;
                        let name = args.name->0@;
                        let start = args.start->0@;
                        let end = args.end->0@;
                        &&& valid_email(email)
                        &&& trim_spec(name).len() > 0
                        &&& (start != keep_original_marker() ==> datetime_format_spec(start))
                        &&& (end != keep_original_marker() ==> datetime_format_spec(end))
                        &&& (start != keep_original_marker() && end != keep_original_marker()
                            ==> lex_lt_spec(start, end))
                    })
                },
                Err(e) => e matches Error::InputValidation(m) && (if path.len() == 0 {
                    m@ == "Repository path cannot be empty"@
                } else if !repo.is_url && !repo.exists {
                    m@ == "Invalid repository path or URL"@
                } else if repo.exists && !repo.is_dir {
                    m@ == "Repository path is not a directory"@
                } else if repo.exists && !repo.has_git_dir {
                    m@ == "Repository path does not contain a valid Git repository"@
                } else {
                    !skip_identity && {
                        let email = args.email->0@;
                        let name = args.name->0@;
                        let start = args.start->0@;
                        let end = args.end->0@;
                        if !valid_email(email) {
                            m@ == "Invalid email format"@
                        } else if trim_spec(name).len() == 0 {
                            m@ == "Name cannot be empty"@
                        } else if start != keep_original_marker() && !datetime_format_spec(
                            start,
                        ) {
                            m@ == "Invalid start date format (expected YYYY-MM-DD HH:MM:SS)"@
                        } else if end != keep_original_marker() && !datetime_format_spec(end) {
                            m@ == "Invalid end date format (expected YYYY-MM-DD HH:MM:SS)"@
                        } else {
                            start != keep_original_marker() && end != keep_original_marker()
                                && !lex_lt_spec(start, end) && m@
                                == "Start date must be before end date"@
                        }
                    }
                }),
            }
        }),
{
    let path = match &args.repo_path {
        Some(p) => p,
        None => {
            return Err(Error::InputValidation(String::from_str("Repository path cannot be empty")));
        },
    };
    if path.as_str().unicode_len() == 0 {
        return Err(Error::InputValidation(String::from_str("Repository path cannot be empty")));
    }
    if !repo.is_url && !repo.exists {
        return Err(Error::InputValidation(String::from_str("Invalid repository path or URL")));
    }
    if repo.exists {
        if !repo.is_dir {
            return Err(
                Error::InputValidation(String::from_str("Repository path is not a directory")),
            );
        }
        if !repo.has_git_dir {
            return Err(
                Error::InputValidation(
                    String::from_str("Repository path does not contain a valid Git repository"),
                ),
            );
        }
    }
    if args.show_history || args.pick_specific_commits || args.range || args.simulate {
        return Ok(());
    }
    let email = match &args.email {
        Some(e) => e,
        None => {
            return Err(Error::InputValidation(String::from_str("Invalid email format")));
        },
    };
    let name = match &args.name {
        Some(n) => n,
        None => {
            return Err(Error::InputValidation(String::from_str("Name cannot be empty")));
        },
    };
    let start = match &args.start {
        Some(s) => s,
        None => {
            return Err(Error::InputValidation(String::from_str("Invalid start date format (expected YYYY-MM-DD HH:MM:SS)")));
        },
    };
    let end = match &args.end {
        Some(s) => s,
        None => {
            return Err(Error::InputValidation(String::from_str("Invalid end date format (expected YYYY-MM-DD HH:MM:SS)")));
        },
    };
    if !is_valid_email(email.as_str()) {
        return Err(Error::InputValidation(String::from_str("Invalid email format")));
    }
    let name_chars = chars_of(name.as_str());
    let name_trimmed = trim_chars(&name_chars);
    if name_trimmed.len() == 0 {
        return Err(Error::InputValidation(String::from_str("Name cannot be empty")));
    }
    let marker = String::from_str("KEEP_ORIGINAL");
    let start_keeps = start.eq(&marker);
    let end_keeps = end.eq(&marker);
    let start_chars = chars_of(start.as_str());
    let end_chars = chars_of(end.as_str());
    if !start_keeps {
        if !is_valid_datetime_format(&start_chars) {
            return Err(
                Error::InputValidation(
                    String::from_str("Invalid start date format (expected YYYY-MM-DD HH:MM:SS)"),
                ),
            );
        }
    }
    if !end_keeps {
        if !is_valid_datetime_format(&end_chars) {
            return Err(
                Error::InputValidation(
                    String::from_str("Invalid end date format (expected YYYY-MM-DD HH:MM:SS)"),
                ),
            );
        }
    }
    if !start_keeps && !end_keeps {
        if !lex_lt(&start_chars, &end_chars) {
            return Err(
                Error::InputValidation(String::from_str("Start date must be before end date")),
            );
        }
    }
    Ok(())
}

} // verus!
