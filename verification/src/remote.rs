use vstd::prelude::*;

use crate::strutil::chars_of;
use crate::strutil::chars_to_string;
use crate::strutil::rfind_char;
use crate::strutil::split_char;
use crate::strutil::split_spec;

verus! {

/// A location with every trailing repository suffix removed, as repeated
/// suffix-trimming leaves it.
pub open spec fn strip_git_suffix(s: Seq<char>) -> Seq<char>
    decreases s.len(),
{
    if s.len() >= 4 && s.subrange(s.len() - 4, s.len() as int) == ".git"@ {
        strip_git_suffix(s.take(s.len() - 4))
    } else {
        s
    }
}

/// The position of the last `c` in `s`, or `-1`.
pub open spec fn last_index_of(s: Seq<char>, c: char) -> int
    decreases s.len(),
{
    if s.len() == 0 {
        -1
    } else if s.last() == c {
        s.len() - 1
    } else {
        last_index_of(s.drop_last(), c)
    }
}

proof fn lemma_last_index_of(s: Seq<char>, c: char)
    ensures
        ({
            let r = last_index_of(s, c);
            &&& r >= -1
            &&& if r < 0 {
                forall|j: int| 0 <= j < s.len() ==> s[j] != c
            } else {
                0 <= r < s.len() && s[r] == c && forall|j: int| r < j < s.len() ==> s[j] != c
            }
        }),
    decreases s.len(),
{
    if s.len() > 0 && s.last() != c {
        let d = s.drop_last();
        lemma_last_index_of(d, c);
        let rd = last_index_of(d, c);
        assert(forall|j: int| 0 <= j < d.len() ==> #[trigger] d[j] == s[j]);
        if rd < 0 {
            assert forall|j: int| 0 <= j < s.len() implies s[j] != c by {
                if j < s.len() - 1 {
                    assert(d[j] == s[j]);
                }
            }
        } else {
            assert(s[rd] == d[rd]);
            assert forall|j: int| rd < j < s.len() implies s[j] != c by {
                if j < s.len() - 1 {
                    assert(d[j] == s[j]);
                }
            }
        }
    }
}

/// The path component that URL parsing reads out of a location, or `None`
/// where the location does not parse as a URL.
pub uninterp spec fn url_path_of(s: Seq<char>) -> Option<Seq<char>>;

/// Relies on `url::Url::parse` and `Url::path`: the path of a parsed URL,
/// `None` on a parse error. The result depends on the location text alone.
#[verifier::external_body]
fn url_path(s: &str) -> (r: Option<String>)
    ensures
        (r is Some) == (url_path_of(s@) is Some),
        r is Some ==> Some(r->0@) == url_path_of(s@),
{
    match url::Url::parse(s) {
        Ok(u) => Some(u.path().to_string()),
        Err(_) => None,
    }
}

/// Removes every trailing repository suffix from a location.
pub fn normalize_git_url(url: &str) -> (r: String)
    ensures
        r@ == strip_git_suffix(url@),
{
    let v = chars_of(url);
    let mut e = v.len();
    proof {
        assert(v@.take(e as int) =~= v@);
    }
    while e >= 4 && v[e - 1] == 't' && v[e - 2] == 'i' && v[e - 3] == 'g' && v[e - 4] == '.'
        invariant
            e <= v@.len(),
            strip_git_suffix(url@) == strip_git_suffix(v@.take(e as int)),
        decreases e,
    {
        proof {
            reveal_strlit(".git");
            let cur = v@.take(e as int);
            assert(cur.subrange(e - 4, e as int) =~= ".git"@);
            assert(cur.take(e - 4) =~= v@.take(e - 4));
        }
        e = e - 4;
    }
    proof {
        reveal_strlit(".git");
        assert(".git"@[0] == '.' && ".git"@[1] == 'g' && ".git"@[2] == 'i' && ".git"@[3]
            == 't');
        let cur = v@.take(e as int);
        if cur.len() >= 4 && cur.subrange(e - 4, e as int) == ".git"@ {
            let tail = cur.subrange(e - 4, e as int);
            assert(tail[0] == cur[e - 4] && tail[1] == cur[e - 3] && tail[2] == cur[e - 2]
                && tail[3] == cur[e - 1]);
            assert(cur[e - 1] == 't' && cur[e - 2] == 'i' && cur[e - 3] == 'g' && cur[e - 4]
                == '.');
            assert(cur[e - 1] == v@[e - 1] && cur[e - 2] == v@[e - 2] && cur[e - 3] == v@[e - 3]
                && cur[e - 4] == v@[e - 4]);
        }
        assert(strip_git_suffix(cur) == cur);
    }
    let mut out: Vec<char> = Vec::new();
    let mut i: usize = 0;
    while i < e
        invariant
            e <= v@.len(),
            i <= e,
            out@ == v@.take(i as int),
        decreases e - i,
    {
        out.push(v[i]);
        i = i + 1;
        assert(out@ =~= v@.take(i as int));
    }
    chars_to_string(&out)
}

/// The display name of a suffix-stripped location: for a parsed URL, its
/// last two path segments joined by a slash (or the single one); for a
/// location that is no URL, the text after the last colon, or the last
/// slash-separated piece.
pub open spec fn repo_name_spec(s: Seq<char>) -> Seq<char> {
    let norm = strip_git_suffix(s);
    match url_path_of(norm) {
        Some(p) => {
            let parts = split_spec(p, '/');
            let segs = if p.len() > 0 && p[0] == '/' {
                parts.drop_first()
            } else {
                parts
            };
            if segs.len() >= 2 {
                segs[segs.len() - 2] + seq!['/'] + segs[segs.len() - 1]
            } else if segs.len() == 1 {
                segs[0]
            } else {
                Seq::empty()
            }
        },
        None => {
            let lc = last_index_of(norm, ':');
            if lc >= 0 {
                norm.subrange(lc + 1, norm.len() as int)
            } else {
                norm.subrange(last_index_of(norm, '/') + 1, norm.len() as int)
            }
        },
    }
}

/// A short display name for a remote repository location.
pub fn get_repo_name_from_url(git_url: &str) -> (r: String)
    ensures
        r@ == repo_name_spec(git_url@),
{
    let normalized = normalize_git_url(git_url);
    match url_path(normalized.as_str()) {
        Some(path) => {
            let p = chars_of(path.as_str());
            let parts = split_char(&p, '/');
            let skip_first: usize = if p.len() > 0 && p[0] == '/' {
                1
            } else {
                0
            };
            let n = parts.len();
            let ghost segs = if p@.len() > 0 && p@[0] == '/' {
                split_spec(p@, '/').drop_first()
            } else {
                split_spec(p@, '/')
            };
            proof {
                assert(segs.len() == n - skip_first);
            }
            if n - skip_first >= 2 {
                let a = &parts[n - 2];
                let b = &parts[n - 1];
                let mut out: Vec<char> = Vec::new();
                let la = a.len();
                let mut i: usize = 0;
                while i < la
                    invariant
                        la == a@.len(),
                        i <= la,
                        out@ == a@.take(i as int),
                    decreases la - i,
                {
                    out.push(a[i]);
                    i = i + 1;
                    assert(out@ =~= a@.take(i as int));
                }
                assert(out@ =~= a@);
                out.push('/');
                let lb = b.len();
                let mut k: usize = 0;
                while k < lb
                    invariant
                        lb == b@.len(),
                        k <= lb,
                        out@ == a@ + seq!['/'] + b@.take(k as int),
                    decreases lb - k,
                {
                    out.push(b[k]);
                    k = k + 1;
                    assert(out@ =~= a@ + seq!['/'] + b@.take(k as int));
                }
                proof {
                    assert(out@ =~= a@ + seq!['/'] + b@);
                    assert(a@ == segs[segs.len() - 2]);
                    assert(b@ == segs[segs.len() - 1]);
                }
                chars_to_string(&out)
            } else if n - skip_first == 1 {
                proof {
                    assert(parts@[n - 1]@ == segs[segs.len() - 1]);
                }
                chars_to_string(&parts[n - 1])
            } else {
                proof {
                    assert(segs.len() == 0);
                }
                String::new()
            }
        },
        None => {
            let norm_chars = chars_of(normalized.as_str());
            let ghost norm = normalized@;
            proof {
                lemma_last_index_of(norm, ':');
            }
            match rfind_char(&norm_chars, ':') {
                Some(c) => {
                    proof {
                        let lc = last_index_of(norm, ':');
                        // the found position and the spec's last index carry
                        // the same one-sided characterization, so they agree
                        assert(lc >= 0) by {
                            if lc < 0 {
                                assert(norm[c as int] != ':');
                            }
                        }
                        if lc < c as int {
                            assert(norm[c as int] != ':');
                        }
                        if lc > c as int {
                            assert(norm[lc] != ':');
                        }
                        assert(lc == c as int);
                    }
                    let mut out: Vec<char> = Vec::new();
                    let n = norm_chars.len();
                    let mut i: usize = c + 1;
                    while i < n
                        invariant
                            c < n,
                            n == norm_chars@.len(),
                            c + 1 <= i <= n,
                            out@ == norm_chars@.subrange(c + 1, i as int),
                        decreases n - i,
                    {
                        out.push(norm_chars[i]);
                        i = i + 1;
                        assert(out@ =~= norm_chars@.subrange(c + 1, i as int));
                    }
                    assert(out@ =~= norm_chars@.subrange(c + 1, n as int));
                    chars_to_string(&out)
                },
                None => {
                    proof {
                        let lc = last_index_of(norm, ':');
                        if lc >= 0 {
                            assert(norm[lc] != ':');
                        }
                        lemma_last_index_of(norm, '/');
                    }
                    match rfind_char(&norm_chars, '/') {
                        Some(sl) => {
                            proof {
                                let ls = last_index_of(norm, '/');
                                assert(ls >= 0) by {
                                    if ls < 0 {
                                        assert(norm[sl as int] != '/');
                                    }
                                }
                                if ls < sl as int {
                                    assert(norm[sl as int] != '/');
                                }
                                if ls > sl as int {
                                    assert(norm[ls] != '/');
                                }
                                assert(ls == sl as int);
                            }
                            let mut out: Vec<char> = Vec::new();
                            let n = norm_chars.len();
                            let mut i: usize = sl + 1;
                            while i < n
                                invariant
                                    sl < n,
                                    n == norm_chars@.len(),
                                    sl + 1 <= i <= n,
                                    out@ == norm_chars@.subrange(sl + 1, i as int),
                                decreases n - i,
                            {
                                out.push(norm_chars[i]);
                                i = i + 1;
                                assert(out@ =~= norm_chars@.subrange(sl + 1, i as int));
                            }
                            assert(out@ =~= norm_chars@.subrange(sl + 1, n as int));
                            chars_to_string(&out)
                        },
                        None => {
                            proof {
                                let ls = last_index_of(norm, '/');
                                if ls >= 0 {
                                    assert(norm[ls] != '/');
                                }
                                assert(norm.subrange(ls + 1, norm.len() as int) =~= norm);
                            }
                            normalized
                        },
                    }
                },
            }
        },
    }
}

} // verus!
