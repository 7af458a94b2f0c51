use vstd::prelude::*;

verus! {

// ---------------------------------------------------------------------------
// Character classes
// ---------------------------------------------------------------------------

/// ASCII whitespace, the class that the library's trimming removes.
pub open spec fn is_space_char(c: char) -> bool {
    c == ' ' || c == '\t' || c == '\r' || c == '\n'
}

pub fn is_space(c: char) -> (r: bool)
    ensures
        r == is_space_char(c),
{
    c == ' ' || c == '\t' || c == '\r' || c == '\n'
}

pub open spec fn is_digit_char(c: char) -> bool {
    '0' <= c && c <= '9'
}

pub fn is_digit(c: char) -> (r: bool)
    ensures
        r == is_digit_char(c),
{
    '0' <= c && c <= '9'
}

/// The lower-case image of an ASCII letter; other characters map to themselves.
pub open spec fn lower_char(c: char) -> char {
    if 'A' <= c && c <= 'Z' {
        (c as u32 + 32) as char
    } else {
        c
    }
}

/// Case-insensitive equality of two characters, ASCII letters only.
pub open spec fn eq_char_nocase(a: char, b: char) -> bool {
    lower_char(a) == lower_char(b)
}

pub fn chars_eq_nocase(a: char, b: char) -> (r: bool)
    ensures
        r == eq_char_nocase(a, b),
{
    if a == b {
        true
    } else if 'A' <= a && a <= 'Z' && b as u32 == a as u32 + 32 {
        assert(lower_char(a) == b && lower_char(b) == b);
        true
    } else if 'A' <= b && b <= 'Z' && a as u32 == b as u32 + 32 {
        assert(lower_char(b) == a && lower_char(a) == a);
        true
    } else {
        assert(lower_char(a) != lower_char(b)) by {
            if 'A' <= a && a <= 'Z' {
                assert(lower_char(a) == (a as u32 + 32) as char);
            }
            if 'A' <= b && b <= 'Z' {
                assert(lower_char(b) == (b as u32 + 32) as char);
            }
        }
        false
    }
}

// ---------------------------------------------------------------------------
// Conversions between `&str`/`String` and `Vec<char>`
// ---------------------------------------------------------------------------

/// Collects the characters of a string slice into a vector for O(1) indexing.
pub fn chars_of(s: &str) -> (r: Vec<char>)
    ensures
        r@ == s@,
{
    let n = s.unicode_len();
    let mut r: Vec<char> = Vec::new();
    let mut i: usize = 0;
    while i < n
        invariant
            n == s@.len(),
            i <= n,
            r@ == s@.take(i as int),
        decreases n - i,
    {
        r.push(s.get_char(i));
        i = i + 1;
        assert(r@ =~= s@.take(i as int));
    }
    assert(r@ =~= s@);
    r
}

/// Relies on `core::iter::Iterator::collect` building a `String` from the
/// characters of the vector, in order.
#[verifier::external_body]
pub fn chars_to_string(v: &Vec<char>) -> (r: String)
    ensures
        r@ == v@,
{
    v.iter().collect()
}

/// Character-wise equality between a vector of characters and a string slice.
pub fn chars_eq_str(v: &Vec<char>, s: &str) -> (r: bool)
    ensures
        r == (v@ == s@),
{
    let n = s.unicode_len();
    if v.len() != n {
        assert(v@ != s@);
        return false;
    }
    let mut i: usize = 0;
    while i < n
        invariant
            n == s@.len(),
            v@.len() == n,
            i <= n,
            forall|j: int| 0 <= j < i ==> v@[j] == s@[j],
        decreases n - i,
    {
        if v[i] != s.get_char(i) {
            return false;
        }
        i = i + 1;
    }
    assert(v@ =~= s@);
    true
}

// ---------------------------------------------------------------------------
// Trimming
// ---------------------------------------------------------------------------

pub open spec fn trim_front_spec(s: Seq<char>) -> Seq<char>
    decreases s.len(),
{
    if s.len() == 0 {
        s
    } else if is_space_char(s[0]) {
        trim_front_spec(s.drop_first())
    } else {
        s
    }
}

pub open spec fn trim_back_spec(s: Seq<char>) -> Seq<char>
    decreases s.len(),
{
    if s.len() == 0 {
        s
    } else if is_space_char(s.last()) {
        trim_back_spec(s.drop_last())
    } else {
        s
    }
}

/// What `str::trim` leaves of a string whose whitespace is ASCII.
pub open spec fn trim_spec(s: Seq<char>) -> Seq<char> {
    trim_back_spec(trim_front_spec(s))
}

proof fn lemma_trim_front_subrange(s: Seq<char>, i: int)
    requires
        0 <= i <= s.len(),
        forall|j: int| 0 <= j < i ==> is_space_char(s[j]),
    ensures
        trim_front_spec(s) == trim_front_spec(s.subrange(i, s.len() as int)),
    decreases i,
{
    if i > 0 {
        assert(trim_front_spec(s) == trim_front_spec(s.drop_first()));
        let d = s.drop_first();
        assert(forall|j: int| 0 <= j < i - 1 ==> is_space_char(#[trigger] d[j]));
        lemma_trim_front_subrange(d, i - 1);
        assert(d.subrange(i - 1, d.len() as int) =~= s.subrange(i, s.len() as int));
    } else {
        assert(s.subrange(0, s.len() as int) =~= s);
    }
}

proof fn lemma_trim_back_subrange(s: Seq<char>, j: int)
    requires
        0 <= j <= s.len(),
        forall|k: int| j <= k < s.len() ==> is_space_char(s[k]),
    ensures
        trim_back_spec(s) == trim_back_spec(s.subrange(0, j)),
    decreases s.len() - j,
{
    if j < s.len() {
        assert(is_space_char(s.last()));
        assert(trim_back_spec(s) == trim_back_spec(s.drop_last()));
        let d = s.drop_last();
        assert(forall|k: int| j <= k < d.len() ==> is_space_char(#[trigger] d[k]));
        lemma_trim_back_subrange(d, j);
        assert(d.subrange(0, j) =~= s.subrange(0, j));
    } else {
        assert(s.subrange(0, s.len() as int) =~= s);
    }
}

/// Removes leading and trailing ASCII whitespace.
pub fn trim_chars(v: &Vec<char>) -> (r: Vec<char>)
    ensures
        r@ == trim_spec(v@),
{
    let n = v.len();
    let mut i: usize = 0;
    while i < n && is_space(v[i])
        invariant
            n == v@.len(),
            i <= n,
            forall|j: int| 0 <= j < i ==> is_space_char(v@[j]),
        decreases n - i,
    {
        i = i + 1;
    }
    proof {
        lemma_trim_front_subrange(v@, i as int);
    }
    let ghost front = v@.subrange(i as int, n as int);
    assert(trim_front_spec(v@) == trim_front_spec(front));
    assert(i < n ==> !is_space_char(front[0]));
    assert(trim_front_spec(front) == front);

    let mut j: usize = n;
    while j > i && is_space(v[j - 1])
        invariant
            n == v@.len(),
            i <= j <= n,
            forall|k: int| j <= k < n ==> is_space_char(v@[k]),
        decreases j,
    {
        j = j - 1;
    }
    proof {
        let sub = v@.subrange(i as int, j as int);
        assert(forall|k: int| j - i <= k < front.len() ==> is_space_char(#[trigger] front[k]));
        lemma_trim_back_subrange(front, j - i);
        assert(front.subrange(0, j - i) =~= sub);
        assert(j > i ==> !is_space_char(sub.last()));
        assert(trim_back_spec(sub) == sub);
    }
    let mut r: Vec<char> = Vec::new();
    let mut k: usize = i;
    while k < j
        invariant
            i <= k <= j <= n,
            n == v@.len(),
            r@ == v@.subrange(i as int, k as int),
        decreases j - k,
    {
        r.push(v[k]);
        k = k + 1;
        assert(r@ =~= v@.subrange(i as int, k as int));
    }
    assert(r@ =~= v@.subrange(i as int, j as int));
    r
}

// ---------------------------------------------------------------------------
// Searching
// ---------------------------------------------------------------------------

/// Index of the first occurrence of `c`.
pub fn find_char(v: &Vec<char>, c: char) -> (r: Option<usize>)
    ensures
        match r {
            Some(i) => i < v@.len() && v@[i as int] == c && forall|j: int|
                0 <= j < i ==> v@[j] != c,
            None => forall|j: int| 0 <= j < v@.len() ==> v@[j] != c,
        },
{
    let n = v.len();
    let mut i: usize = 0;
    while i < n
        invariant
            n == v@.len(),
            i <= n,
            forall|j: int| 0 <= j < i ==> v@[j] != c,
        decreases n - i,
    {
        if v[i] == c {
            return Some(i);
        }
        i = i + 1;
    }
    None
}

/// Index of the last occurrence of `c`.
pub fn rfind_char(v: &Vec<char>, c: char) -> (r: Option<usize>)
    ensures
        match r {
            Some(i) => i < v@.len() && v@[i as int] == c && forall|j: int|
                i < j < v@.len() ==> v@[j] != c,
            None => forall|j: int| 0 <= j < v@.len() ==> v@[j] != c,
        },
{
    let n = v.len();
    let mut i: usize = n;
    while i > 0
        invariant
            n == v@.len(),
            i <= n,
            forall|j: int| i <= j < n ==> v@[j] != c,
        decreases i,
    {
        i = i - 1;
        if v[i] == c {
            return Some(i);
        }
    }
    None
}

pub open spec fn contains_char(s: Seq<char>, c: char) -> bool {
    exists|i: int| 0 <= i < s.len() && s[i] == c
}

pub fn has_char(v: &Vec<char>, c: char) -> (r: bool)
    ensures
        r == contains_char(v@, c),
{
    match find_char(v, c) {
        Some(_) => true,
        None => false,
    }
}

// ---------------------------------------------------------------------------
// Splitting
// ---------------------------------------------------------------------------

/// What `str::split(sep)` yields: the separated pieces, separators removed.
pub open spec fn split_spec(s: Seq<char>, sep: char) -> Seq<Seq<char>>
    decreases s.len(),
{
    if s.len() == 0 {
        seq![Seq::<char>::empty()]
    } else if s[0] == sep {
        seq![Seq::<char>::empty()] + split_spec(s.drop_first(), sep)
    } else {
        let rest = split_spec(s.drop_first(), sep);
        seq![seq![s[0]] + rest[0]] + rest.drop_first()
    }
}

pub proof fn lemma_split_len_pos(s: Seq<char>, sep: char)
    ensures
        split_spec(s, sep).len() >= 1,
    decreases s.len(),
{
    if s.len() > 0 {
        lemma_split_len_pos(s.drop_first(), sep);
    }
}

/// Splitting at the first separator: the prefix becomes the head piece and
/// the remainder splits on its own.
proof fn lemma_split_first(s: Seq<char>, sep: char, i: int)
    requires
        0 <= i < s.len(),
        s[i] == sep,
        forall|j: int| 0 <= j < i ==> s[j] != sep,
    ensures
        split_spec(s, sep) == seq![s.subrange(0, i)] + split_spec(
            s.subrange(i + 1, s.len() as int),
            sep,
        ),
    decreases i,
{
    let d = s.drop_first();
    if i == 0 {
        assert(s.subrange(0, 0) =~= Seq::<char>::empty());
        assert(s.subrange(1, s.len() as int) =~= d);
        assert(split_spec(s, sep) =~= seq![s.subrange(0, i)] + split_spec(
            s.subrange(i + 1, s.len() as int),
            sep,
        ));
    } else {
        assert(s[0] != sep);
        assert(d[i - 1] == sep);
        assert(forall|j: int| 0 <= j < i - 1 ==> d[j] != sep);
        lemma_split_first(d, sep, i - 1);
        lemma_split_len_pos(d.subrange(i, d.len() as int), sep);
        let rest = split_spec(d, sep);
        assert(rest[0] == d.subrange(0, i - 1));
        assert(rest.drop_first() =~= split_spec(d.subrange(i, d.len() as int), sep));
        assert(seq![s[0]] + d.subrange(0, i - 1) =~= s.subrange(0, i));
        assert(d.subrange(i, d.len() as int) =~= s.subrange(i + 1, s.len() as int));
        assert(split_spec(s, sep) =~= seq![s.subrange(0, i)] + split_spec(
            s.subrange(i + 1, s.len() as int),
            sep,
        ));
    }
}

/// A string without the separator splits into just itself.
proof fn lemma_split_no_sep(s: Seq<char>, sep: char)
    requires
        forall|j: int| 0 <= j < s.len() ==> s[j] != sep,
    ensures
        split_spec(s, sep) == seq![s],
    decreases s.len(),
{
    if s.len() == 0 {
        assert(Seq::<char>::empty() =~= s);
        assert(split_spec(s, sep) =~= seq![s]);
    } else {
        let d = s.drop_first();
        lemma_split_no_sep(d, sep);
        let rest = split_spec(d, sep);
        assert(rest == seq![d]);
        assert(seq![s[0]] + d =~= s);
        assert(rest.drop_first() =~= Seq::<Seq<char>>::empty());
        assert(split_spec(s, sep) =~= seq![s]);
    }
}

/// Splits on every occurrence of `sep`.
pub fn split_char(v: &Vec<char>, sep: char) -> (r: Vec<Vec<char>>)
    ensures
        r@.len() == split_spec(v@, sep).len(),
        forall|i: int| 0 <= i < r@.len() ==> r@[i]@ == split_spec(v@, sep)[i],
        r@.len() >= 1,
{
    let n = v.len();
    let mut r: Vec<Vec<char>> = Vec::new();
    let mut piece: Vec<char> = Vec::new();
    let mut i: usize = 0;
    let ghost whole = v@;
    let ghost mut rest_start: int = 0;
    proof {
        assert(v@.subrange(0, n as int) =~= whole);
        assert(r@.map_values(|p: Vec<char>| p@) =~= Seq::<Seq<char>>::empty());
        assert(split_spec(whole, sep) =~= r@.map_values(|p: Vec<char>| p@) + split_spec(
            v@.subrange(rest_start, n as int),
            sep,
        ));
    }
    while i < n
        invariant
            n == v@.len(),
            0 <= rest_start <= i <= n,
            piece@ == v@.subrange(rest_start, i as int),
            split_spec(whole, sep) == r@.map_values(|p: Vec<char>| p@) + split_spec(
                v@.subrange(rest_start, n as int),
                sep,
            ),
            forall|j: int| rest_start <= j < i ==> v@[j] != sep,
        decreases n - i,
    {
        let c = v[i];
        if c == sep {
            let ghost old_r = r@;
            let ghost old_piece = piece@;
            proof {
                let rest = v@.subrange(rest_start, n as int);
                let k = i - rest_start;
                assert(rest[k] == sep);
                assert(forall|j: int| 0 <= j < k ==> rest[j] != sep);
                lemma_split_first(rest, sep, k);
                assert(rest.subrange(0, k) =~= v@.subrange(rest_start, i as int));
                assert(rest.subrange(k + 1, rest.len() as int) =~= v@.subrange(
                    i + 1,
                    n as int,
                ));
            }
            let done_piece = piece;
            r.push(done_piece);
            piece = Vec::new();
            proof {
                rest_start = i as int + 1;
                assert(r@.map_values(|p: Vec<char>| p@) =~= old_r.map_values(
                    |p: Vec<char>| p@,
                ).push(old_piece));
                assert(split_spec(whole, sep) =~= r@.map_values(|p: Vec<char>| p@)
                    + split_spec(v@.subrange(rest_start, n as int), sep));
                assert(piece@ =~= v@.subrange(rest_start, rest_start));
            }
        } else {
            piece.push(c);
            assert(piece@ =~= v@.subrange(rest_start, i as int + 1));
        }
        i = i + 1;
        assert(piece@ =~= v@.subrange(rest_start, i as int));
    }
    proof {
        let rest = v@.subrange(rest_start, n as int);
        assert(forall|j: int| 0 <= j < rest.len() ==> rest[j] != sep);
        lemma_split_no_sep(rest, sep);
        assert(piece@ == rest);
    }
    let ghost old_r = r@;
    let last_piece = piece;
    r.push(last_piece);
    proof {
        assert(r@.map_values(|p: Vec<char>| p@) =~= old_r.map_values(|p: Vec<char>| p@).push(
            v@.subrange(rest_start, n as int),
        ));
        let mapped = r@.map_values(|p: Vec<char>| p@);
        assert(split_spec(whole, sep) =~= mapped);
        assert forall|ix: int| 0 <= ix < r@.len() implies r@[ix]@ == split_spec(v@, sep)[ix] by {
            assert(mapped[ix] == r@[ix]@);
        }
    }
    r
}

// ---------------------------------------------------------------------------
// Display helpers
// ---------------------------------------------------------------------------

/// What fits in a cell of `max_width`: the text itself, or its first
/// `max_width - 1` characters with an ellipsis.
pub open spec fn truncate_spec(s: Seq<char>, max_width: int) -> Seq<char> {
    if s.len() > max_width {
        s.take(if max_width >= 1 {
            max_width - 1
        } else {
            0
        }).push('…')
    } else {
        s
    }
}

/// Shortens text to a display width, marking the cut with an ellipsis.
pub fn truncate_text(v: &Vec<char>, max_width: usize) -> (r: Vec<char>)
    ensures
        r@ == truncate_spec(v@, max_width as int),
{
    if v.len() <= max_width {
        let mut r: Vec<char> = Vec::new();
        let n = v.len();
        let mut i: usize = 0;
        while i < n
            invariant
                n == v@.len(),
                i <= n,
                r@ == v@.take(i as int),
            decreases n - i,
        {
            r.push(v[i]);
            i = i + 1;
            assert(r@ =~= v@.take(i as int));
        }
        assert(r@ =~= v@);
        r
    } else {
        let keep: usize = if max_width >= 1 {
            max_width - 1
        } else {
            0
        };
        let mut r: Vec<char> = Vec::new();
        let mut i: usize = 0;
        while i < keep
            invariant
                keep < v@.len(),
                i <= keep,
                r@ == v@.take(i as int),
            decreases keep - i,
        {
            r.push(v[i]);
            i = i + 1;
            assert(r@ =~= v@.take(i as int));
        }
        r.push('…');
        r
    }
}

/// The first line of a text: everything before the first newline.
pub open spec fn first_line_spec(s: Seq<char>) -> Seq<char> {
    if contains_char(s, '\n') {
        split_spec(s, '\n')[0]
    } else {
        s
    }
}

/// The first line of a message, as the grid displays it.
pub fn first_line(v: &Vec<char>) -> (r: Vec<char>)
    ensures
        r@ == first_line_spec(v@),
{
    let stop: usize = match find_char(v, '\n') {
        Some(i) => i,
        None => v.len(),
    };
    let ghost has_newline = contains_char(v@, '\n');
    proof {
        if has_newline {
            let i = stop as int;
            assert(v@[i] == '\n');
            lemma_split_first(v@, '\n', i);
            assert(split_spec(v@, '\n')[0] == v@.subrange(0, i));
        }
    }
    let mut r: Vec<char> = Vec::new();
    let mut i: usize = 0;
    while i < stop
        invariant
            stop <= v@.len(),
            i <= stop,
            r@ == v@.take(i as int),
        decreases stop - i,
    {
        r.push(v[i]);
        i = i + 1;
        assert(r@ =~= v@.take(i as int));
    }
    proof {
        if has_newline {
            assert(r@ =~= v@.subrange(0, stop as int));
        } else {
            assert(r@ =~= v@);
        }
    }
    r
}

/// A number written in decimal, most significant digit first.
pub fn usize_to_chars(n: usize) -> (r: Vec<char>)
    ensures
        r@.len() > 0,
        all_digits(r@),
        digits_value(r@) == n as int,
    decreases n,
{
    let d: u8 = (n % 10) as u8;
    let c: char = (d + 48) as char;
    assert(is_digit_char(c));
    proof {
        assert(d as int == n as int % 10);
        assert(c as int == d as int + 48);
        assert('0' as int == 48);
        assert(c as int - '0' as int == n as int % 10);
    }
    if n < 10 {
        let mut r: Vec<char> = Vec::new();
        r.push(c);
        assert(r@.drop_last() =~= Seq::<char>::empty());
        assert(digits_value(Seq::<char>::empty()) == 0);
        assert(r@.last() == c);
        assert(digits_value(r@) == digits_value(r@.drop_last()) * 10 + (r@.last() as int
            - '0' as int));
        assert(digits_value(r@) == n as int);
        r
    } else {
        proof {
            vstd::arithmetic::div_mod::lemma_fundamental_div_mod(n as int, 10);
        }
        let mut r = usize_to_chars(n / 10);
        let ghost prefix = r@;
        r.push(c);
        proof {
            assert(r@.drop_last() =~= prefix);
            assert(digits_value(r@) == digits_value(prefix) * 10 + d);
            assert(forall|j: int| 0 <= j < prefix.len() ==> is_digit_char(#[trigger] prefix[j]));
            assert(all_digits(r@));
        }
        r
    }
}

// ---------------------------------------------------------------------------
// Lexicographic comparison
// ---------------------------------------------------------------------------

/// Strict lexicographic order on character sequences, as string comparison
/// gives it: the first differing character decides, a proper prefix comes
/// first.
pub open spec fn lex_lt_spec(a: Seq<char>, b: Seq<char>) -> bool
    decreases a.len(),
{
    if b.len() == 0 {
        false
    } else if a.len() == 0 {
        true
    } else if a[0] != b[0] {
        a[0] < b[0]
    } else {
        lex_lt_spec(a.drop_first(), b.drop_first())
    }
}

proof fn lemma_lex_lt_common_prefix(a: Seq<char>, b: Seq<char>, i: int)
    requires
        0 <= i <= a.len(),
        i <= b.len(),
        forall|j: int| 0 <= j < i ==> a[j] == b[j],
    ensures
        lex_lt_spec(a, b) == lex_lt_spec(
            a.subrange(i, a.len() as int),
            b.subrange(i, b.len() as int),
        ),
    decreases i,
{
    if i == 0 {
        assert(a.subrange(0, a.len() as int) =~= a);
        assert(b.subrange(0, b.len() as int) =~= b);
    } else {
        assert(a.len() > 0 && b.len() > 0 && a[0] == b[0]);
        let da = a.drop_first();
        let db = b.drop_first();
        assert(forall|j: int| 0 <= j < i - 1 ==> #[trigger] da[j] == db[j]);
        lemma_lex_lt_common_prefix(da, db, i - 1);
        assert(da.subrange(i - 1, da.len() as int) =~= a.subrange(i, a.len() as int));
        assert(db.subrange(i - 1, db.len() as int) =~= b.subrange(i, b.len() as int));
    }
}

/// Whether `a` comes strictly before `b` in lexicographic order.
pub fn lex_lt(a: &Vec<char>, b: &Vec<char>) -> (r: bool)
    ensures
        r == lex_lt_spec(a@, b@),
{
    let na = a.len();
    let nb = b.len();
    let mut i: usize = 0;
    while i < na && i < nb
        invariant
            na == a@.len(),
            nb == b@.len(),
            i <= na,
            i <= nb,
            forall|j: int| 0 <= j < i ==> a@[j] == b@[j],
        decreases na - i,
    {
        let ca = a[i];
        let cb = b[i];
        if ca != cb {
            proof {
                lemma_lex_lt_common_prefix(a@, b@, i as int);
                let ra = a@.subrange(i as int, na as int);
                let rb = b@.subrange(i as int, nb as int);
                assert(ra[0] == ca && rb[0] == cb);
            }
            return ca < cb;
        }
        i = i + 1;
    }
    proof {
        lemma_lex_lt_common_prefix(a@, b@, i as int);
    }
    na < nb
}

// ---------------------------------------------------------------------------
// Decimal parsing
// ---------------------------------------------------------------------------

pub open spec fn all_digits(s: Seq<char>) -> bool {
    forall|i: int| 0 <= i < s.len() ==> is_digit_char(s[i])
}

/// The value of a string of decimal digits.
pub open spec fn digits_value(s: Seq<char>) -> int
    decreases s.len(),
{
    if s.len() == 0 {
        0
    } else {
        digits_value(s.drop_last()) * 10 + (s.last() as int - '0' as int)
    }
}

proof fn lemma_digits_value_nonneg(s: Seq<char>)
    requires
        all_digits(s),
    ensures
        digits_value(s) >= 0,
    decreases s.len(),
{
    if s.len() > 0 {
        assert(all_digits(s.drop_last()));
        lemma_digits_value_nonneg(s.drop_last());
        assert(digits_value(s.drop_last()) * 10 >= 0) by (nonlinear_arith)
            requires
                digits_value(s.drop_last()) >= 0,
        {
        }
    }
}

proof fn lemma_digits_value_monotone(s: Seq<char>, i: int)
    requires
        0 <= i <= s.len(),
        all_digits(s),
    ensures
        digits_value(s.subrange(0, i)) <= digits_value(s),
    decreases s.len() - i,
{
    if i < s.len() {
        lemma_digits_value_monotone(s, i + 1);
        let q = s.subrange(0, i);
        let p = s.subrange(0, i + 1);
        assert(p.drop_last() =~= q);
        assert(digits_value(p) == digits_value(q) * 10 + (p.last() as int - '0' as int));
        assert(all_digits(q));
        lemma_digits_value_nonneg(q);
        assert(is_digit_char(p.last()));
        assert(digits_value(q) <= digits_value(q) * 10) by (nonlinear_arith)
            requires
                digits_value(q) >= 0,
        {
        }
    } else {
        assert(s.subrange(0, i) =~= s);
    }
}

/// What `str::parse::<usize>` does on a plain run of digits: the numeric
/// value when the string is nonempty, all digits, and the value fits.
pub fn parse_usize(v: &Vec<char>) -> (r: Option<usize>)
    ensures
        match r {
            Some(k) => v@.len() > 0 && all_digits(v@) && digits_value(v@) == k as int,
            None => v@.len() == 0 || !all_digits(v@) || digits_value(v@) > usize::MAX as int,
        },
{
    let n = v.len();
    if n == 0 {
        return None;
    }
    let mut acc: usize = 0;
    let mut i: usize = 0;
    while i < n
        invariant
            n == v@.len(),
            i <= n,
            all_digits(v@.subrange(0, i as int)),
            acc as int == digits_value(v@.subrange(0, i as int)),
        decreases n - i,
    {
        let c = v[i];
        if !is_digit(c) {
            assert(!all_digits(v@));
            return None;
        }
        let d: usize = (c as u32 - '0' as u32) as usize;
        assert(d <= 9);
        if acc > (usize::MAX - d) / 10 {
            proof {
                let p = v@.subrange(0, i as int + 1);
                assert(p.drop_last() =~= v@.subrange(0, i as int));
                assert(digits_value(p) == acc as int * 10 + d as int);
                assert(acc as nat * 10 + d as nat > usize::MAX as nat) by (nonlinear_arith)
                    requires
                        acc as nat > ((usize::MAX - d) / 10) as nat,
                        acc as nat >= 0,
                        d <= 9,
                        ((usize::MAX - d) / 10) as nat == ((usize::MAX - d as int) as nat) / 10,
                {
                }
                if all_digits(v@) {
                    lemma_digits_value_monotone(v@, i as int + 1);
                }
            }
            return None;
        }
        proof {
            let p = v@.subrange(0, i as int + 1);
            assert(p.drop_last() =~= v@.subrange(0, i as int));
            assert(acc as nat * 10 + d as nat <= usize::MAX as nat) by (nonlinear_arith)
                requires
                    acc as nat <= ((usize::MAX - d) / 10) as nat,
                    d <= 9,
                    ((usize::MAX - d) / 10) as nat == ((usize::MAX - d as int) as nat) / 10,
            {
            }
        }
        acc = acc * 10 + d;
        i = i + 1;
        assert(is_digit_char(v@[i - 1]));
        assert(all_digits(v@.subrange(0, i as int)));
    }
    assert(v@.subrange(0, n as int) =~= v@);
    Some(acc)
}

} // verus!
