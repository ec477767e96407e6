//! Character and string helpers shared by the other modules.
use vstd::prelude::*;

verus! {

broadcast use vstd::string::group_string_axioms;

// ---------------------------------------------------------------------------
// Whitespace and trimming
// ---------------------------------------------------------------------------
/// The Unicode `White_Space` property (PropList.txt), which is what
/// `char::is_whitespace` tests.
pub open spec fn is_white_space(c: char) -> bool {
    let u = c as u32;
    ||| 0x09 <= u <= 0x0d
    ||| u == 0x20
    ||| u == 0x85
    ||| u == 0xa0
    ||| u == 0x1680
    ||| 0x2000 <= u <= 0x200a
    ||| u == 0x2028
    ||| u == 0x2029
    ||| u == 0x202f
    ||| u == 0x205f
    ||| u == 0x3000
}

/// Whether `c` is white space.
pub fn is_whitespace_char(c: char) -> (r: bool)
    ensures
        r == is_white_space(c),
{
    let u = c as u32;
    (0x09 <= u && u <= 0x0d) || u == 0x20 || u == 0x85 || u == 0xa0 || u == 0x1680 || (0x2000
        <= u && u <= 0x200a) || u == 0x2028 || u == 0x2029 || u == 0x202f || u == 0x205f || u
        == 0x3000
}

/// `s` without its leading white space.
pub open spec fn trim_start_spec(s: Seq<char>) -> Seq<char>
    decreases s.len(),
{
    if s.len() > 0 && is_white_space(s[0]) {
        trim_start_spec(s.drop_first())
    } else {
        s
    }
}

/// `s` without its trailing white space.
pub open spec fn trim_end_spec(s: Seq<char>) -> Seq<char>
    decreases s.len(),
{
    if s.len() > 0 && is_white_space(s.last()) {
        trim_end_spec(s.drop_last())
    } else {
        s
    }
}

/// `s` without leading and trailing white space, as `str::trim` gives it.
pub open spec fn trim_spec(s: Seq<char>) -> Seq<char> {
    trim_end_spec(trim_start_spec(s))
}

/// Number of leading white-space characters.
pub open spec fn leading_ws(s: Seq<char>) -> int
    decreases s.len(),
{
    if s.len() > 0 && is_white_space(s[0]) {
        1 + leading_ws(s.drop_first())
    } else {
        0
    }
}

/// Number of trailing white-space characters.
pub open spec fn trailing_ws(s: Seq<char>) -> int
    decreases s.len(),
{
    if s.len() > 0 && is_white_space(s.last()) {
        1 + trailing_ws(s.drop_last())
    } else {
        0
    }
}

proof fn lemma_trim_start(s: Seq<char>)
    ensures
        0 <= leading_ws(s) <= s.len(),
        trim_start_spec(s) == s.subrange(leading_ws(s), s.len() as int),
        forall|i: int| 0 <= i < leading_ws(s) ==> is_white_space(#[trigger] s[i]),
        leading_ws(s) < s.len() ==> !is_white_space(s[leading_ws(s)]),
    decreases s.len(),
{
    if s.len() > 0 && is_white_space(s[0]) {
        lemma_trim_start(s.drop_first());
        assert(s.drop_first().subrange(leading_ws(s.drop_first()), s.drop_first().len() as int)
            =~= s.subrange(leading_ws(s), s.len() as int));
        assert forall|i: int| 0 <= i < leading_ws(s) implies is_white_space(#[trigger] s[i]) by {
            if i > 0 {
                assert(s[i] == s.drop_first()[i - 1]);
            }
        }
    } else {
        assert(s.subrange(0, s.len() as int) =~= s);
    }
}

proof fn lemma_trim_end(s: Seq<char>)
    ensures
        0 <= trailing_ws(s) <= s.len(),
        trim_end_spec(s) == s.subrange(0, s.len() - trailing_ws(s)),
        forall|i: int| s.len() - trailing_ws(s) <= i < s.len() ==> is_white_space(#[trigger] s[i]),
        trailing_ws(s) < s.len() ==> !is_white_space(s[s.len() - trailing_ws(s) - 1]),
    decreases s.len(),
{
    if s.len() > 0 && is_white_space(s.last()) {
        lemma_trim_end(s.drop_last());
        assert(s.drop_last().subrange(0, s.drop_last().len() - trailing_ws(s.drop_last()))
            =~= s.subrange(0, s.len() - trailing_ws(s)));
        assert forall|i: int| s.len() - trailing_ws(s) <= i < s.len() implies is_white_space(
            #[trigger] s[i],
        ) by {
            if i < s.len() - 1 {
                assert(s[i] == s.drop_last()[i]);
            }
        }
    } else {
        assert(s.subrange(0, s.len() as int) =~= s);
    }
}

/// Bounds `(start, end)` in characters of `s` with its surrounding white space cut off.
pub fn trim_bounds(s: &Vec<char>) -> (r: (usize, usize))
    ensures
        r.0 <= r.1 <= s@.len(),
        s@.subrange(r.0 as int, r.1 as int) == trim_spec(s@),
{
    let n = s.len();
    let mut start: usize = 0;
    proof {
        lemma_trim_start(s@);
    }
    while start < n && is_whitespace_char(s[start])
        invariant
            n == s@.len(),
            start <= leading_ws(s@),
            0 <= leading_ws(s@) <= s@.len(),
            forall|i: int| 0 <= i < leading_ws(s@) ==> is_white_space(#[trigger] s@[i]),
            leading_ws(s@) < s@.len() ==> !is_white_space(s@[leading_ws(s@)]),
        decreases n - start,
    {
        start = start + 1;
    }
    assert(start == leading_ws(s@));
    let ghost t = s@.subrange(start as int, n as int);
    assert(t == trim_start_spec(s@));
    proof {
        lemma_trim_end(t);
    }
    let mut end: usize = n;
    while end > start && is_whitespace_char(s[end - 1])
        invariant
            n == s@.len(),
            start <= end <= n,
            t == s@.subrange(start as int, n as int),
            n - end <= trailing_ws(t),
            0 <= trailing_ws(t) <= t.len(),
            forall|i: int| t.len() - trailing_ws(t) <= i < t.len() ==> is_white_space(#[trigger] t[i]),
            trailing_ws(t) < t.len() ==> !is_white_space(t[t.len() - trailing_ws(t) - 1]),
        decreases end,
    {
        assert(s@[end - 1] == t[end - 1 - start]);
        end = end - 1;
    }
    if end > start {
        assert(s@[end - 1] == t[end - 1 - start]);
    }
    assert(n - end == trailing_ws(t));
    assert(s@.subrange(start as int, end as int) =~= t.subrange(0, t.len() - trailing_ws(t)));
    (start, end)
}

/// `s` with surrounding white space removed (`str::trim`).
pub fn trim(s: &str) -> (r: &str)
    ensures
        r@ == trim_spec(s@),
{
    let cs = chars_of(s);
    let (start, end) = trim_bounds(&cs);
    s.substring_char(start, end)
}

/// Whether `s` is empty after trimming white space.
pub fn is_blank(s: &str) -> (r: bool)
    ensures
        r == (trim_spec(s@).len() == 0),
{
    let cs = chars_of(s);
    let (start, end) = trim_bounds(&cs);
    start == end
}

// ---------------------------------------------------------------------------
// Characters and strings
// ---------------------------------------------------------------------------
/// The characters of `s`, in order.
pub fn chars_of(s: &str) -> (r: Vec<char>)
    ensures
        r@ == s@,
{
    let mut out: Vec<char> = Vec::new();
    for c in it: s.chars()
        invariant
            out@ == it.seq().take(it.index() as int),
            it.seq() == s@,
    {
        out.push(c);
    }
    out
}

/// Builds a `String` from characters (`FromIterator<char>` for `String`).
/// Trusted: the string holds exactly the given characters, in order.
#[verifier::external_body]
pub(crate) fn string_from_chars(chars: &[char]) -> (r: String)
    ensures
        r@ == chars@,
{
    chars.iter().collect()
}

/// `String::push`. Trusted: the character is appended at the end.
#[verifier::external_body]
pub(crate) fn push_char(s: &mut String, c: char)
    ensures
        final(s)@ == old(s)@.push(c),
{
    s.push(c);
}

/// `str::to_owned`: a `String` with the same characters.
pub fn to_owned_string(s: &str) -> (r: String)
    ensures
        r@ == s@,
{
    s.to_owned()
}

/// Whether two strings hold the same characters.
pub fn str_eq(a: &str, b: &str) -> (r: bool)
    ensures
        r == (a@ == b@),
{
    let x = chars_of(a);
    let y = chars_of(b);
    seq_eq(&x, &y)
}

/// Whether two character vectors are equal.
pub fn seq_eq(a: &Vec<char>, b: &Vec<char>) -> (r: bool)
    ensures
        r == (a@ == b@),
{
    if a.len() != b.len() {
        return false;
    }
    let mut i: usize = 0;
    while i < a.len()
        invariant
            a@.len() == b@.len(),
            i <= a@.len(),
            a@.take(i as int) == b@.take(i as int),
        decreases a.len() - i,
    {
        if a[i] != b[i] {
            assert(a@.take(i + 1)[i as int] != b@.take(i + 1)[i as int]);
            return false;
        }
        assert(a@.take(i + 1) =~= a@.take(i as int).push(a@[i as int]));
        assert(b@.take(i + 1) =~= b@.take(i as int).push(b@[i as int]));
        i = i + 1;
    }
    assert(a@.take(i as int) =~= a@);
    assert(b@.take(i as int) =~= b@);
    true
}


// ---------------------------------------------------------------------------
// Unicode case mapping and classes (named results of std)
// ---------------------------------------------------------------------------
/// What `char::to_lowercase` yields for `c`.
pub uninterp spec fn char_lowercase(c: char) -> Seq<char>;

/// `char::to_lowercase`, collected. Trusted: the result is the lowercase
/// mapping of `c` from the Unicode database, which std documents as one or
/// more characters. That mapping itself is left unstated.
#[verifier::external_body]
pub(crate) fn char_to_lowercase(c: char) -> (r: Vec<char>)
    ensures
        r@ == char_lowercase(c),
        r@.len() >= 1,
{
    c.to_lowercase().collect()
}

/// What `str::to_lowercase` gives for a string.
pub uninterp spec fn str_lowercase(s: Seq<char>) -> Seq<char>;

/// `str::to_lowercase`. Trusted: the result is the lowercase mapping of the
/// whole string (which, unlike a per-character mapping, treats a final
/// sigma specially); the mapping itself is left unstated.
#[verifier::external_body]
pub(crate) fn str_to_lowercase(s: &str) -> (r: String)
    ensures
        r@ == str_lowercase(s@),
{
    s.to_lowercase()
}

/// Whether `char::is_alphanumeric` holds of a character.
pub uninterp spec fn char_alphanumeric(c: char) -> bool;

/// `char::is_alphanumeric`. Trusted: the result is whether `c` is
/// alphabetic or numeric in the Unicode database; for ASCII characters that
/// is exactly the letters and digits.
#[verifier::external_body]
pub(crate) fn is_alphanumeric_char(c: char) -> (r: bool)
    ensures
        r == char_alphanumeric(c),
        (c as u32) < 128 ==> (r <==> is_ascii_alphanumeric(c)),
{
    c.is_alphanumeric()
}

/// ASCII letters and digits.
pub open spec fn is_ascii_alphanumeric(c: char) -> bool {
    ||| ('a' <= c && c <= 'z')
    ||| ('A' <= c && c <= 'Z')
    ||| ('0' <= c && c <= '9')
}

// ---------------------------------------------------------------------------
// Searching in character sequences
// ---------------------------------------------------------------------------
/// `pat` occurs in `text` starting at `i`.
pub open spec fn occurs_at(text: Seq<char>, pat: Seq<char>, i: int) -> bool {
    &&& 0 <= i
    &&& i + pat.len() <= text.len()
    &&& text.subrange(i, i + pat.len()) == pat
}

/// A path made of one plain file name: not empty, not `.` or `..`, and
/// without `/`, a backslash or `:`, so that on every platform it is a single
/// normal component with no root and no prefix.
pub open spec fn plain_file_name(p: Seq<char>) -> bool {
    &&& p.len() > 0
    &&& p != seq!['.']
    &&& p != seq!['.', '.']
    &&& forall|j: int| 0 <= j < p.len() ==> p[j] != '/' && p[j] != '\\' && p[j] != ':'
}

/// The position of the last `.` among the first `n` characters of `p`.
pub open spec fn last_dot_before(p: Seq<char>, n: int) -> Option<int>
    decreases n,
{
    if n <= 0 || n > p.len() {
        None
    } else if p[n - 1] == '.' {
        Some(n - 1)
    } else {
        last_dot_before(p, n - 1)
    }
}

/// The extension of a file name: what follows its last `.`; none when it
/// has no `.` or its only `.` is its first character.
pub open spec fn name_extension(name: Seq<char>) -> Option<Seq<char>> {
    match last_dot_before(name, name.len() as int) {
        Some(d) => if d > 0 {
            Some(name.skip(d + 1))
        } else {
            None
        },
        None => None,
    }
}

/// The stem of a file name: what comes before its last `.`; the whole name
/// when it has no `.` or its only `.` is its first character.
pub open spec fn name_stem(name: Seq<char>) -> Seq<char> {
    match last_dot_before(name, name.len() as int) {
        Some(d) => if d > 0 {
            name.take(d)
        } else {
            name
        },
        None => name,
    }
}

/// The position of the last `/` among the first `n` characters of `p`.
pub open spec fn last_slash_before(p: Seq<char>, n: int) -> Option<int>
    decreases n,
{
    if n <= 0 || n > p.len() {
        None
    } else if p[n - 1] == '/' {
        Some(n - 1)
    } else {
        last_slash_before(p, n - 1)
    }
}

/// The first `n` characters of `q` are plain file names joined by single
/// `/`s: a relative path with no `.`, `..` or empty component.
pub open spec fn relative_canonical(q: Seq<char>, n: int) -> bool
    decreases n,
{
    if n <= 0 || n > q.len() {
        false
    } else {
        match last_slash_before(q, n) {
            None => plain_file_name(q.take(n)),
            Some(k) => if 0 < k && k < n {
                plain_file_name(q.subrange(k + 1, n)) && relative_canonical(q, k)
            } else {
                false
            },
        }
    }
}

/// A canonical path: plain file names joined by single `/`s, with or
/// without one leading `/`, and nothing else (no backslash, `:`, `.` or
/// `..` component, repeated or trailing `/`). On every platform its
/// components are its root, if any, and its names, exactly as written.
pub open spec fn canonical_path(p: Seq<char>) -> bool {
    ||| relative_canonical(p, p.len() as int)
    ||| (p.len() > 1 && p[0] == '/' && relative_canonical(p.skip(1), p.len() - 1))
}

/// The last component of a path: what follows its last `/`.
pub open spec fn last_component(p: Seq<char>) -> Seq<char> {
    match last_slash_before(p, p.len() as int) {
        Some(k) => p.skip(k + 1),
        None => p,
    }
}

/// The path before its last component: up to its last `/` (the root `/`
/// itself when that is the first character), the empty path without one.
pub open spec fn parent_text(p: Seq<char>) -> Seq<char> {
    match last_slash_before(p, p.len() as int) {
        Some(k) => if k == 0 {
            seq!['/']
        } else {
            p.take(k)
        },
        None => Seq::empty(),
    }
}

/// A path whose components are plain to read: a canonical path, the empty
/// path or the root `/`. Two such paths have the same components just
/// when their texts are equal.
pub open spec fn simple_path(p: Seq<char>) -> bool {
    canonical_path(p) || p.len() == 0 || p == seq!['/']
}

/// Where the last `/` before `n` is: a `/` with none after it before `n`.
pub proof fn lemma_last_slash_bounds(p: Seq<char>, n: int)
    requires
        0 <= n <= p.len(),
    ensures
        last_slash_before(p, n) matches Some(k) ==> 0 <= k < n && p[k] == '/' && forall|j: int|
            k < j < n ==> p[j] != '/',
        last_slash_before(p, n) is None ==> forall|j: int| 0 <= j < n ==> p[j] != '/',
    decreases n,
{
    if n > 0 {
        lemma_last_slash_bounds(p, n - 1);
    }
}

proof fn lemma_last_slash_skip(p: Seq<char>, m: int)
    requires
        p.len() > 0,
        0 <= m <= p.len() - 1,
    ensures
        last_slash_before(p.skip(1), m) matches Some(k) ==> last_slash_before(p, m + 1) == Some(
            k + 1,
        ),
        last_slash_before(p.skip(1), m) is None ==> last_slash_before(p, m + 1) == (if p[0]
            == '/' {
            Some(0int)
        } else {
            None::<int>
        }),
    decreases m,
{
    if m > 0 {
        lemma_last_slash_skip(p, m - 1);
        assert(p.skip(1)[m - 1] == p[m]);
    } else {
        assert(last_slash_before(p, 0) is None);
    }
}

/// A path whose components every platform reads alike: it holds no
/// backslash and no `:` (so no drive or other prefix) and does not start
/// with `//`; `/` is then its only separator.
pub open spec fn portable_path(p: Seq<char>) -> bool {
    &&& forall|j: int| 0 <= j < p.len() ==> p[j] != '\\' && p[j] != ':'
    &&& !(p.len() >= 2 && p[0] == '/' && p[1] == '/')
}

/// The pieces of `p` between its `/`s, empty ones included.
pub open spec fn slash_pieces(p: Seq<char>) -> Seq<Seq<char>>
    decreases p.len(),
{
    match last_slash_before(p, p.len() as int) {
        Some(k) => {
            proof {
                lemma_last_slash_bounds(p, p.len() as int);
            }
            slash_pieces(p.take(k)).push(p.skip(k + 1))
        },
        None => seq![p],
    }
}

/// The names of a path: its pieces that are neither empty nor `.`, in
/// order (`..` among them).
pub open spec fn path_names(p: Seq<char>) -> Seq<Seq<char>> {
    slash_pieces(p).filter(|s: Seq<char>| s.len() > 0 && s != seq!['.'])
}

/// The components of a portable path as std reads them: whether it has a
/// root, whether it starts with a `.` component, and its names (repeated
/// and trailing `/`s and later `.`s are not components).
pub open spec fn path_components(p: Seq<char>) -> (bool, bool, Seq<Seq<char>>) {
    let rooted = p.len() > 0 && p[0] == '/';
    (rooted, !rooted && slash_pieces(p)[0] == seq!['.'], path_names(p))
}

/// The file name of a portable path: its last name, none when it has no
/// name or its last one is `..`.
pub open spec fn portable_file_name(p: Seq<char>) -> Option<Seq<char>> {
    let names = path_names(p);
    if names.len() == 0 || names.last() == seq!['.', '.'] {
        None
    } else {
        Some(names.last())
    }
}

/// The extension of a portable path: that of its file name.
pub open spec fn portable_extension(p: Seq<char>) -> Option<Seq<char>> {
    match portable_file_name(p) {
        Some(n) => name_extension(n),
        None => None,
    }
}

/// The components of a portable path without its last one, as std's
/// `Path::parent` leaves them: none when the path ends in its root or is
/// empty.
pub open spec fn portable_parent(p: Seq<char>) -> Option<(bool, bool, Seq<Seq<char>>)> {
    let c = path_components(p);
    if c.2.len() > 0 {
        Some((c.0, c.1, c.2.drop_last()))
    } else if c.1 {
        Some((false, false, Seq::empty()))
    } else {
        None
    }
}

/// Every path of the list is portable.
pub open spec fn all_portable(paths: Seq<Seq<char>>) -> bool {
    forall|i: int| 0 <= i < paths.len() ==> portable_path(#[trigger] paths[i])
}

/// The path made of the text before a last component and that component:
/// the inverse of splitting a canonical path at its last `/`.
pub open spec fn join_parent(parent: Seq<char>, name: Seq<char>) -> Seq<char> {
    if parent.len() == 0 {
        name
    } else if parent == seq!['/'] {
        seq!['/'] + name
    } else {
        parent + seq!['/'] + name
    }
}

proof fn lemma_last_slash_take(q: Seq<char>, m: int, n: int)
    requires
        0 <= n <= m <= q.len(),
    ensures
        last_slash_before(q.take(m), n) == last_slash_before(q, n),
    decreases n,
{
    if n > 0 {
        lemma_last_slash_take(q, m, n - 1);
    }
}

proof fn lemma_relative_canonical_take(q: Seq<char>, m: int, n: int)
    requires
        0 <= n <= m <= q.len(),
    ensures
        relative_canonical(q.take(m), n) == relative_canonical(q, n),
    decreases n,
{
    lemma_last_slash_take(q, m, n);
    if n > 0 {
        assert(q.take(m).take(n) =~= q.take(n));
        match last_slash_before(q, n) {
            Some(k) => {
                if 0 < k && k < n {
                    assert(q.take(m).subrange(k + 1, n) =~= q.subrange(k + 1, n));
                    lemma_relative_canonical_take(q, m, k);
                }
            },
            None => {},
        }
    }
}

/// A canonical path is the text before its last component joined to that
/// component, and that text is a simple path.
pub proof fn lemma_canonical_split(p: Seq<char>)
    requires
        canonical_path(p),
    ensures
        p == join_parent(parent_text(p), last_component(p)),
        simple_path(parent_text(p)),
{
    let n = p.len() as int;
    lemma_last_slash_bounds(p, n);
    if relative_canonical(p, n) {
        match last_slash_before(p, n) {
            Some(k) => {
                assert(0 < k < n);
                assert(p.take(k) != seq!['/']) by {
                    assert(p.take(k).len() == k);
                    if k == 1 {
                        assert(relative_canonical(p, 1));
                        assert(p.take(1)[0] == p[0]);
                        assert(p.take(1)[0] != seq!['/'][0]);
                    }
                }
                assert(p =~= p.take(k) + seq!['/'] + p.skip(k + 1));
                lemma_relative_canonical_take(p, k, k);
                assert(p.take(k).len() == k);
                assert(relative_canonical(p.take(k), p.take(k).len() as int));
            },
            None => {
                assert(p.take(n) =~= p);
            },
        }
    } else {
        let q = p.skip(1);
        lemma_last_slash_skip(p, n - 1);
        match last_slash_before(q, n - 1) {
            Some(j) => {
                let k = j + 1;
                assert(last_slash_before(p, n) == Some(k));
                assert(0 < j < n - 1);
                assert(p.take(k).len() == k);
                assert(p.take(k) != seq!['/']);
                assert(p =~= p.take(k) + seq!['/'] + p.skip(k + 1));
                lemma_relative_canonical_take(q, j, j);
                assert(p.take(k).skip(1) =~= q.take(j));
                assert(relative_canonical(p.take(k).skip(1), p.take(k).len() - 1));
                assert(p.take(k)[0] == '/');
            },
            None => {
                assert(last_slash_before(p, n) == Some(0int));
                assert(p =~= seq!['/'] + p.skip(1));
            },
        }
    }
}

/// `p` starts with the Windows verbatim prefix `\\?\`, after which `/` is
/// an ordinary character and not a separator.
pub open spec fn has_verbatim_prefix(p: Seq<char>) -> bool {
    &&& p.len() >= 4
    &&& p[0] == '\\'
    &&& p[1] == '\\'
    &&& p[2] == '?'
    &&& p[3] == '\\'
}

/// A relative path with neither root nor prefix on any platform: it does
/// not start with `/` or a backslash, and holds no `:` (so no drive).
pub open spec fn rootless_relative_path(p: Seq<char>) -> bool {
    &&& p.len() > 0 ==> p[0] != '/' && p[0] != '\\'
    &&& forall|j: int| 0 <= j < p.len() ==> p[j] != ':'
}

/// `n` is the text of one component of `path`: not empty and found in
/// `path`; unless `path` has a verbatim prefix, it holds no `/`, which
/// separates components on every platform.
pub open spec fn is_component_text(path: Seq<char>, n: Seq<char>) -> bool {
    &&& n.len() > 0
    &&& seq_contains(path, n)
    &&& !has_verbatim_prefix(path) ==> forall|j: int| 0 <= j < n.len() ==> n[j] != '/'
}

/// `p` is a shorter start of `path`.
pub open spec fn is_proper_prefix(path: Seq<char>, p: Seq<char>) -> bool {
    &&& p.len() < path.len()
    &&& path.take(p.len() as int) == p
}

/// `pat` occurs somewhere in `text` (`str::contains`).
pub open spec fn seq_contains(text: Seq<char>, pat: Seq<char>) -> bool {
    exists|i: int| occurs_at(text, pat, i)
}

/// Whether `pat` occurs in `text` at `i`.
pub fn matches_at(text: &Vec<char>, pat: &Vec<char>, i: usize) -> (r: bool)
    ensures
        r == occurs_at(text@, pat@, i as int),
{
    if i > text.len() || pat.len() > text.len() - i {
        return false;
    }
    let mut k: usize = 0;
    while k < pat.len()
        invariant
            i + pat@.len() <= text@.len(),
            text@.len() == text.len(),
            k <= pat@.len(),
            forall|j: int| 0 <= j < k ==> text@[i + j] == pat@[j],
        decreases pat.len() - k,
    {
        if text[i + k] != pat[k] {
            assert(text@.subrange(i as int, i + pat@.len())[k as int] != pat@[k as int]);
            return false;
        }
        k = k + 1;
    }
    assert(text@.subrange(i as int, i + pat@.len()) =~= pat@);
    true
}

/// The first occurrence of `pat` in `text` at or after `from`.
pub fn find_from(text: &Vec<char>, pat: &Vec<char>, from: usize) -> (r: Option<usize>)
    ensures
        match r {
            Some(i) => from <= i && occurs_at(text@, pat@, i as int) && forall|j: int|
                from <= j < i ==> !occurs_at(text@, pat@, j),
            None => forall|j: int| from <= j ==> !occurs_at(text@, pat@, j),
        },
{
    let mut i = from;
    if from > text.len() {
        return None;
    }
    while i <= text.len()
        invariant
            from <= i <= text@.len(),
            forall|j: int| from <= j < i ==> !occurs_at(text@, pat@, j),
        decreases text.len() + 1 - i,
    {
        if matches_at(text, pat, i) {
            return Some(i);
        }
        if i == text.len() {
            assert forall|j: int| from <= j implies !occurs_at(text@, pat@, j) by {
                if j > i {
                    assert(j + pat@.len() > text@.len());
                }
            }
            return None;
        }
        i = i + 1;
    }
    None
}

/// Whether `pat` occurs in `text`.
pub fn contains_chars(text: &Vec<char>, pat: &Vec<char>) -> (r: bool)
    ensures
        r == seq_contains(text@, pat@),
{
    match find_from(text, pat, 0) {
        Some(i) => true,
        None => false,
    }
}

/// Whether `s` starts with `prefix`.
pub open spec fn starts_with(s: Seq<char>, prefix: Seq<char>) -> bool {
    prefix.len() <= s.len() && s.subrange(0, prefix.len() as int) == prefix
}

/// Whether `s` ends with `suffix`.
pub open spec fn ends_with(s: Seq<char>, suffix: Seq<char>) -> bool {
    suffix.len() <= s.len() && s.subrange(s.len() - suffix.len(), s.len() as int) == suffix
}

/// Whether `s` starts with `prefix` (`str::starts_with`).
pub fn str_starts_with(s: &str, prefix: &str) -> (r: bool)
    ensures
        r == starts_with(s@, prefix@),
{
    let a = chars_of(s);
    let b = chars_of(prefix);
    matches_at(&a, &b, 0)
}


/// `s` without `prefix`, when it starts with it (`str::strip_prefix`).
pub fn str_strip_prefix<'a>(s: &'a str, prefix: &str) -> (r: Option<&'a str>)
    ensures
        match r {
            Some(rest) => starts_with(s@, prefix@) && rest@ == s@.subrange(
                prefix@.len() as int,
                s@.len() as int,
            ),
            None => !starts_with(s@, prefix@),
        },
{
    if str_starts_with(s, prefix) {
        let n = prefix.unicode_len();
        let m = s.unicode_len();
        Some(s.substring_char(n, m))
    } else {
        None
    }
}

/// Whether `needle` occurs in `haystack` (`str::contains`).
pub fn str_contains(haystack: &str, needle: &str) -> (r: bool)
    ensures
        r == seq_contains(haystack@, needle@),
{
    let a = chars_of(haystack);
    let b = chars_of(needle);
    contains_chars(&a, &b)
}


/// Appends the characters of `s` to `acc`.
pub fn extend_chars(acc: &mut Vec<char>, s: &str)
    ensures
        final(acc)@ == old(acc)@ + s@,
{
    let cs = chars_of(s);
    let mut i: usize = 0;
    let ghost start = acc@;
    while i < cs.len()
        invariant
            i <= cs@.len(),
            cs@ == s@,
            acc@ == start + cs@.take(i as int),
        decreases cs.len() - i,
    {
        acc.push(cs[i]);
        assert(cs@.take(i + 1) =~= cs@.take(i as int).push(cs@[i as int]));
        i = i + 1;
    }
    assert(cs@.take(i as int) =~= cs@);
}

/// The characters `[from, to)` of `v`.
pub fn subrange_chars(v: &Vec<char>, from: usize, to: usize) -> (r: Vec<char>)
    requires
        from <= to <= v@.len(),
    ensures
        r@ == v@.subrange(from as int, to as int),
{
    let mut out: Vec<char> = Vec::new();
    let mut i = from;
    while i < to
        invariant
            from <= i <= to,
            to <= v@.len(),
            out@ == v@.subrange(from as int, i as int),
        decreases to - i,
    {
        out.push(v[i]);
        assert(v@.subrange(from as int, i + 1) =~= v@.subrange(from as int, i as int).push(
            v@[i as int],
        ));
        i = i + 1;
    }
    out
}

/// A `String` of the characters of `v` without surrounding white space.
pub fn trimmed_string(v: &Vec<char>) -> (r: String)
    ensures
        r@ == trim_spec(v@),
{
    let (a, b) = trim_bounds(v);
    let t = subrange_chars(v, a, b);
    string_from_chars(t.as_slice())
}

} // verus!
