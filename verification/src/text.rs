//! Verified text utilities: whitespace splitting, trimming, comma-separated
//! lists, substring search, and base-filename extraction.
//!
//! Each executable function is specified against a recursive spec function
//! over `Seq<char>`, so callers reason about the mathematical string, not the
//! loop that produced it.

use vstd::prelude::*;

verus! {

// ---------------------------------------------------------------------------
// Characters
// ---------------------------------------------------------------------------

/// The Unicode `White_Space` property: the set of characters that
/// whitespace-splitting and trimming recognize.
pub open spec fn is_ws_char(c: char) -> bool {
    let u = c as u32;
    u == 0x20 || (0x09 <= u && u <= 0x0D) || u == 0x85 || u == 0xA0 || u == 0x1680 || (0x2000
        <= u && u <= 0x200A) || u == 0x2028 || u == 0x2029 || u == 0x202F || u == 0x205F || u
        == 0x3000
}

pub fn is_whitespace_char(c: char) -> (r: bool)
    ensures
        r == is_ws_char(c),
{
    let u = c as u32;
    u == 0x20 || (0x09 <= u && u <= 0x0D) || u == 0x85 || u == 0xA0 || u == 0x1680 || (0x2000
        <= u && u <= 0x200A) || u == 0x2028 || u == 0x2029 || u == 0x202F || u == 0x205F || u
        == 0x3000
}

/// Path separators stripped from attacker-supplied file names.
pub open spec fn is_sep_char(c: char) -> bool {
    c == '/' || c == '\\'
}

pub fn is_separator_char(c: char) -> (r: bool)
    ensures
        r == is_sep_char(c),
{
    c == '/' || c == '\\'
}

// ---------------------------------------------------------------------------
// String equality
// ---------------------------------------------------------------------------

/// Character-for-character equality of two string slices.
pub fn str_eq(a: &str, b: &str) -> (r: bool)
    ensures
        r == (a@ == b@),
{
    let an = a.unicode_len();
    let bn = b.unicode_len();
    if an != bn {
        proof {
            if a@ == b@ {
                assert(a@.len() == b@.len());
            }
        }
        return false;
    }
    let mut i: usize = 0;
    while i < an
        invariant
            an == a@.len(),
            an == b@.len(),
            0 <= i <= an,
            forall|j: int| 0 <= j < i ==> a@[j] == b@[j],
        decreases an - i,
    {
        if a.get_char(i) != b.get_char(i) {
            proof {
                if a@ == b@ {
                    assert(a@[i as int] == b@[i as int]);
                }
            }
            return false;
        }
        i += 1;
    }
    proof {
        assert(a@ =~= b@);
    }
    true
}

// ---------------------------------------------------------------------------
// Source-file extensions
// ---------------------------------------------------------------------------

/// A name carries the source-file extension when it ends in `.rs` with a
/// nonempty stem before the dot.
pub open spec fn has_rs_extension(name: Seq<char>) -> bool {
    name.len() >= 4 && name[name.len() - 3] == '.' && name[name.len() - 2] == 'r' && name[name.len()
        - 1] == 's'
}

pub fn is_rs_file_name(name: &str) -> (r: bool)
    ensures
        r == has_rs_extension(name@),
{
    let n = name.unicode_len();
    if n < 4 {
        return false;
    }
    name.get_char(n - 3) == '.' && name.get_char(n - 2) == 'r' && name.get_char(n - 1) == 's'
}

// ---------------------------------------------------------------------------
// Whitespace splitting
// ---------------------------------------------------------------------------

/// Length of the maximal whitespace-free prefix.
pub open spec fn nonws_prefix_len(s: Seq<char>) -> int
    decreases s.len(),
{
    if s.len() == 0 {
        0
    } else if is_ws_char(s[0]) {
        0
    } else {
        1 + nonws_prefix_len(s.drop_first())
    }
}

pub proof fn lemma_nonws_prefix_bounds(s: Seq<char>)
    ensures
        0 <= nonws_prefix_len(s) <= s.len(),
    decreases s.len(),
{
    if s.len() > 0 && !is_ws_char(s[0]) {
        lemma_nonws_prefix_bounds(s.drop_first());
    }
}

/// `nonws_prefix_len` is the unique boundary with no whitespace before it and
/// whitespace (or the end) at it.
pub proof fn lemma_nonws_prefix_char(s: Seq<char>, k: int)
    requires
        0 <= k <= s.len(),
        forall|u: int| 0 <= u < k ==> !is_ws_char(s[u]),
        k < s.len() ==> is_ws_char(s[k]),
    ensures
        nonws_prefix_len(s) == k,
    decreases s.len(),
{
    if s.len() == 0 {
    } else if is_ws_char(s[0]) {
        assert(k == 0);
    } else {
        assert(k >= 1);
        let t = s.drop_first();
        assert(forall|u: int| 0 <= u < k - 1 ==> t[u] == s[u + 1] && !is_ws_char(t[u]));
        lemma_nonws_prefix_char(t, k - 1);
    }
}

/// The whitespace-separated tokens of `s`, in order, each nonempty.
pub open spec fn split_ws(s: Seq<char>) -> Seq<Seq<char>>
    decreases s.len(),
{
    if s.len() == 0 {
        seq![]
    } else if is_ws_char(s[0]) {
        split_ws(s.drop_first())
    } else {
        let t = nonws_prefix_len(s);
        proof {
            lemma_nonws_prefix_bounds(s);
            lemma_nonws_prefix_bounds(s.drop_first());
        }
        seq![s.take(t)] + split_ws(s.skip(t))
    }
}

/// Splitting a suffix that begins with a full token peels that token off.
proof fn lemma_split_ws_token(s: Seq<char>, i: int, j: int)
    requires
        0 <= i < j <= s.len(),
        forall|k: int| i <= k < j ==> !is_ws_char(s[k]),
        j < s.len() ==> is_ws_char(s[j]),
    ensures
        split_ws(s.skip(i)) == seq![s.subrange(i, j)] + split_ws(s.skip(j)),
{
    let t = s.skip(i);
    assert(t[0] == s[i]);
    assert(!is_ws_char(t[0]));
    assert(forall|u: int| 0 <= u < j - i ==> t[u] == s[u + i] && !is_ws_char(t[u]));
    if j - i < t.len() {
        assert(t[j - i] == s[j]);
    }
    lemma_nonws_prefix_char(t, j - i);
    assert(split_ws(t) == seq![t.take(j - i)] + split_ws(t.skip(j - i)));
    assert(t.take(j - i) =~= s.subrange(i, j));
    assert(t.skip(j - i) =~= s.skip(j));
}

/// Splits on runs of whitespace, dropping empty tokens, as an
/// argument string is parsed into an argument vector.
pub fn parse_args(s: &str) -> (r: Vec<String>)
    ensures
        r.deep_view() == split_ws(s@),
{
    let n = s.unicode_len();
    let mut r: Vec<String> = Vec::new();
    proof {
        assert(r.deep_view() =~= Seq::<Seq<char>>::empty());
        assert(s@.skip(0) =~= s@);
    }
    let mut i: usize = 0;
    while i < n
        invariant
            n == s@.len(),
            0 <= i <= n,
            split_ws(s@) == r.deep_view() + split_ws(s@.skip(i as int)),
        decreases n - i,
    {
        if is_whitespace_char(s.get_char(i)) {
            proof {
                assert(s@.skip(i as int).drop_first() =~= s@.skip(i + 1));
            }
            i += 1;
        } else {
            let mut j: usize = i;
            while j < n && !is_whitespace_char(s.get_char(j))
                invariant
                    n == s@.len(),
                    i <= j <= n,
                    forall|k: int| i <= k < j ==> !is_ws_char(s@[k]),
                decreases n - j,
            {
                j += 1;
            }
            assert(i < j);
            let tok = s.substring_char(i, j).to_owned();
            let ghost old_dv = r.deep_view();
            r.push(tok);
            proof {
                lemma_split_ws_token(s@, i as int, j as int);
                assert(r.deep_view() =~= old_dv.push(tok@));
                assert(r.deep_view() + split_ws(s@.skip(j as int)) =~= (old_dv + (seq![
                    s@.subrange(i as int, j as int),
                ] + split_ws(s@.skip(j as int)))));
            }
            i = j;
        }
    }
    proof {
        assert(s@.skip(n as int) =~= Seq::<char>::empty());
        assert(split_ws(Seq::<char>::empty()) =~= Seq::<Seq<char>>::empty());
        assert(r.deep_view() =~= r.deep_view() + split_ws(s@.skip(n as int)));
    }
    r
}

// ---------------------------------------------------------------------------
// Trimming
// ---------------------------------------------------------------------------

/// Index of the first character that is not leading whitespace.
pub open spec fn trim_start_idx(s: Seq<char>) -> int
    decreases s.len(),
{
    if s.len() == 0 {
        0
    } else if is_ws_char(s[0]) {
        1 + trim_start_idx(s.drop_first())
    } else {
        0
    }
}

/// Index just past the last character that is not trailing whitespace.
pub open spec fn trim_end_idx(s: Seq<char>) -> int
    decreases s.len(),
{
    if s.len() == 0 {
        0
    } else if is_ws_char(s.last()) {
        trim_end_idx(s.drop_last())
    } else {
        s.len() as int
    }
}

/// The string with leading and trailing whitespace removed.
pub open spec fn trim_spec(s: Seq<char>) -> Seq<char> {
    if trim_start_idx(s) <= trim_end_idx(s) {
        s.subrange(trim_start_idx(s), trim_end_idx(s))
    } else {
        Seq::empty()
    }
}

proof fn lemma_trim_start_char(s: Seq<char>, k: int)
    requires
        0 <= k <= s.len(),
        forall|u: int| 0 <= u < k ==> is_ws_char(s[u]),
        k < s.len() ==> !is_ws_char(s[k]),
    ensures
        trim_start_idx(s) == k,
    decreases s.len(),
{
    if s.len() == 0 {
    } else if is_ws_char(s[0]) {
        assert(k >= 1);
        let t = s.drop_first();
        assert(forall|u: int| 0 <= u < k - 1 ==> t[u] == s[u + 1] && is_ws_char(t[u]));
        if k - 1 < t.len() {
            assert(t[k - 1] == s[k]);
        }
        lemma_trim_start_char(t, k - 1);
    } else {
        assert(k == 0);
    }
}

proof fn lemma_trim_end_char(s: Seq<char>, k: int)
    requires
        0 <= k <= s.len(),
        forall|u: int| k <= u < s.len() ==> is_ws_char(s[u]),
        k > 0 ==> !is_ws_char(s[k - 1]),
    ensures
        trim_end_idx(s) == k,
    decreases s.len(),
{
    if s.len() == 0 {
    } else if is_ws_char(s.last()) {
        assert(k < s.len());
        let t = s.drop_last();
        assert(forall|u: int| k <= u < t.len() ==> t[u] == s[u] && is_ws_char(t[u]));
        lemma_trim_end_char(t, k);
    } else {
        assert(k == s.len());
    }
}

/// Removes leading and trailing whitespace.
pub fn trim(s: &str) -> (r: String)
    ensures
        r@ == trim_spec(s@),
{
    let n = s.unicode_len();
    let mut a: usize = 0;
    while a < n && is_whitespace_char(s.get_char(a))
        invariant
            n == s@.len(),
            0 <= a <= n,
            forall|j: int| 0 <= j < a ==> is_ws_char(s@[j]),
        decreases n - a,
    {
        a += 1;
    }
    let mut b: usize = n;
    while b > a && is_whitespace_char(s.get_char(b - 1))
        invariant
            n == s@.len(),
            a <= b <= n,
            forall|j: int| b <= j < n ==> is_ws_char(s@[j]),
        decreases b,
    {
        b -= 1;
    }
    proof {
        if a < b {
            lemma_trim_start_char(s@, a as int);
            lemma_trim_end_char(s@, b as int);
        } else {
            assert(forall|j: int| 0 <= j < s@.len() ==> is_ws_char(s@[j]));
            lemma_trim_start_char(s@, s@.len() as int);
            lemma_trim_end_char(s@, 0);
            assert(s@.subrange(a as int, b as int) =~= Seq::<char>::empty());
        }
    }
    s.substring_char(a, b).to_owned()
}

// ---------------------------------------------------------------------------
// Comma-separated lists
// ---------------------------------------------------------------------------

/// Length of the prefix before the first comma (the whole string when there
/// is none).
pub open spec fn comma_prefix_len(s: Seq<char>) -> int
    decreases s.len(),
{
    if s.len() == 0 {
        0
    } else if s[0] == ',' {
        0
    } else {
        1 + comma_prefix_len(s.drop_first())
    }
}

pub proof fn lemma_comma_prefix_bounds(s: Seq<char>)
    ensures
        0 <= comma_prefix_len(s) <= s.len(),
    decreases s.len(),
{
    if s.len() > 0 && s[0] != ',' {
        lemma_comma_prefix_bounds(s.drop_first());
    }
}

proof fn lemma_comma_prefix_char(s: Seq<char>, k: int)
    requires
        0 <= k <= s.len(),
        forall|u: int| 0 <= u < k ==> s[u] != ',',
        k < s.len() ==> s[k] == ',',
    ensures
        comma_prefix_len(s) == k,
    decreases s.len(),
{
    if s.len() == 0 {
    } else if s[0] == ',' {
        assert(k == 0);
    } else {
        assert(k >= 1);
        let t = s.drop_first();
        assert(forall|u: int| 0 <= u < k - 1 ==> t[u] == s[u + 1] && t[u] != ',');
        if k - 1 < t.len() {
            assert(t[k - 1] == s[k]);
        }
        lemma_comma_prefix_char(t, k - 1);
    }
}

/// The comma-separated pieces of `s`, empty pieces kept, so the result is
/// never empty.
pub open spec fn split_commas(s: Seq<char>) -> Seq<Seq<char>>
    decreases s.len(),
{
    let k = comma_prefix_len(s);
    proof {
        lemma_comma_prefix_bounds(s);
    }
    if k == s.len() {
        seq![s]
    } else {
        seq![s.take(k)] + split_commas(s.skip(k + 1))
    }
}

/// The comma-separated pieces of `s`, each trimmed of surrounding whitespace.
pub open spec fn split_trimmed(s: Seq<char>) -> Seq<Seq<char>> {
    split_commas(s).map_values(|p: Seq<char>| trim_spec(p))
}

/// Splitting a suffix that begins with a full piece peels that piece off.
proof fn lemma_split_commas_piece(s: Seq<char>, i: int, j: int)
    requires
        0 <= i <= j <= s.len(),
        forall|k: int| i <= k < j ==> s[k] != ',',
        j < s.len() ==> s[j] == ',',
    ensures
        j == s.len() ==> split_commas(s.skip(i)) == seq![s.subrange(i, j)],
        j < s.len() ==> split_commas(s.skip(i)) == seq![s.subrange(i, j)] + split_commas(
            s.skip(j + 1),
        ),
{
    let t = s.skip(i);
    assert(forall|u: int| 0 <= u < j - i ==> t[u] == s[u + i] && t[u] != ',');
    if j - i < t.len() {
        assert(t[j - i] == s[j]);
    }
    lemma_comma_prefix_char(t, j - i);
    if j == s.len() {
        assert(t =~= s.subrange(i, j));
        assert(split_commas(t) == seq![t]);
    } else {
        assert(t.take(j - i) =~= s.subrange(i, j));
        assert(t.skip(j - i + 1) =~= s.skip(j + 1));
    }
}

/// Splits on commas and trims each piece, as a tag list or an
/// allowed-origin list is read from its configuration string.
pub fn split_and_trim(s: &str) -> (r: Vec<String>)
    ensures
        r.deep_view() == split_trimmed(s@),
{
    let n = s.unicode_len();
    let mut r: Vec<String> = Vec::new();
    let mut i: usize = 0;
    let mut done = false;
    proof {
        assert(r.deep_view() =~= Seq::<Seq<char>>::empty());
        assert(s@.skip(0) =~= s@);
    }
    while !done
        invariant
            n == s@.len(),
            0 <= i <= n,
            done ==> split_trimmed(s@) == r.deep_view(),
            !done ==> split_trimmed(s@) == r.deep_view() + split_commas(s@.skip(i as int)).map_values(
                |p: Seq<char>| trim_spec(p),
            ),
        decreases n - i + (if done { 0int } else { 1int }),
    {
        let mut j: usize = i;
        while j < n && s.get_char(j) != ','
            invariant
                n == s@.len(),
                i <= j <= n,
                forall|k: int| i <= k < j ==> s@[k] != ',',
            decreases n - j,
        {
            j += 1;
        }
        let piece = trim(s.substring_char(i, j));
        let ghost old_dv = r.deep_view();
        r.push(piece);
        proof {
            lemma_split_commas_piece(s@, i as int, j as int);
            assert(r.deep_view() =~= old_dv.push(piece@));
        }
        if j < n {
            proof {
                let rest = split_commas(s@.skip(j + 1)).map_values(|p: Seq<char>| trim_spec(p));
                assert((seq![s@.subrange(i as int, j as int)] + split_commas(s@.skip(
                    j + 1,
                ))).map_values(|p: Seq<char>| trim_spec(p)) =~= seq![
                    trim_spec(s@.subrange(i as int, j as int)),
                ] + rest);
                assert(r.deep_view() + rest =~= old_dv + (seq![
                    trim_spec(s@.subrange(i as int, j as int)),
                ] + rest));
            }
            i = j + 1;
        } else {
            proof {
                assert(seq![s@.subrange(i as int, j as int)].map_values(
                    |p: Seq<char>| trim_spec(p),
                ) =~= seq![trim_spec(s@.subrange(i as int, j as int))]);
                assert(r.deep_view() =~= old_dv + seq![
                    trim_spec(s@.subrange(i as int, j as int)),
                ]);
            }
            done = true;
        }
    }
    r
}

/// The pieces joined with single commas, the inverse shape of
/// `split_commas`.
pub open spec fn join_commas(l: Seq<Seq<char>>) -> Seq<char>
    decreases l.len(),
{
    if l.len() == 0 {
        Seq::empty()
    } else if l.len() == 1 {
        l[0]
    } else {
        join_commas(l.drop_last()) + seq![','] + l.last()
    }
}

/// Joins the items with commas, as a tag list is serialized for an upload
/// form.
pub fn join_with_commas(items: &Vec<String>) -> (r: String)
    ensures
        r@ == join_commas(items.deep_view()),
{
    let mut r = String::new();
    let mut i: usize = 0;
    proof {
        assert(items.deep_view().take(0) =~= Seq::<Seq<char>>::empty());
    }
    while i < items.len()
        invariant
            0 <= i <= items.len(),
            r@ == join_commas(items.deep_view().take(i as int)),
        decreases items.len() - i,
    {
        if i > 0 {
            r.append(",");
            proof {
                reveal_strlit(",");
                assert(","@ =~= seq![',']);
            }
        }
        r.append(items[i].as_str());
        proof {
            let dv = items.deep_view();
            assert(dv.take(i + 1).drop_last() =~= dv.take(i as int));
            assert(dv.take(i + 1).last() == dv[i as int]);
            assert(dv[i as int] == items@[i as int]@);
            if i == 0 {
                assert(r@ =~= join_commas(dv.take(1)));
            }
        }
        i += 1;
    }
    proof {
        assert(items.deep_view().take(items@.len() as int) =~= items.deep_view());
    }
    r
}

// ---------------------------------------------------------------------------
// Substring search
// ---------------------------------------------------------------------------

/// `p` occurs in `s` starting at offset `k`.
pub open spec fn has_substring_at(s: Seq<char>, p: Seq<char>, k: int) -> bool {
    0 <= k && k + p.len() <= s.len() && s.subrange(k, k + p.len()) == p
}

/// `p` occurs somewhere in `s`.
pub open spec fn has_substring(s: Seq<char>, p: Seq<char>) -> bool {
    exists|k: int| has_substring_at(s, p, k)
}

/// Substring search, as the classifier looks for the panic marker in
/// captured diagnostics.
pub fn contains_str(s: &str, p: &str) -> (r: bool)
    ensures
        r == has_substring(s@, p@),
{
    let n = s.unicode_len();
    let m = p.unicode_len();
    if m > n {
        proof {
            assert(forall|k: int| !has_substring_at(s@, p@, k));
        }
        return false;
    }
    let mut k: usize = 0;
    while k <= n - m
        invariant
            n == s@.len(),
            m == p@.len(),
            m <= n,
            0 <= k <= n - m + 1,
            forall|q: int| 0 <= q < k ==> !has_substring_at(s@, p@, q),
        decreases n - m - k + 1,
    {
        let mut t: usize = 0;
        let mut matched = true;
        while matched && t < m
            invariant
                n == s@.len(),
                m == p@.len(),
                k + m <= n,
                0 <= t <= m,
                matched ==> forall|u: int| 0 <= u < t ==> s@[k + u] == p@[u],
                !matched ==> exists|u: int| 0 <= u < m && s@[k + u] != p@[u],
            decreases m - t + (if matched { 1int } else { 0int }),
        {
            if s.get_char(k + t) != p.get_char(t) {
                matched = false;
            } else {
                t += 1;
            }
        }
        if matched {
            proof {
                assert(s@.subrange(k as int, k + m) =~= p@);
                assert(has_substring_at(s@, p@, k as int));
            }
            return true;
        }
        proof {
            if has_substring_at(s@, p@, k as int) {
                let u = choose|u: int| 0 <= u < m && s@[k + u] != p@[u];
                assert(s@.subrange(k as int, k + m)[u] == p@[u]);
            }
        }
        k += 1;
    }
    proof {
        assert(forall|q: int| q > n - m ==> !has_substring_at(s@, p@, q));
    }
    false
}

// ---------------------------------------------------------------------------
// Base file names
// ---------------------------------------------------------------------------

/// Index just past the last path separator (0 when there is none).
pub open spec fn base_start(s: Seq<char>) -> int
    decreases s.len(),
{
    if s.len() == 0 {
        0
    } else if is_sep_char(s.last()) {
        s.len() as int
    } else {
        base_start(s.drop_last())
    }
}

/// The part of a name after its last path separator: the only part of an
/// attacker-supplied name that may reach the file system.
pub open spec fn base_name_spec(s: Seq<char>) -> Seq<char> {
    s.subrange(base_start(s), s.len() as int)
}

pub proof fn lemma_base_start_props(s: Seq<char>)
    ensures
        0 <= base_start(s) <= s.len(),
        forall|i: int| base_start(s) <= i < s.len() ==> !is_sep_char(s[i]),
    decreases s.len(),
{
    if s.len() > 0 && !is_sep_char(s.last()) {
        let t = s.drop_last();
        lemma_base_start_props(t);
        assert forall|i: int| base_start(s) <= i < s.len() implies !is_sep_char(s[i]) by {
            if i < s.len() - 1 {
                assert(t[i] == s[i]);
                assert(!is_sep_char(t[i]));
            } else {
                assert(s[i] == s.last());
            }
        }
    }
}

proof fn lemma_base_start_char(s: Seq<char>, k: int)
    requires
        0 <= k <= s.len(),
        forall|i: int| k <= i < s.len() ==> !is_sep_char(s[i]),
        k > 0 ==> is_sep_char(s[k - 1]),
    ensures
        base_start(s) == k,
    decreases s.len(),
{
    if s.len() == 0 {
    } else if is_sep_char(s.last()) {
        assert(k == s.len());
    } else {
        assert(k < s.len());
        let t = s.drop_last();
        assert(forall|i: int| k <= i < t.len() ==> t[i] == s[i] && !is_sep_char(t[i]));
        lemma_base_start_char(t, k);
    }
}

/// Strips everything up to the last path separator from a name.
pub fn base_name(name: &str) -> (r: String)
    ensures
        r@ == base_name_spec(name@),
{
    let n = name.unicode_len();
    let mut k: usize = n;
    while k > 0 && !is_separator_char(name.get_char(k - 1))
        invariant
            n == name@.len(),
            0 <= k <= n,
            forall|i: int| k <= i < n ==> !is_sep_char(name@[i]),
        decreases k,
    {
        k -= 1;
    }
    proof {
        lemma_base_start_char(name@, k as int);
    }
    name.substring_char(k, n).to_owned()
}

/// A base name that may be used under the source subdirectory: nonempty and
/// not a relative-directory reference.
pub open spec fn safe_base(b: Seq<char>) -> bool {
    b.len() > 0 && b != seq!['.'] && b != seq!['.', '.']
}

pub fn is_safe_base(b: &str) -> (r: bool)
    ensures
        r == safe_base(b@),
{
    let n = b.unicode_len();
    if n == 0 {
        return false;
    }
    if n == 1 {
        let dot = b.get_char(0) == '.';
        proof {
            if dot {
                assert(b@ =~= seq!['.']);
            }
            if b@ == seq!['.'] {
                assert(b@[0] == '.');
            }
            assert(b@.len() != 2);
        }
        return !dot;
    }
    if n == 2 {
        let dots = b.get_char(0) == '.' && b.get_char(1) == '.';
        proof {
            if dots {
                assert(b@ =~= seq!['.', '.']);
            }
            if b@ == seq!['.', '.'] {
                assert(b@[0] == '.' && b@[1] == '.');
            }
            assert(b@.len() != 1);
        }
        return !dots;
    }
    proof {
        assert(b@.len() >= 3);
    }
    true
}

// ---------------------------------------------------------------------------
// Byte buffers
// ---------------------------------------------------------------------------

/// Copies a byte buffer.
pub fn clone_bytes(v: &Vec<u8>) -> (r: Vec<u8>)
    ensures
        r@ == v@,
{
    let mut r: Vec<u8> = Vec::new();
    let mut i: usize = 0;
    while i < v.len()
        invariant
            0 <= i <= v@.len(),
            r@ == v@.take(i as int),
        decreases v@.len() - i,
    {
        r.push(v[i]);
        proof {
            assert(v@.take(i + 1) =~= v@.take(i as int).push(v@[i as int]));
        }
        i += 1;
    }
    proof {
        assert(v@.take(v@.len() as int) =~= v@);
    }
    r
}

} // verus!
