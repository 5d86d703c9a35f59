//! Shared text utilities: whitespace trimming, string equality, line
//! splitting and decimal formatting, all specified over `Seq<char>` views.
use vstd::prelude::*;
use vstd::string::*;

verus! {

/// The characters with the Unicode `White_Space` property, the set that
/// `str::trim` removes from both ends of a string.
pub open spec fn is_space_char(c: char) -> bool {
    ||| (0x09 <= c as u32 && c as u32 <= 0x0d)
    ||| c as u32 == 0x20
    ||| c as u32 == 0x85
    ||| c as u32 == 0xa0
    ||| c as u32 == 0x1680
    ||| (0x2000 <= c as u32 && c as u32 <= 0x200a)
    ||| c as u32 == 0x2028
    ||| c as u32 == 0x2029
    ||| c as u32 == 0x202f
    ||| c as u32 == 0x205f
    ||| c as u32 == 0x3000
}

pub fn is_space(c: char) -> (r: bool)
    ensures
        r == is_space_char(c),
{
    let u = c as u32;
    (0x09 <= u && u <= 0x0d) || u == 0x20 || u == 0x85 || u == 0xa0 || u == 0x1680
        || (0x2000 <= u && u <= 0x200a) || u == 0x2028 || u == 0x2029 || u == 0x202f
        || u == 0x205f || u == 0x3000
}

pub open spec fn trim_start_rec(s: Seq<char>) -> Seq<char>
    decreases s.len(),
{
    if s.len() > 0 && is_space_char(s[0]) {
        trim_start_rec(s.skip(1))
    } else {
        s
    }
}

pub open spec fn trim_end_rec(s: Seq<char>) -> Seq<char>
    decreases s.len(),
{
    if s.len() > 0 && is_space_char(s.last()) {
        trim_end_rec(s.drop_last())
    } else {
        s
    }
}

/// What `str::trim` leaves: the input with leading and trailing
/// whitespace removed.
pub open spec fn trim_spec(s: Seq<char>) -> Seq<char> {
    trim_end_rec(trim_start_rec(s))
}

pub fn trim(s: &str) -> (r: &str)
    ensures
        r@ == trim_spec(s@),
{
    let len = s.unicode_len();
    let mut i: usize = 0;
    proof {
        assert(s@.skip(0) =~= s@);
    }
    while i < len && is_space(s.get_char(i))
        invariant
            i <= len,
            len == s@.len(),
            trim_start_rec(s@) == trim_start_rec(s@.skip(i as int)),
        decreases len - i,
    {
        proof {
            assert(s@.skip(i as int)[0] == s@[i as int]);
            assert(s@.skip(i as int).skip(1) =~= s@.skip(i + 1));
        }
        i = i + 1;
    }
    proof {
        if i < len {
            assert(s@.skip(i as int)[0] == s@[i as int]);
        }
        assert(trim_start_rec(s@) == s@.skip(i as int));
    }
    let mut j: usize = len;
    proof {
        assert(s@.subrange(i as int, len as int) =~= s@.skip(i as int));
    }
    while j > i && is_space(s.get_char(j - 1))
        invariant
            i <= j <= len,
            len == s@.len(),
            trim_start_rec(s@) == s@.skip(i as int),
            trim_spec(s@) == trim_end_rec(s@.subrange(i as int, j as int)),
        decreases j,
    {
        proof {
            let sub = s@.subrange(i as int, j as int);
            assert(sub.last() == s@[j - 1]);
            assert(sub.drop_last() =~= s@.subrange(i as int, j - 1));
        }
        j = j - 1;
    }
    proof {
        let sub = s@.subrange(i as int, j as int);
        if j > i {
            assert(sub.last() == s@[j - 1]);
        }
        assert(trim_end_rec(sub) == sub);
    }
    s.substring_char(i, j)
}

/// Relies on `String: FromIterator<char>`: collecting characters yields
/// the string of exactly those characters, in order.
#[verifier::external_body]
pub fn chars_to_string(v: &Vec<char>) -> (r: String)
    ensures
        r@ == v@,
{
    v.iter().collect()
}

/// Character-for-character string equality, the meaning of `==` on `str`.
pub fn str_eq(a: &str, b: &str) -> (r: bool)
    ensures
        r == (a@ == b@),
{
    let alen = a.unicode_len();
    let blen = b.unicode_len();
    if alen != blen {
        return false;
    }
    let mut i: usize = 0;
    while i < alen
        invariant
            i <= alen,
            alen == a@.len(),
            alen == b@.len(),
            forall|k: int| 0 <= k < i ==> a@[k] == b@[k],
        decreases alen - i,
    {
        if a.get_char(i) != b.get_char(i) {
            return false;
        }
        i = i + 1;
    }
    proof {
        assert(a@ =~= b@);
    }
    true
}

/// Lexicographic order on character sequences, by code point. UTF-8 keeps
/// code-point order under byte-wise comparison, so this is exactly the
/// order `str`'s own ordering (and so a standard sort of `String`s) uses.
pub open spec fn seq_le(a: Seq<char>, b: Seq<char>) -> bool
    decreases a.len(),
{
    if a.len() == 0 {
        true
    } else if b.len() == 0 {
        false
    } else if (a[0] as u32) < (b[0] as u32) {
        true
    } else if (a[0] as u32) > (b[0] as u32) {
        false
    } else {
        seq_le(a.skip(1), b.skip(1))
    }
}

/// The order is total: of any two strings, one is less-or-equal the other.
pub proof fn lemma_seq_le_total(a: Seq<char>, b: Seq<char>)
    ensures
        seq_le(a, b) || seq_le(b, a),
    decreases a.len(),
{
    if a.len() > 0 && b.len() > 0 && a[0] as u32 == b[0] as u32 {
        lemma_seq_le_total(a.skip(1), b.skip(1));
    }
}

/// The order is transitive.
pub proof fn lemma_seq_le_trans(a: Seq<char>, b: Seq<char>, c: Seq<char>)
    requires
        seq_le(a, b),
        seq_le(b, c),
    ensures
        seq_le(a, c),
    decreases a.len(),
{
    if a.len() > 0 && b.len() > 0 && c.len() > 0 && a[0] as u32 == b[0] as u32 && b[0] as u32
        == c[0] as u32 {
        lemma_seq_le_trans(a.skip(1), b.skip(1), c.skip(1));
    }
}

/// Lexicographic less-or-equal on strings.
pub fn str_le(a: &str, b: &str) -> (r: bool)
    ensures
        r == seq_le(a@, b@),
{
    let alen = a.unicode_len();
    let blen = b.unicode_len();
    let mut i: usize = 0;
    proof {
        assert(a@.skip(0) =~= a@);
        assert(b@.skip(0) =~= b@);
    }
    while i < alen && i < blen
        invariant
            i <= alen,
            i <= blen,
            alen == a@.len(),
            blen == b@.len(),
            seq_le(a@, b@) == seq_le(a@.skip(i as int), b@.skip(i as int)),
        decreases alen - i,
    {
        let ca = a.get_char(i) as u32;
        let cb = b.get_char(i) as u32;
        proof {
            assert(a@.skip(i as int)[0] == a@[i as int]);
            assert(b@.skip(i as int)[0] == b@[i as int]);
            assert(a@.skip(i as int).skip(1) =~= a@.skip(i + 1));
            assert(b@.skip(i as int).skip(1) =~= b@.skip(i + 1));
        }
        if ca < cb {
            return true;
        }
        if ca > cb {
            return false;
        }
        i = i + 1;
    }
    proof {
        if i == alen {
            assert(a@.skip(i as int).len() == 0);
        } else {
            assert(b@.skip(i as int).len() == 0);
            assert(a@.skip(i as int).len() > 0);
        }
    }
    alen <= blen
}

/// The views of a sequence of strings.
pub open spec fn views_of(s: Seq<String>) -> Seq<Seq<char>> {
    Seq::new(s.len(), |i: int| s[i]@)
}

pub proof fn lemma_views_concat(a: Seq<String>, b: Seq<String>)
    ensures
        views_of(a + b) == views_of(a) + views_of(b),
{
    assert(views_of(a + b) =~= views_of(a) + views_of(b));
}

/// The strings stand in non-decreasing lexicographic order.
pub open spec fn sorted_strings(s: Seq<Seq<char>>) -> bool {
    forall|i: int, j: int| 0 <= i < j < s.len() ==> seq_le(#[trigger] s[i], #[trigger] s[j])
}

/// Sorts strings into lexicographic order by insertion: the result is
/// sorted and holds exactly the given strings.
pub fn sort_strings(v: &Vec<String>) -> (r: Vec<String>)
    ensures
        sorted_strings(r.deep_view()),
        r@.to_multiset() == v@.to_multiset(),
{
    broadcast use vstd::seq_lib::group_to_multiset_ensures;

    let mut out: Vec<String> = Vec::new();
    let mut i: usize = 0;
    proof {
        assert(out@.to_multiset() =~= v@.take(0).to_multiset());
    }
    while i < v.len()
        invariant
            i <= v.len(),
            sorted_strings(out.deep_view()),
            out@.to_multiset() == v@.take(i as int).to_multiset(),
        decreases v.len() - i,
    {
        let x = v[i].clone();
        let mut p: usize = 0;
        while p < out.len() && str_le(out[p].as_str(), x.as_str())
            invariant
                p <= out.len(),
                forall|k: int| 0 <= k < p ==> seq_le(#[trigger] out.deep_view()[k], x@),
            decreases out.len() - p,
        {
            proof {
                assert(out.deep_view()[p as int] == out[p as int]@);
            }
            p = p + 1;
        }
        let ghost old_out = out@;
        let ghost old_dv = out.deep_view();
        proof {
            if p < out.len() {
                assert(old_dv[p as int] == out[p as int]@);
                lemma_seq_le_total(old_dv[p as int], x@);
            }
            assert forall|k: int| p <= k < old_dv.len() implies seq_le(
                x@,
                #[trigger] old_dv[k],
            ) by {
                if k > p {
                    lemma_seq_le_trans(x@, old_dv[p as int], old_dv[k]);
                }
            }
        }
        out.insert(p, x);
        proof {
            let inserted = old_out.insert(p as int, x);
            old_out.insert_ensures(p as int, x);
            assert(out@ == inserted);
            assert forall|m: int, n: int|
                0 <= m < n < out.deep_view().len() implies seq_le(
                #[trigger] out.deep_view()[m],
                #[trigger] out.deep_view()[n],
            ) by {
                let dv = out.deep_view();
                assert(dv[m] == inserted[m]@);
                assert(dv[n] == inserted[n]@);
                if n < p {
                    assert(inserted[m] == old_out[m]);
                    assert(inserted[n] == old_out[n]);
                    assert(old_dv[m] == old_out[m]@ && old_dv[n] == old_out[n]@);
                } else if n == p {
                    assert(inserted[m] == old_out[m]);
                    assert(inserted[n] == x);
                    assert(old_dv[m] == old_out[m]@);
                } else if m < p {
                    assert(inserted[m] == old_out[m]);
                    assert(inserted[n] == old_out[n - 1]);
                    assert(old_dv[m] == old_out[m]@ && old_dv[n - 1] == old_out[n - 1]@);
                } else if m == p {
                    assert(inserted[m] == x);
                    assert(inserted[n] == old_out[n - 1]);
                    assert(old_dv[n - 1] == old_out[n - 1]@);
                } else {
                    assert(inserted[m] == old_out[m - 1]);
                    assert(inserted[n] == old_out[n - 1]);
                    assert(old_dv[m - 1] == old_out[m - 1]@ && old_dv[n - 1] == old_out[n - 1]@);
                }
            }
            assert(out@.to_multiset() =~= v@.take(i + 1).to_multiset()) by {
                let sub0 = old_out.subrange(0, p as int);
                let sub1 = old_out.subrange(p as int, old_out.len() as int);
                sub0.to_multiset_ensures();
                v@.take(i as int).to_multiset_ensures();
                assert(out@ == sub0.push(x) + sub1);
                vstd::seq_lib::lemma_multiset_commutative(sub0.push(x), sub1);
                vstd::seq_lib::lemma_multiset_commutative(sub0, sub1);
                assert(sub0 + sub1 =~= old_out);
                assert((sub0.push(x)).to_multiset() =~= sub0.to_multiset().insert(x));
                assert(old_out.to_multiset() == sub0.to_multiset().add(sub1.to_multiset()));
                assert(x == v@[i as int]);
                assert(v@.take(i + 1) =~= v@.take(i as int).push(v@[i as int]));
                assert(v@.take(i + 1).to_multiset() =~= v@.take(i as int).to_multiset().insert(
                    v@[i as int],
                ));
            }
        }
        i = i + 1;
    }
    proof {
        assert(v@.take(v.len() as int) =~= v@);
    }
    out
}

/// Removes a single trailing carriage return, as `str::lines` does at a
/// `\r\n` line ending.
pub open spec fn strip_cr(l: Seq<char>) -> Seq<char> {
    if l.len() > 0 && l.last() == '\r' {
        l.drop_last()
    } else {
        l
    }
}

/// Index of the first occurrence of `c` in `s`, or `s.len()` if there is
/// none.
pub open spec fn find_char(s: Seq<char>, c: char) -> int
    decreases s.len(),
{
    if s.len() == 0 {
        0
    } else if s[0] == c {
        0
    } else {
        1 + find_char(s.skip(1), c)
    }
}

pub proof fn lemma_find_char_bounds(s: Seq<char>, c: char)
    ensures
        0 <= find_char(s, c) <= s.len(),
        find_char(s, c) < s.len() ==> s[find_char(s, c)] == c,
        forall|k: int| 0 <= k < find_char(s, c) ==> s[k] != c,
    decreases s.len(),
{
    if s.len() == 0 {
    } else if s[0] == c {
    } else {
        lemma_find_char_bounds(s.skip(1), c);
        assert forall|k: int| 0 <= k < find_char(s, c) implies s[k] != c by {
            if k > 0 {
                assert(s.skip(1)[k - 1] == s[k]);
            }
        }
        if find_char(s, c) < s.len() {
            assert(s.skip(1)[find_char(s, c) - 1] == s[find_char(s, c)]);
        }
    }
}

pub proof fn lemma_find_char_at(s: Seq<char>, c: char, j: int)
    requires
        0 <= j <= s.len(),
        forall|k: int| 0 <= k < j ==> s[k] != c,
        j < s.len() ==> s[j] == c,
    ensures
        find_char(s, c) == j,
    decreases j,
{
    if j == 0 {
    } else {
        assert(s[0] != c);
        lemma_find_char_at(s.skip(1), c, j - 1);
    }
}

/// Position of the first occurrence of `c`, if `c` occurs in `s`.
pub fn find_char_in(s: &str, c: char) -> (r: Option<usize>)
    ensures
        match r {
            Some(i) => i == find_char(s@, c) && i < s@.len() && s@[i as int] == c,
            None => find_char(s@, c) == s@.len(),
        },
{
    let len = s.unicode_len();
    let mut i: usize = 0;
    while i < len
        invariant
            i <= len,
            len == s@.len(),
            forall|k: int| 0 <= k < i ==> s@[k] != c,
        decreases len - i,
    {
        if s.get_char(i) == c {
            proof {
                lemma_find_char_at(s@, c, i as int);
            }
            return Some(i);
        }
        i = i + 1;
    }
    proof {
        lemma_find_char_at(s@, c, len as int);
    }
    None
}

#[via_fn]
proof fn split_lines_decreases(s: Seq<char>) {
    lemma_find_char_bounds(s, '\n');
}

/// The lines of `s` in the sense of `str::lines`: split at `\n`, strip one
/// `\r` before each split point, no entry for a trailing terminator.
pub open spec fn split_lines(s: Seq<char>) -> Seq<Seq<char>>
    decreases s.len(),
        via split_lines_decreases
{
    if s.len() == 0 {
        Seq::empty()
    } else {
        let i = find_char(s, '\n');
        if i == s.len() {
            seq![s]
        } else {
            seq![strip_cr(s.subrange(0, i))] + split_lines(s.skip(i + 1))
        }
    }
}

pub fn lines_of(s: &str) -> (r: Vec<String>)
    ensures
        r.deep_view() == split_lines(s@),
{
    let len = s.unicode_len();
    let mut r: Vec<String> = Vec::new();
    let mut start: usize = 0;
    let mut pos: usize = 0;
    proof {
        assert(r.deep_view() =~= Seq::<Seq<char>>::empty());
        assert(s@.skip(0) =~= s@);
    }
    while pos < len
        invariant
            start <= pos <= len,
            len == s@.len(),
            forall|k: int| start <= k < pos ==> s@[k] != '\n',
            r.deep_view() + split_lines(s@.skip(start as int)) =~= split_lines(s@),
        decreases len - pos,
    {
        if s.get_char(pos) == '\n' {
            let line = if pos > start && s.get_char(pos - 1) == '\r' {
                s.substring_char(start, pos - 1)
            } else {
                s.substring_char(start, pos)
            };
            proof {
                let t = s@.skip(start as int);
                assert forall|k: int| 0 <= k < pos - start implies t[k] != '\n' by {
                    assert(t[k] == s@[start + k]);
                }
                assert(t[pos - start] == s@[pos as int]);
                lemma_find_char_at(t, '\n', pos - start);
                assert(t.subrange(0, pos - start) =~= s@.subrange(
                    start as int,
                    pos as int,
                ));
                if pos > start && s@[pos - 1] == '\r' {
                    assert(s@.subrange(start as int, pos as int).last() == s@[pos - 1]);
                    assert(s@.subrange(start as int, pos as int).drop_last() =~= s@.subrange(
                        start as int,
                        pos - 1,
                    ));
                    assert(line@ == strip_cr(t.subrange(0, pos - start)));
                } else {
                    let sub = s@.subrange(start as int, pos as int);
                    if sub.len() > 0 {
                        assert(sub.last() == s@[pos - 1]);
                    }
                    assert(line@ == strip_cr(t.subrange(0, pos - start)));
                }
                assert(t.skip(pos - start + 1) =~= s@.skip(pos + 1));
                assert(split_lines(t) == seq![strip_cr(t.subrange(0, pos - start))]
                    + split_lines(s@.skip(pos + 1)));
            }
            let ghost old_r = r.deep_view();
            r.push(String::from_str(line));
            proof {
                assert(r.deep_view() =~= old_r.push(line@));
            }
            start = pos + 1;
        }
        pos = pos + 1;
    }
    if start < len {
        let line = s.substring_char(start, len);
        proof {
            let t = s@.skip(start as int);
            assert forall|k: int| 0 <= k < t.len() implies t[k] != '\n' by {
                assert(t[k] == s@[start + k]);
            }
            lemma_find_char_at(t, '\n', t.len() as int);
            assert(line@ =~= t);
        }
        let ghost old_r = r.deep_view();
        r.push(String::from_str(line));
        proof {
            assert(r.deep_view() =~= old_r.push(line@));
            assert(split_lines(s@.skip(start as int)) =~= seq![s@.skip(start as int)]);
        }
    } else {
        proof {
            assert(s@.skip(start as int).len() == 0);
        }
    }
    r
}

/// Index of the first whitespace character in `s`, or `s.len()` if there
/// is none.
pub open spec fn first_space(s: Seq<char>) -> int
    decreases s.len(),
{
    if s.len() == 0 {
        0
    } else if is_space_char(s[0]) {
        0
    } else {
        1 + first_space(s.skip(1))
    }
}

pub proof fn lemma_first_space_bounds(s: Seq<char>)
    ensures
        0 <= first_space(s) <= s.len(),
        first_space(s) < s.len() ==> is_space_char(s[first_space(s)]),
        forall|k: int| 0 <= k < first_space(s) ==> !is_space_char(s[k]),
    decreases s.len(),
{
    if s.len() == 0 {
    } else if is_space_char(s[0]) {
    } else {
        lemma_first_space_bounds(s.skip(1));
        assert forall|k: int| 0 <= k < first_space(s) implies !is_space_char(s[k]) by {
            if k > 0 {
                assert(s.skip(1)[k - 1] == s[k]);
            }
        }
        if first_space(s) < s.len() {
            assert(s.skip(1)[first_space(s) - 1] == s[first_space(s)]);
        }
    }
}

pub proof fn lemma_first_space_at(s: Seq<char>, j: int)
    requires
        0 <= j <= s.len(),
        forall|k: int| 0 <= k < j ==> !is_space_char(s[k]),
        j < s.len() ==> is_space_char(s[j]),
    ensures
        first_space(s) == j,
    decreases j,
{
    if j == 0 {
    } else {
        assert(!is_space_char(s[0]));
        lemma_first_space_at(s.skip(1), j - 1);
    }
}

#[via_fn]
proof fn split_ws_decreases(s: Seq<char>) {
    lemma_first_space_bounds(s);
}

/// The whitespace-separated words of `s`, in the sense of
/// `str::split_whitespace`: maximal runs of non-whitespace characters.
pub open spec fn split_ws(s: Seq<char>) -> Seq<Seq<char>>
    decreases s.len(),
        via split_ws_decreases
{
    if s.len() == 0 {
        Seq::empty()
    } else if is_space_char(s[0]) {
        split_ws(s.skip(1))
    } else {
        seq![s.subrange(0, first_space(s))] + split_ws(s.skip(first_space(s)))
    }
}

proof fn lemma_split_ws_word(s: Seq<char>, j: int)
    requires
        0 <= j <= s.len(),
        forall|k: int| 0 <= k < j ==> !is_space_char(s[k]),
        j < s.len() ==> is_space_char(s[j]),
        j > 0,
    ensures
        split_ws(s) == seq![s.subrange(0, j)] + split_ws(s.skip(j)),
{
    lemma_first_space_at(s, j);
}

pub fn split_whitespace(s: &str) -> (r: Vec<String>)
    ensures
        r.deep_view() == split_ws(s@),
{
    let len = s.unicode_len();
    let mut r: Vec<String> = Vec::new();
    let mut pos: usize = 0;
    proof {
        assert(r.deep_view() =~= Seq::<Seq<char>>::empty());
        assert(s@.skip(0) =~= s@);
    }
    while pos < len
        invariant
            pos <= len,
            len == s@.len(),
            r.deep_view() + split_ws(s@.skip(pos as int)) =~= split_ws(s@),
        decreases len - pos,
    {
        if is_space(s.get_char(pos)) {
            proof {
                assert(s@.skip(pos as int)[0] == s@[pos as int]);
                assert(s@.skip(pos as int).skip(1) =~= s@.skip(pos + 1));
            }
            pos = pos + 1;
        } else {
            let mut wend: usize = pos + 1;
            while wend < len && !is_space(s.get_char(wend))
                invariant
                    pos < wend <= len,
                    len == s@.len(),
                    forall|k: int| pos <= k < wend ==> !is_space_char(s@[k]),
                decreases len - wend,
            {
                wend = wend + 1;
            }
            let word = s.substring_char(pos, wend);
            proof {
                let t = s@.skip(pos as int);
                assert forall|k: int| 0 <= k < wend - pos implies !is_space_char(t[k]) by {
                    assert(t[k] == s@[pos + k]);
                }
                if wend < len {
                    assert(t[wend - pos] == s@[wend as int]);
                }
                lemma_split_ws_word(t, wend - pos);
                assert(t.subrange(0, wend - pos) =~= s@.subrange(pos as int, wend as int));
                assert(t.skip(wend - pos) =~= s@.skip(wend as int));
            }
            let ghost old_r = r.deep_view();
            r.push(String::from_str(word));
            proof {
                assert(r.deep_view() =~= old_r.push(word@));
                assert(old_r.push(word@) + split_ws(s@.skip(wend as int)) =~= old_r + (seq![
                    word@,
                ] + split_ws(s@.skip(wend as int))));
            }
            pos = wend;
        }
    }
    proof {
        assert(s@.skip(len as int).len() == 0);
    }
    r
}

/// `parts` interleaved with `sep`, as `[T]::join` builds it.
pub open spec fn joined(parts: Seq<Seq<char>>, sep: Seq<char>) -> Seq<char>
    decreases parts.len(),
{
    if parts.len() == 0 {
        Seq::empty()
    } else if parts.len() == 1 {
        parts[0]
    } else {
        parts[0] + sep + joined(parts.skip(1), sep)
    }
}

pub proof fn lemma_joined_push(parts: Seq<Seq<char>>, sep: Seq<char>, x: Seq<char>)
    ensures
        joined(parts.push(x), sep) == if parts.len() == 0 {
            x
        } else {
            joined(parts, sep) + sep + x
        },
    decreases parts.len(),
{
    if parts.len() == 0 {
        assert(parts.push(x)[0] == x);
        assert(joined(parts.push(x), sep) == x);
    } else if parts.len() == 1 {
        assert(parts.push(x).skip(1) =~= seq![x]);
        assert(parts.push(x)[0] == parts[0]);
        assert(joined(seq![x], sep) == x);
        assert(joined(parts.push(x), sep) == parts[0] + sep + x);
        assert(joined(parts, sep) == parts[0]);
    } else {
        lemma_joined_push(parts.skip(1), sep, x);
        assert(parts.push(x).skip(1) =~= parts.skip(1).push(x));
        assert(parts.push(x)[0] == parts[0]);
        assert(parts[0] + sep + (joined(parts.skip(1), sep) + sep + x) =~= (parts[0] + sep
            + joined(parts.skip(1), sep)) + sep + x);
    }
}

pub fn join_with(parts: &Vec<String>, sep: &str) -> (r: String)
    ensures
        r@ == joined(parts.deep_view(), sep@),
{
    let mut r = String::new();
    let mut k: usize = 0;
    proof {
        assert(parts.deep_view().take(0) =~= Seq::<Seq<char>>::empty());
    }
    while k < parts.len()
        invariant
            k <= parts.len(),
            r@ == joined(parts.deep_view().take(k as int), sep@),
        decreases parts.len() - k,
    {
        if k > 0 {
            r.append(sep);
        }
        r.append(parts[k].as_str());
        proof {
            let dv = parts.deep_view();
            assert(dv.take(k + 1) =~= dv.take(k as int).push(dv[k as int]));
            lemma_joined_push(dv.take(k as int), sep@, dv[k as int]);
            assert(dv[k as int] == parts[k as int]@);
        }
        k = k + 1;
    }
    proof {
        assert(parts.deep_view().take(parts.len() as int) =~= parts.deep_view());
    }
    r
}

pub open spec fn dec_digit_char(d: int) -> char {
    if d == 0 {
        '0'
    } else if d == 1 {
        '1'
    } else if d == 2 {
        '2'
    } else if d == 3 {
        '3'
    } else if d == 4 {
        '4'
    } else if d == 5 {
        '5'
    } else if d == 6 {
        '6'
    } else if d == 7 {
        '7'
    } else if d == 8 {
        '8'
    } else {
        '9'
    }
}

/// The decimal representation of a non-negative integer, most significant
/// digit first, with no leading zeros (a lone zero for 0).
pub open spec fn dec_rep(n: int) -> Seq<char>
    decreases n,
{
    if n < 10 {
        seq![dec_digit_char(n)]
    } else {
        dec_rep(n / 10).push(dec_digit_char(n % 10))
    }
}

fn digit_str(d: u64) -> (r: &'static str)
    requires
        d < 10,
    ensures
        r@ =~= seq![dec_digit_char(d as int)],
{
    proof {
        reveal_strlit("0");
        reveal_strlit("1");
        reveal_strlit("2");
        reveal_strlit("3");
        reveal_strlit("4");
        reveal_strlit("5");
        reveal_strlit("6");
        reveal_strlit("7");
        reveal_strlit("8");
        reveal_strlit("9");
    }
    if d == 0 {
        "0"
    } else if d == 1 {
        "1"
    } else if d == 2 {
        "2"
    } else if d == 3 {
        "3"
    } else if d == 4 {
        "4"
    } else if d == 5 {
        "5"
    } else if d == 6 {
        "6"
    } else if d == 7 {
        "7"
    } else if d == 8 {
        "8"
    } else {
        "9"
    }
}

pub fn u64_to_string(n: u64) -> (r: String)
    ensures
        r@ == dec_rep(n as int),
    decreases n,
{
    if n < 10 {
        String::from_str(digit_str(n))
    } else {
        let mut s = u64_to_string(n / 10);
        s.append(digit_str(n % 10));
        proof {
            assert(s@ =~= dec_rep(n as int));
        }
        s
    }
}

} // verus!
