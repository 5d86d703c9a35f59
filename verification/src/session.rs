//! The per-directory conversation transcript and the prompt history: turn
//! blocks, turn counting, staleness, deduplicated recent prompts, and the
//! file names they live under.
//!
//! Reading and writing the files is the surrounding program's job; these
//! functions work on the files' text and ages as plain values.
use vstd::prelude::*;
use vstd::string::*;

use md5::{Digest, Md5};

use crate::text::{lines_of, split_lines, str_eq, trim, trim_spec};

verus! {

/// Transcript inactivity timeout, in seconds.
pub const SESSION_TIMEOUT: u64 = 3600;

/// The marker that opens each user turn; turns are counted by it.
pub open spec fn user_marker() -> Seq<char> {
    "## User:"@
}

/// `pat` occurs in `s` at position `i`.
pub open spec fn matches_at(s: Seq<char>, pat: Seq<char>, i: int) -> bool {
    0 <= i && i + pat.len() <= s.len() && s.subrange(i, i + pat.len()) == pat
}

/// `sub` occurs somewhere in `s`.
pub open spec fn contains_seq(s: Seq<char>, sub: Seq<char>) -> bool {
    exists|i: int| matches_at(s, sub, i)
}

/// Number of positions at or after `i` where `pat` occurs in `s`.
pub open spec fn count_from(s: Seq<char>, pat: Seq<char>, i: int) -> nat
    decreases s.len() + 1 - i,
{
    if i < 0 || i + pat.len() > s.len() {
        0
    } else {
        (if matches_at(s, pat, i) {
            1nat
        } else {
            0nat
        }) + count_from(s, pat, i + 1)
    }
}

/// Number of positions where `pat` occurs in `s`.
pub open spec fn count_matches(s: Seq<char>, pat: Seq<char>) -> nat {
    count_from(s, pat, 0)
}

fn window_eq(s: &str, pat: &str, i: usize, slen: usize, plen: usize) -> (r: bool)
    requires
        slen == s@.len(),
        plen == pat@.len(),
        i + plen <= slen,
    ensures
        r == matches_at(s@, pat@, i as int),
{
    let mut j: usize = 0;
    while j < plen
        invariant
            j <= plen,
            plen == pat@.len(),
            slen == s@.len(),
            i + plen <= slen,
            forall|k: int| 0 <= k < j ==> s@[i + k] == pat@[k],
        decreases plen - j,
    {
        if s.get_char(i + j) != pat.get_char(j) {
            proof {
                assert(s@.subrange(i as int, i + plen) != pat@) by {
                    assert(s@.subrange(i as int, i + plen)[j as int] == s@[i + j]);
                }
            }
            return false;
        }
        j = j + 1;
    }
    proof {
        assert(s@.subrange(i as int, i + plen) =~= pat@);
    }
    true
}

/// Number of positions where `pat` occurs in `s` (counting overlapping
/// occurrences; the turn marker cannot overlap itself).
pub fn count_occurrences(s: &str, pat: &str) -> (r: usize)
    requires
        pat@.len() > 0,
    ensures
        r == count_matches(s@, pat@),
{
    let slen = s.unicode_len();
    let plen = pat.unicode_len();
    if plen > slen {
        return 0;
    }
    let mut count: usize = 0;
    let mut i: usize = 0;
    while i <= slen - plen
        invariant
            plen == pat@.len(),
            slen == s@.len(),
            plen <= slen,
            0 < plen,
            i <= slen,
            count <= i,
            count + count_from(s@, pat@, i as int) == count_matches(s@, pat@),
        decreases slen - i,
    {
        proof {
            assert(i + plen <= slen);
        }
        if window_eq(s, pat, i, slen, plen) {
            count = count + 1;
        }
        i = i + 1;
    }
    proof {
        assert(count_from(s@, pat@, i as int) == 0);
    }
    count
}

pub proof fn lemma_matches_within_left(a: Seq<char>, b: Seq<char>, pat: Seq<char>, i: int)
    requires
        0 <= i,
        i + pat.len() <= a.len(),
    ensures
        matches_at(a + b, pat, i) == matches_at(a, pat, i),
{
    assert((a + b).subrange(i, i + pat.len() as int) =~= a.subrange(i, i + pat.len() as int));
}

pub proof fn lemma_matches_shift_right(a: Seq<char>, b: Seq<char>, pat: Seq<char>, i: int)
    requires
        0 <= i,
    ensures
        matches_at(a + b, pat, a.len() + i) == matches_at(b, pat, i),
{
    if i + pat.len() <= b.len() {
        assert((a + b).subrange(a.len() + i, a.len() + i + pat.len() as int) =~= b.subrange(
            i,
            i + pat.len() as int,
        ));
    }
}

proof fn lemma_count_tail(a: Seq<char>, b: Seq<char>, pat: Seq<char>, j: int)
    requires
        0 <= j,
        pat.len() > 0,
    ensures
        count_from(a + b, pat, a.len() + j) == count_from(b, pat, j),
    decreases b.len() + 1 - j,
{
    if j + pat.len() > b.len() {
        assert(count_from(b, pat, j) == 0);
        assert(a.len() + j + pat.len() > (a + b).len());
        assert(count_from(a + b, pat, a.len() + j) == 0);
    } else {
        lemma_matches_shift_right(a, b, pat, j);
        lemma_count_tail(a, b, pat, j + 1);
        assert(count_from(a + b, pat, a.len() + j) == (if matches_at(a + b, pat, a.len() + j) {
            1nat
        } else {
            0nat
        }) + count_from(a + b, pat, a.len() + (j + 1)));
    }
}

proof fn lemma_count_head(a: Seq<char>, b: Seq<char>, pat: Seq<char>, i: int)
    requires
        0 <= i <= a.len(),
        pat.len() > 0,
        forall|k: int| a.len() - pat.len() < k < a.len() ==> !matches_at(a + b, pat, k),
    ensures
        count_from(a + b, pat, i) == count_from(a, pat, i) + count_from(b, pat, 0),
    decreases a.len() - i,
{
    if i == a.len() {
        lemma_count_tail(a, b, pat, 0);
        assert(count_from(a, pat, i) == 0);
    } else if i + pat.len() > a.len() {
        assert(count_from(a, pat, i) == 0);
        assert(count_from(a, pat, i + 1) == 0);
        if i + pat.len() > (a + b).len() {
            assert(count_from(a + b, pat, i) == 0);
            assert(pat.len() > b.len());
            assert(count_from(b, pat, 0) == 0);
        } else {
            assert(!matches_at(a + b, pat, i));
            lemma_count_head(a, b, pat, i + 1);
        }
    } else {
        lemma_matches_within_left(a, b, pat, i);
        lemma_count_head(a, b, pat, i + 1);
    }
}

/// Occurrence counts add over concatenation when no occurrence spans the
/// seam.
pub proof fn lemma_count_concat(a: Seq<char>, b: Seq<char>, pat: Seq<char>)
    requires
        pat.len() > 0,
        forall|k: int| a.len() - pat.len() < k < a.len() ==> !matches_at(a + b, pat, k),
    ensures
        count_matches(a + b, pat) == count_matches(a, pat) + count_matches(b, pat),
{
    lemma_count_head(a, b, pat, 0);
}

proof fn lemma_count_none_from(s: Seq<char>, pat: Seq<char>, j: int)
    requires
        0 <= j,
        pat.len() > 0,
        forall|i: int| i >= j ==> !matches_at(s, pat, i),
    ensures
        count_from(s, pat, j) == 0,
    decreases s.len() + 1 - j,
{
    if j + pat.len() > s.len() {
    } else {
        lemma_count_none_from(s, pat, j + 1);
    }
}

proof fn lemma_count_single(s: Seq<char>, pat: Seq<char>)
    requires
        pat.len() > 0,
        matches_at(s, pat, 0),
        forall|i: int| i >= 1 ==> !matches_at(s, pat, i),
    ensures
        count_matches(s, pat) == 1,
{
    lemma_count_none_from(s, pat, 1);
}

proof fn lemma_marker_chars()
    ensures
        user_marker().len() == 8,
        user_marker()[0] == '#',
        user_marker()[1] == '#',
        user_marker()[2] == ' ',
        user_marker()[3] == 'U',
        user_marker()[4] == 's',
        user_marker()[5] == 'e',
        user_marker()[6] == 'r',
        user_marker()[7] == ':',
{
    reveal_strlit("## User:");
}

/// No occurrence of the turn marker can straddle the seam between existing
/// transcript text and an appended turn block, because the marker has no
/// proper border: any straddling occurrence would overlap the block's own
/// leading marker at a shift the marker's characters rule out.
pub proof fn lemma_no_seam_match(content: Seq<char>, u: Seq<char>, resp: Seq<char>)
    ensures
        forall|k: int|
            content.len() - 8 < k < content.len() ==> !matches_at(
                content + turn_block(u, resp),
                user_marker(),
                k,
            ),
{
    let pat = user_marker();
    let block = turn_block(u, resp);
    let s = content + block;
    lemma_marker_chars();
    reveal_strlit("## User: ");
    assert forall|k: int| content.len() - 8 < k < content.len() implies !matches_at(
        s,
        pat,
        k,
    ) by {
        if matches_at(s, pat, k) {
            let d = content.len() - k;
            let j: int = if d == 1 {
                2
            } else {
                d
            };
            assert(s.subrange(k, k + 8)[j] == s[k + j]);
            assert(s[k + j] == block[j - d]);
            assert(block[j - d] == "## User: "@[j - d]);
            assert(pat[j] == pat[j - d]);
            assert(false);
        }
    }
}

/// A turn block holds exactly one occurrence of the turn marker — the one
/// it opens with — as long as neither the user text nor the response text
/// contains the marker itself.
pub proof fn lemma_turn_block_count(u: Seq<char>, resp: Seq<char>)
    requires
        !contains_seq(u, user_marker()),
        !contains_seq(resp, user_marker()),
    ensures
        count_matches(turn_block(u, resp), user_marker()) == 1,
        matches_at(turn_block(u, resp), user_marker(), 0),
{
    let pat = user_marker();
    let hdr = "## User: "@;
    let sep = "\n\n## Assistant:\n"@;
    let tl = "\n\n"@;
    let block = turn_block(u, resp);
    let ul = u.len() as int;
    let rl = resp.len() as int;
    lemma_marker_chars();
    reveal_strlit("## User: ");
    reveal_strlit("\n\n## Assistant:\n");
    reveal_strlit("\n\n");
    assert(block.len() == 9 + ul + 16 + rl + 2);
    assert(matches_at(block, pat, 0)) by {
        assert(block.subrange(0, 8) =~= pat) by {
            assert forall|j: int| 0 <= j < 8 implies block.subrange(0, 8)[j] == pat[j] by {
                assert(block[j] == hdr[j]);
            }
        }
    }
    assert forall|i: int| i >= 1 implies !matches_at(block, pat, i) by {
        if matches_at(block, pat, i) {
            assert forall|j: int| 0 <= j < 8 implies block[i + j] == pat[j] by {
                assert(block.subrange(i, i + 8)[j] == block[i + j]);
            }
            if i == 1 {
                assert(block[2] == hdr[2]);
                assert(false);
            } else if i <= 8 {
                assert(block[i] == hdr[i]);
                assert(false);
            } else if i + 8 <= 9 + ul {
                assert(matches_at(u, pat, i - 9)) by {
                    assert(u.subrange(i - 9, i - 1) =~= pat) by {
                        assert forall|j: int| 0 <= j < 8 implies u.subrange(i - 9, i - 1)[j]
                            == pat[j] by {
                            assert(u.subrange(i - 9, i - 1)[j] == u[i - 9 + j]);
                            assert(block[i + j] == u[i - 9 + j]);
                        }
                    }
                }
                assert(false);
            } else if i <= 9 + ul {
                let m = 9 + ul;
                assert(block[m] == sep[0]);
                assert(pat[m - i] == block[m]);
                assert(false);
            } else if i <= 9 + ul + 7 {
                let d = i - (9 + ul);
                if d == 1 {
                    assert(block[i] == sep[1]);
                    assert(false);
                } else if d == 2 {
                    assert(block[i + 3] == sep[5]);
                    assert(false);
                } else if d == 3 {
                    assert(block[i + 1] == sep[4]);
                    assert(false);
                } else {
                    assert(block[i] == sep[d]);
                    assert(false);
                }
            } else if i <= 9 + ul + 15 {
                let m = 9 + ul + 15;
                assert(block[m] == sep[15]);
                assert(pat[m - i] == block[m]);
                assert(false);
            } else if i + 8 <= 9 + ul + 16 + rl {
                let base = 9 + ul + 16;
                assert(matches_at(resp, pat, i - base)) by {
                    assert(resp.subrange(i - base, i - base + 8) =~= pat) by {
                        assert forall|j: int| 0 <= j < 8 implies resp.subrange(
                            i - base,
                            i - base + 8,
                        )[j] == pat[j] by {
                            assert(resp.subrange(i - base, i - base + 8)[j] == resp[i - base + j]);
                            assert(block[i + j] == resp[i - base + j]);
                        }
                    }
                }
                assert(false);
            } else if i <= 9 + ul + 16 + rl {
                let m = 9 + ul + 16 + rl;
                assert(block[m] == tl[0]);
                assert(pat[m - i] == block[m]);
                assert(false);
            } else {
                assert(i + 8 > block.len());
                assert(false);
            }
        }
    }
    lemma_count_single(block, pat);
}

/// Round trip: after one turn is appended, the transcript holds the user
/// text and the response text verbatim, and the turn count rises by
/// exactly one. (A user or response text that itself contains the turn
/// marker would add further counted occurrences, so those are excluded.)
pub proof fn lemma_transcript_round_trip(content: Seq<char>, u: Seq<char>, resp: Seq<char>)
    requires
        !contains_seq(u, user_marker()),
        !contains_seq(resp, user_marker()),
    ensures
        contains_seq(content + turn_block(u, resp), u),
        contains_seq(content + turn_block(u, resp), resp),
        count_matches(content + turn_block(u, resp), user_marker()) == count_matches(
            content,
            user_marker(),
        ) + 1,
{
    let pat = user_marker();
    let block = turn_block(u, resp);
    let s = content + block;
    let cl = content.len() as int;
    let ul = u.len() as int;
    lemma_marker_chars();
    reveal_strlit("## User: ");
    reveal_strlit("\n\n## Assistant:\n");
    reveal_strlit("\n\n");
    assert(block.len() == 9 + ul + 16 + resp.len() + 2);
    lemma_no_seam_match(content, u, resp);
    lemma_turn_block_count(u, resp);
    lemma_count_concat(content, block, pat);
    assert(matches_at(s, u, cl + 9)) by {
        assert(s.subrange(cl + 9, cl + 9 + ul) =~= u) by {
            assert forall|j: int| 0 <= j < ul implies s.subrange(cl + 9, cl + 9 + ul)[j]
                == u[j] by {
                assert(s[cl + 9 + j] == block[9 + j]);
                assert(block[9 + j] == u[j]);
            }
        }
    }
    assert(matches_at(s, resp, cl + 9 + ul + 16)) by {
        assert(s.subrange(cl + 9 + ul + 16, cl + 9 + ul + 16 + resp.len() as int) =~= resp) by {
            assert forall|j: int| 0 <= j < resp.len() implies s.subrange(
                cl + 9 + ul + 16,
                cl + 9 + ul + 16 + resp.len() as int,
            )[j] == resp[j] by {
                assert(s[cl + 9 + ul + 16 + j] == block[9 + ul + 16 + j]);
                assert(block[9 + ul + 16 + j] == resp[j]);
            }
        }
    }
}

/// The block that one completed query appends to the transcript text.
pub open spec fn turn_block(user: Seq<char>, response: Seq<char>) -> Seq<char> {
    "## User: "@ + user + "\n\n## Assistant:\n"@ + response + "\n\n"@
}

/// The transcript text after recording one (user, response) turn.
pub fn append_to_session(content: &str, user_message: &str, response: &str) -> (r: String)
    ensures
        r@ == content@ + turn_block(user_message@, response@),
{
    let mut r = String::from_str(content);
    r.append("## User: ");
    r.append(user_message);
    r.append("\n\n## Assistant:\n");
    r.append(response);
    r.append("\n\n");
    proof {
        assert(r@ =~= content@ + turn_block(user_message@, response@));
    }
    r
}

/// Whether the stale transcript file should be removed: it exists and its
/// age exceeds the inactivity timeout.
pub fn cleanup_stale_session(file_exists: bool, age_secs: u64) -> (r: bool)
    ensures
        r == (file_exists && age_secs > SESSION_TIMEOUT),
{
    file_exists && age_secs > SESSION_TIMEOUT
}

/// What the transcript reads back as, given the file's text (if it exists)
/// and its age: a transcript older than the timeout, missing, or blank is
/// treated as absent.
pub fn get_session_history(content: Option<&str>, age_secs: u64) -> (r: Option<String>)
    ensures
        match r {
            Some(h) => {
                &&& content matches Some(c) && h@ == c@
                &&& age_secs <= SESSION_TIMEOUT
                &&& trim_spec(h@).len() != 0
            },
            None => content matches Some(c) ==> age_secs > SESSION_TIMEOUT || trim_spec(c@).len()
                == 0,
        },
{
    match content {
        None => None,
        Some(c) => {
            if age_secs > SESSION_TIMEOUT {
                None
            } else {
                let t = trim(c);
                if t.unicode_len() == 0 {
                    None
                } else {
                    Some(String::from_str(c))
                }
            }
        },
    }
}

/// Number of turns recorded in the transcript the history read back: the
/// occurrences of the user marker, or zero with no history.
pub fn get_session_turn_count(history: Option<&str>) -> (r: usize)
    ensures
        match history {
            Some(h) => r == count_matches(h@, user_marker()),
            None => r == 0,
        },
{
    proof {
        reveal_strlit("## User:");
        assert(user_marker().len() == 8);
    }
    match history {
        Some(h) => count_occurrences(h, "## User:"),
        None => 0,
    }
}

/// The prompt history text after appending one prompt line.
pub fn add_to_prompt_history(content: &str, prompt: &str) -> (r: String)
    ensures
        r@ == content@ + prompt@ + "\n"@,
{
    let mut r = String::from_str(content);
    r.append(prompt);
    r.append("\n");
    r
}

/// The saved last result read back: `None` for a missing or blank file.
pub fn get_last_result(content: Option<&str>) -> (r: Option<String>)
    ensures
        match r {
            Some(h) => content matches Some(c) && h@ == c@ && trim_spec(h@).len() != 0,
            None => content matches Some(c) ==> trim_spec(c@).len() == 0,
        },
{
    match content {
        None => None,
        Some(c) => {
            let t = trim(c);
            if t.unicode_len() == 0 {
                None
            } else {
                Some(String::from_str(c))
            }
        },
    }
}

/// History lines scanned newest (last) first: blank lines are dropped, a
/// line whose trimmed text was already taken (`seen`) is dropped, every
/// other line is kept as written.
pub open spec fn recent_rec(lines: Seq<Seq<char>>, seen: Set<Seq<char>>) -> Seq<Seq<char>>
    decreases lines.len(),
{
    if lines.len() == 0 {
        Seq::empty()
    } else {
        let l = lines.last();
        let t = trim_spec(l);
        if t.len() == 0 || seen.contains(t) {
            recent_rec(lines.drop_last(), seen)
        } else {
            seq![l] + recent_rec(lines.drop_last(), seen.insert(t))
        }
    }
}

/// What reading the recent prompts yields: history lines newest-first,
/// blanks dropped, duplicates collapsed to their newest occurrence, capped
/// at `limit`.
pub open spec fn recent_prompts_spec(content: Seq<char>, limit: int) -> Seq<Seq<char>> {
    let full = recent_rec(split_lines(content), Set::empty());
    full.take(
        if limit <= full.len() {
            limit
        } else {
            full.len() as int
        },
    )
}

pub fn get_recent_prompts(content: &str, limit: usize) -> (r: Vec<String>)
    ensures
        r.deep_view() == recent_prompts_spec(content@, limit as int),
{
    let lines = lines_of(content);
    let mut out: Vec<String> = Vec::new();
    let mut seen: Vec<String> = Vec::new();
    let ghost mut seen_set: Set<Seq<char>> = Set::empty();
    let mut i: usize = lines.len();
    proof {
        assert(out.deep_view() =~= Seq::<Seq<char>>::empty());
        assert(seen.deep_view() =~= Seq::<Seq<char>>::empty());
        assert(lines.deep_view().take(i as int) =~= lines.deep_view());
    }
    while i > 0
        invariant
            i <= lines.len(),
            lines.deep_view() == split_lines(content@),
            forall|t: Seq<char>|
                #[trigger] seen_set.contains(t) <==> exists|k: int|
                    0 <= k < seen.len() && #[trigger] seen.deep_view()[k] == t,
            recent_rec(split_lines(content@), Set::empty()) == out.deep_view() + recent_rec(
                lines.deep_view().take(i as int),
                seen_set,
            ),
        decreases i,
    {
        i = i - 1;
        let ghost dv = lines.deep_view();
        proof {
            assert(dv.take(i + 1).last() == dv[i as int]);
            assert(dv.take(i + 1).drop_last() =~= dv.take(i as int));
            assert(dv[i as int] == lines[i as int]@);
        }
        let line = &lines[i];
        let t = trim(line.as_str());
        let tlen = t.unicode_len();
        let mut dup = false;
        let mut k: usize = 0;
        while k < seen.len()
            invariant
                k <= seen.len(),
                dup == exists|m: int| 0 <= m < k && #[trigger] seen.deep_view()[m] == t@,
            decreases seen.len() - k,
        {
            proof {
                assert(seen.deep_view()[k as int] == seen[k as int]@);
            }
            if str_eq(seen[k].as_str(), t) {
                dup = true;
            }
            k = k + 1;
        }
        proof {
            assert(dup == seen_set.contains(t@));
        }
        if tlen == 0 || dup {
        } else {
            let ghost old_out = out.deep_view();
            let ghost old_seen = seen.deep_view();
            let ghost old_set = seen_set;
            out.push(line.clone());
            seen.push(String::from_str(t));
            proof {
                seen_set = seen_set.insert(t@);
                assert(out.deep_view() =~= old_out.push(dv[i as int]));
                assert(seen.deep_view() =~= old_seen.push(t@));
                assert forall|t2: Seq<char>| #[trigger] seen_set.contains(t2) implies exists|m: int|
                    0 <= m < seen.len() && #[trigger] seen.deep_view()[m] == t2 by {
                    if t2 == t@ {
                        assert(seen.deep_view()[seen.len() - 1] == t2);
                    } else {
                        let m = choose|m: int|
                            0 <= m < old_seen.len() && #[trigger] old_seen[m] == t2;
                        assert(seen.deep_view()[m] == t2);
                    }
                }
                assert forall|t2: Seq<char>|
                    (exists|m: int| 0 <= m < seen.len() && #[trigger] seen.deep_view()[m] == t2)
                    implies seen_set.contains(t2) by {
                    let m = choose|m: int|
                        0 <= m < seen.len() && #[trigger] seen.deep_view()[m] == t2;
                    if m < old_seen.len() {
                        assert(old_seen[m] == t2);
                        assert(old_set.contains(t2));
                    }
                }
                assert(recent_rec(dv.take(i + 1), old_set) == seq![dv[i as int]] + recent_rec(
                    dv.take(i as int),
                    seen_set,
                ));
                assert(old_out + (seq![dv[i as int]] + recent_rec(dv.take(i as int), seen_set))
                    =~= out.deep_view() + recent_rec(dv.take(i as int), seen_set));
            }
        }
    }
    proof {
        assert(lines.deep_view().take(0) =~= Seq::<Seq<char>>::empty());
        assert(out.deep_view() + recent_rec(Seq::<Seq<char>>::empty(), seen_set) =~= out.deep_view());
    }
    let ghost full = out.deep_view();
    while out.len() > limit
        invariant
            out.len() <= full.len(),
            out.len() >= limit || out.len() == full.len(),
            out.deep_view() == full.take(out.len() as int),
        decreases out.len(),
    {
        let ghost before = out.deep_view();
        out.pop();
        proof {
            assert(out.deep_view() =~= before.drop_last());
            assert(full.take(out.len() as int) =~= before.drop_last());
        }
    }
    proof {
        if limit >= full.len() {
            assert(full.take(full.len() as int) =~= full);
        }
    }
    out
}

/// Stands for the lowercase-hex MD5 digest of a string's text; what it is
/// on given characters only the digest itself says.
pub uninterp spec fn md5_hex_of(s: Seq<char>) -> Seq<char>;

/// Relies on the md-5 crate's `Md5` (through its `Digest` trait): the
/// digest is a function of the input bytes alone, and `{:x}` renders its
/// 16 bytes as 32 lowercase hex characters.
#[verifier::external_body]
fn md5_hex(s: &str) -> (r: String)
    ensures
        r@ == md5_hex_of(s@),
        r@.len() == 32,
{
    let mut hasher = Md5::new();
    hasher.update(s.as_bytes());
    format!("{:x}", hasher.finalize())
}

/// The transcript file name for a working directory: a fixed prefix plus
/// the first eight hex digits of the directory path's MD5.
pub fn get_session_file(dir: &str, cwd: &str) -> (r: String)
    ensures
        r@ == dir@ + "/cli-session-"@ + md5_hex_of(cwd@).subrange(0, 8) + ".md"@,
{
    let h = md5_hex(cwd);
    let short = h.as_str().substring_char(0, 8);
    let r = String::from_str(dir).concat("/cli-session-").concat(short).concat(".md");
    proof {
        assert(r@ =~= dir@ + "/cli-session-"@ + md5_hex_of(cwd@).subrange(0, 8) + ".md"@);
    }
    r
}

/// The file that holds the most recent successful response.
pub fn get_result_file(dir: &str) -> (r: String)
    ensures
        r@ == dir@ + "/last-result.txt"@,
{
    String::from_str(dir).concat("/last-result.txt")
}

/// The newline-delimited prompt history file.
pub fn get_history_file(dir: &str) -> (r: String)
    ensures
        r@ == dir@ + "/prompt_history"@,
{
    String::from_str(dir).concat("/prompt_history")
}

} // verus!
