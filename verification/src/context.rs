//! The context builder: assembles the text block describing the user's
//! environment, honoring the privacy flags, in a fixed section order.
//!
//! Reading the environment — the shell variable, the working directory,
//! the terminal size, the git commands, the history files — is the
//! surrounding program's job; it hands the raw values over in
//! [`ContextInputs`] and everything from there on is decided here.
use vstd::prelude::*;
use vstd::string::*;

use crate::settings::{get_setting_spec, is_enabled};
use crate::text::{
    dec_rep, find_char, join_with, joined, lines_of, split_lines, trim, trim_spec, u64_to_string,
};

verus! {

/// The raw environment values the surrounding program gathered. `None`
/// stands for a value that could not be read (no shell variable, no git
/// repository, no history file).
pub struct ContextInputs {
    pub shell: Option<String>,
    pub cwd: Option<String>,
    pub term_size: Option<(u16, u16)>,
    pub env_names: Vec<String>,
    pub git_branch: Option<String>,
    pub git_status: Option<String>,
    pub shell_history: Option<String>,
}

/// The suffix of `s` after its last `/`; `s` itself when it has none.
pub open spec fn after_last_slash(s: Seq<char>) -> Seq<char>
    decreases s.len(),
        via after_last_slash_decreases
{
    if s.len() == 0 {
        s
    } else if find_char(s, '/') == s.len() {
        s
    } else {
        after_last_slash(s.skip(find_char(s, '/') + 1))
    }
}

#[via_fn]
proof fn after_last_slash_decreases(s: Seq<char>) {
    crate::text::lemma_find_char_bounds(s, '/');
}

pub open spec fn strip_trailing_slashes(s: Seq<char>) -> Seq<char>
    decreases s.len(),
{
    if s.len() > 0 && s.last() == '/' {
        strip_trailing_slashes(s.drop_last())
    } else {
        s
    }
}

/// The file name of a shell path — the final path component — falling back
/// to the whole value when there is none, or when the final component is a
/// dot component (`.` or `..`), which names no file.
pub open spec fn shell_name_spec(path: Seq<char>) -> Seq<char> {
    let n = after_last_slash(strip_trailing_slashes(path));
    if n.len() == 0 || n == "."@ || n == ".."@ {
        path
    } else {
        n
    }
}

pub fn shell_name_of(path: &str) -> (r: String)
    ensures
        r@ == shell_name_spec(path@),
{
    let len = path.unicode_len();
    let mut end: usize = len;
    proof {
        assert(path@.subrange(0, len as int) =~= path@);
    }
    while end > 0 && path.get_char(end - 1) == '/'
        invariant
            end <= len,
            len == path@.len(),
            strip_trailing_slashes(path@) == strip_trailing_slashes(
                path@.subrange(0, end as int),
            ),
        decreases end,
    {
        proof {
            let sub = path@.subrange(0, end as int);
            assert(sub.last() == path@[end - 1]);
            assert(sub.drop_last() =~= path@.subrange(0, end - 1));
        }
        end = end - 1;
    }
    proof {
        let sub = path@.subrange(0, end as int);
        if end > 0 {
            assert(sub.last() == path@[end - 1]);
        }
        assert(strip_trailing_slashes(path@) == sub);
    }
    let mut start: usize = end;
    while start > 0 && path.get_char(start - 1) != '/'
        invariant
            start <= end <= len,
            len == path@.len(),
            strip_trailing_slashes(path@) == path@.subrange(0, end as int),
            forall|k: int| start <= k < end ==> path@[k] != '/',
        decreases start,
    {
        start = start - 1;
    }
    proof {
        let t = path@.subrange(0, end as int);
        lemma_after_last_slash_tail(t, start as int);
        assert(t.subrange(start as int, end as int) =~= path@.subrange(
            start as int,
            end as int,
        ));
    }
    let name = path.substring_char(start, end);
    if name.unicode_len() == 0 || crate::text::str_eq(name, ".") || crate::text::str_eq(
        name,
        "..",
    ) {
        String::from_str(path)
    } else {
        String::from_str(name)
    }
}

/// In a string whose characters from `j` on hold no `/`, and where either
/// `j` is zero or a `/` stands just before it, the text after the last
/// slash is exactly the tail from `j`.
proof fn lemma_after_last_slash_tail(s: Seq<char>, j: int)
    requires
        0 <= j <= s.len(),
        forall|k: int| j <= k < s.len() ==> s[k] != '/',
        j > 0 ==> s[j - 1] == '/',
    ensures
        after_last_slash(s) == s.subrange(j, s.len() as int),
    decreases s.len(),
{
    crate::text::lemma_find_char_bounds(s, '/');
    let f = find_char(s, '/');
    if s.len() == 0 {
        assert(s.subrange(0, 0) =~= s);
    } else if f == s.len() {
        // no slash at all, so j must be 0
        assert(j == 0) by {
            if j > 0 {
                assert(s[j - 1] == '/');
            }
        }
        assert(s.subrange(0, s.len() as int) =~= s);
    } else {
        let t = s.skip(f + 1);
        assert(f < j);
        lemma_after_last_slash_tail(t, j - (f + 1));
        assert(t.subrange(j - (f + 1), t.len() as int) =~= s.subrange(j, s.len() as int));
    }
}

/// The text of one shell-history line: a zsh extended-history line keeps
/// only the command after the first `;`; any other line stays as written.
pub open spec fn history_line_spec(l: Seq<char>) -> Seq<char> {
    if l.len() >= 2 && l[0] == ':' && l[1] == ' ' {
        if find_char(l, ';') < l.len() {
            l.skip(find_char(l, ';') + 1)
        } else {
            l
        }
    } else {
        l
    }
}

fn history_line(l: &str) -> (r: String)
    ensures
        r@ == history_line_spec(l@),
{
    let len = l.unicode_len();
    if len >= 2 && l.get_char(0) == ':' && l.get_char(1) == ' ' {
        match crate::text::find_char_in(l, ';') {
            Some(i) => {
                proof {
                    assert(l@.subrange(i + 1, len as int) =~= l@.skip(i + 1));
                }
                String::from_str(l.substring_char(i + 1, len))
            },
            None => String::from_str(l),
        }
    } else {
        String::from_str(l)
    }
}

/// What the recent-history block holds: the last twenty (or fewer) history
/// lines in order, each unwrapped from the zsh format, joined by newlines;
/// nothing for an empty history.
pub open spec fn recent_history_spec(content: Seq<char>) -> Option<Seq<char>> {
    let ls = split_lines(content);
    let tail = if ls.len() <= 20 {
        ls
    } else {
        ls.skip(ls.len() - 20)
    };
    if tail.len() == 0 {
        None
    } else {
        Some(joined(tail.map_values(|l: Seq<char>| history_line_spec(l)), "\n"@))
    }
}

pub fn recent_history(content: &str) -> (r: Option<String>)
    ensures
        match r {
            Some(t) => recent_history_spec(content@) matches Some(v) && t@ == v,
            None => recent_history_spec(content@) is None,
        },
{
    let lines = lines_of(content);
    let start: usize = if lines.len() > 20 {
        lines.len() - 20
    } else {
        0
    };
    let mut mapped: Vec<String> = Vec::new();
    let mut i: usize = start;
    let ghost dv = lines.deep_view();
    let ghost tail = if dv.len() <= 20 {
        dv
    } else {
        dv.skip(dv.len() - 20)
    };
    proof {
        if dv.len() <= 20 {
            assert(tail =~= dv.subrange(start as int, dv.len() as int));
        } else {
            assert(tail =~= dv.subrange(start as int, dv.len() as int));
        }
        assert(mapped.deep_view() =~= dv.subrange(start as int, start as int).map_values(
            |l: Seq<char>| history_line_spec(l),
        ));
    }
    while i < lines.len()
        invariant
            start <= i <= lines.len(),
            lines.deep_view() == dv,
            mapped.deep_view() =~= dv.subrange(start as int, i as int).map_values(
                |l: Seq<char>| history_line_spec(l),
            ),
        decreases lines.len() - i,
    {
        let ghost before = mapped.deep_view();
        let m = history_line(lines[i].as_str());
        mapped.push(m);
        proof {
            assert(dv[i as int] == lines[i as int]@);
            assert(mapped.deep_view() =~= before.push(history_line_spec(dv[i as int])));
            assert(dv.subrange(start as int, i + 1) =~= dv.subrange(start as int, i as int).push(
                dv[i as int],
            ));
            assert(dv.subrange(start as int, i + 1).map_values(
                |l: Seq<char>| history_line_spec(l),
            ) =~= dv.subrange(start as int, i as int).map_values(
                |l: Seq<char>| history_line_spec(l),
            ).push(history_line_spec(dv[i as int])));
        }
        i = i + 1;
    }
    proof {
        assert(dv.subrange(start as int, dv.len() as int) =~= tail);
    }
    if mapped.len() == 0 {
        None
    } else {
        Some(join_with(&mapped, "\n"))
    }
}

/// The branch part of the git block: the trimmed branch name on its own
/// line, when one came back non-empty.
pub open spec fn git_branch_part(branch: Option<Seq<char>>) -> Seq<char> {
    match branch {
        Some(b) => if trim_spec(b).len() > 0 {
            "Branch: "@ + trim_spec(b) + "\n"@
        } else {
            Seq::empty()
        },
        None => Seq::empty(),
    }
}

pub open spec fn lines_block(ls: Seq<Seq<char>>) -> Seq<char>
    decreases ls.len(),
{
    if ls.len() == 0 {
        Seq::empty()
    } else {
        ls[0] + "\n"@ + lines_block(ls.skip(1))
    }
}

/// The modified-files part of the git block: at most ten lines of the
/// short status, each on its own line, under a heading.
pub open spec fn git_files_part(status: Option<Seq<char>>) -> Seq<char> {
    match status {
        Some(st) => {
            let ls = split_lines(st);
            let shown = if ls.len() <= 10 {
                ls
            } else {
                ls.take(10)
            };
            if shown.len() > 0 {
                "Modified files:\n"@ + lines_block(shown)
            } else {
                Seq::empty()
            }
        },
        None => Seq::empty(),
    }
}

/// The git block: branch and modified files, or nothing when both are
/// empty or absent.
pub open spec fn git_block_spec(branch: Option<Seq<char>>, status: Option<Seq<char>>) -> Seq<
    char,
> {
    git_branch_part(branch) + git_files_part(status)
}

/// Composes the git section from the two commands' raw outputs, `None`
/// when there is nothing to show.
pub fn format_git_status(branch: Option<&str>, status: Option<&str>) -> (r: Option<String>)
    ensures
        match r {
            Some(t) => t@ == git_block_spec(
                match branch {
                    Some(b) => Some(b@),
                    None => None,
                },
                match status {
                    Some(s) => Some(s@),
                    None => None,
                },
            ) && t@.len() > 0,
            None => git_block_spec(
                match branch {
                    Some(b) => Some(b@),
                    None => None,
                },
                match status {
                    Some(s) => Some(s@),
                    None => None,
                },
            ).len() == 0,
        },
{
    let mut out = String::new();
    match branch {
        Some(b) => {
            let t = trim(b);
            if t.unicode_len() > 0 {
                out.append("Branch: ");
                out.append(t);
                out.append("\n");
            }
        },
        None => {},
    }
    match status {
        Some(st) => {
            let lines = lines_of(st);
            let shown: usize = if lines.len() <= 10 {
                lines.len()
            } else {
                10
            };
            let ghost dv = lines.deep_view();
            let ghost full = if dv.len() <= 10 {
                dv
            } else {
                dv.take(10)
            };
            if shown > 0 {
                out.append("Modified files:\n");
                let mut i: usize = 0;
                proof {
                    assert(full =~= dv.take(shown as int));
                    assert(lines_block(dv.take(0)) == Seq::<char>::empty());
                }
                let ghost head = out@;
                while i < shown
                    invariant
                        i <= shown <= lines.len(),
                        lines.deep_view() == dv,
                        out@ == head + lines_block_prefix(dv, i as int),
                    decreases shown - i,
                {
                    let ghost before = out@;
                    out.append(lines[i].as_str());
                    out.append("\n");
                    proof {
                        assert(dv[i as int] == lines[i as int]@);
                        lemma_lines_block_prefix_step(dv, i as int);
                    }
                    i = i + 1;
                }
                proof {
                    lemma_lines_block_prefix_full(dv, shown as int);
                }
            }
        },
        None => {},
    }
    if out.as_str().unicode_len() == 0 {
        None
    } else {
        Some(out)
    }
}

/// A privacy flag read from the settings text.
pub open spec fn flag_on(settings: Seq<char>, key: Seq<char>) -> bool {
    get_setting_spec(settings, key) == "true"@
}

pub open spec fn shell_section(ci: ContextInputs, settings: Seq<char>) -> Seq<char> {
    match ci.shell {
        Some(sh) => if flag_on(settings, "send_shell_type"@) {
            "**Shell:** "@ + shell_name_spec(sh@) + "\n"@
        } else {
            Seq::empty()
        },
        None => Seq::empty(),
    }
}

pub open spec fn cwd_section(ci: ContextInputs, settings: Seq<char>) -> Seq<char> {
    match ci.cwd {
        Some(c) => if flag_on(settings, "send_working_dir"@) {
            "**Working Directory:** "@ + c@ + "\n"@
        } else {
            Seq::empty()
        },
        None => Seq::empty(),
    }
}

pub open spec fn size_section(ci: ContextInputs, settings: Seq<char>) -> Seq<char> {
    match ci.term_size {
        Some((cols, rows)) => if flag_on(settings, "send_terminal_size"@) {
            "**Terminal Size:** "@ + dec_rep(cols as int) + "x"@ + dec_rep(rows as int) + "\n"@
        } else {
            Seq::empty()
        },
        None => Seq::empty(),
    }
}

pub open spec fn env_section(ci: ContextInputs, settings: Seq<char>) -> Seq<char> {
    if flag_on(settings, "send_env_var_names"@) {
        "\n### Environment Variables (names only)\n```\n"@ + joined(ci.env_names.deep_view(), " "@)
            + "\n```\n"@
    } else {
        Seq::empty()
    }
}

pub open spec fn opt_view(s: Option<String>) -> Option<Seq<char>> {
    match s {
        Some(t) => Some(t@),
        None => None,
    }
}

pub open spec fn git_section(ci: ContextInputs, settings: Seq<char>) -> Seq<char> {
    if flag_on(settings, "send_git_status"@) && git_block_spec(
        opt_view(ci.git_branch),
        opt_view(ci.git_status),
    ).len() > 0 {
        "\n### Git Status\n"@ + git_block_spec(opt_view(ci.git_branch), opt_view(ci.git_status))
    } else {
        Seq::empty()
    }
}

pub open spec fn history_section(ci: ContextInputs, settings: Seq<char>) -> Seq<char> {
    match ci.shell_history {
        Some(h) => if flag_on(settings, "send_shell_history"@) {
            match recent_history_spec(h@) {
                Some(t) => "\n### Recent Shell History\n```\n"@ + t + "\n```\n"@,
                None => Seq::empty(),
            }
        } else {
            Seq::empty()
        },
        None => Seq::empty(),
    }
}

/// The whole context block, in its fixed section order, holding exactly
/// the sections whose privacy flag is enabled and whose value exists.
pub open spec fn context_text_spec(ci: ContextInputs, settings: Seq<char>) -> Seq<char> {
    "## Terminal Context\n\n"@ + shell_section(ci, settings) + cwd_section(ci, settings)
        + size_section(ci, settings) + env_section(ci, settings) + git_section(ci, settings)
        + history_section(ci, settings)
}

/// Assembles the markdown context block sent with every prompt.
#[verifier::rlimit(100)]
pub fn gather_context(inputs: &ContextInputs, settings: &str) -> (r: String)
    ensures
        r@ == context_text_spec(*inputs, settings@),
{
    let mut s_shell = String::new();
    if is_enabled(settings, "send_shell_type") {
        match &inputs.shell {
            Some(sh) => {
                let name = shell_name_of(sh.as_str());
                s_shell.append("**Shell:** ");
                s_shell.append(name.as_str());
                s_shell.append("\n");
            },
            None => {},
        }
    }
    proof {
        assert(s_shell@ =~= shell_section(*inputs, settings@));
    }
    let mut s_cwd = String::new();
    if is_enabled(settings, "send_working_dir") {
        match &inputs.cwd {
            Some(c) => {
                s_cwd.append("**Working Directory:** ");
                s_cwd.append(c.as_str());
                s_cwd.append("\n");
            },
            None => {},
        }
    }
    proof {
        assert(s_cwd@ =~= cwd_section(*inputs, settings@));
    }
    let mut s_size = String::new();
    if is_enabled(settings, "send_terminal_size") {
        match &inputs.term_size {
            Some(wh) => {
                let cols = wh.0;
                let rows = wh.1;
                s_size.append("**Terminal Size:** ");
                s_size.append(u64_to_string(cols as u64).as_str());
                s_size.append("x");
                s_size.append(u64_to_string(rows as u64).as_str());
                s_size.append("\n");
            },
            None => {},
        }
    }
    proof {
        assert(s_size@ =~= size_section(*inputs, settings@));
    }
    let mut s_env = String::new();
    if is_enabled(settings, "send_env_var_names") {
        s_env.append("\n### Environment Variables (names only)\n```\n");
        let names = join_with(&inputs.env_names, " ");
        s_env.append(names.as_str());
        s_env.append("\n```\n");
    }
    proof {
        assert(s_env@ =~= env_section(*inputs, settings@));
    }
    let mut s_git = String::new();
    if is_enabled(settings, "send_git_status") {
        let branch = match &inputs.git_branch {
            Some(b) => Some(b.as_str()),
            None => None,
        };
        let status = match &inputs.git_status {
            Some(st) => Some(st.as_str()),
            None => None,
        };
        match format_git_status(branch, status) {
            Some(block) => {
                s_git.append("\n### Git Status\n");
                s_git.append(block.as_str());
            },
            None => {},
        }
    }
    proof {
        assert(s_git@ =~= git_section(*inputs, settings@));
    }
    let mut s_hist = String::new();
    if is_enabled(settings, "send_shell_history") {
        match &inputs.shell_history {
            Some(h) => {
                match recent_history(h.as_str()) {
                    Some(t) => {
                        s_hist.append("\n### Recent Shell History\n```\n");
                        s_hist.append(t.as_str());
                        s_hist.append("\n```\n");
                    },
                    None => {},
                }
            },
            None => {},
        }
    }
    proof {
        assert(s_hist@ =~= history_section(*inputs, settings@));
    }
    let mut out = String::from_str("## Terminal Context\n\n");
    out.append(s_shell.as_str());
    out.append(s_cwd.as_str());
    out.append(s_size.as_str());
    out.append(s_env.as_str());
    out.append(s_git.as_str());
    out.append(s_hist.as_str());
    out
}

pub open spec fn indent_two(l: Seq<char>) -> Seq<char> {
    "  "@ + l
}

pub open spec fn dsp_shell(ci: ContextInputs, settings: Seq<char>) -> Seq<Seq<char>> {
    match ci.shell {
        Some(sh) => if flag_on(settings, "send_shell_type"@) {
            seq!["Shell: "@ + shell_name_spec(sh@)]
        } else {
            Seq::empty()
        },
        None => Seq::empty(),
    }
}

pub open spec fn dsp_cwd(ci: ContextInputs, settings: Seq<char>) -> Seq<Seq<char>> {
    match ci.cwd {
        Some(c) => if flag_on(settings, "send_working_dir"@) {
            seq!["Working Directory: "@ + c@]
        } else {
            Seq::empty()
        },
        None => Seq::empty(),
    }
}

pub open spec fn dsp_size(ci: ContextInputs, settings: Seq<char>) -> Seq<Seq<char>> {
    match ci.term_size {
        Some((cols, rows)) => if flag_on(settings, "send_terminal_size"@) {
            seq!["Terminal Size: "@ + dec_rep(cols as int) + "x"@ + dec_rep(rows as int)]
        } else {
            Seq::empty()
        },
        None => Seq::empty(),
    }
}

pub open spec fn dsp_git(ci: ContextInputs, settings: Seq<char>) -> Seq<Seq<char>> {
    let block = git_block_spec(opt_view(ci.git_branch), opt_view(ci.git_status));
    if flag_on(settings, "send_git_status"@) && block.len() > 0 {
        seq![Seq::<char>::empty(), "Git Status:"@] + split_lines(block).map_values(
            |l: Seq<char>| indent_two(l),
        )
    } else {
        Seq::empty()
    }
}

pub open spec fn dsp_env(ci: ContextInputs, settings: Seq<char>) -> Seq<Seq<char>> {
    if flag_on(settings, "send_env_var_names"@) {
        seq!["Environment Variables: "@ + dec_rep(ci.env_names.deep_view().len() as int)
            + " names"@]
    } else {
        Seq::empty()
    }
}

pub open spec fn dsp_history(ci: ContextInputs, settings: Seq<char>) -> Seq<Seq<char>> {
    match ci.shell_history {
        Some(h) => if flag_on(settings, "send_shell_history"@) && recent_history_spec(h@)
            is Some {
            seq!["Shell History: last 20 commands"@]
        } else {
            Seq::empty()
        },
        None => Seq::empty(),
    }
}

/// The lines of the plain (menu) context view, in order.
pub open spec fn display_lines_spec(ci: ContextInputs, settings: Seq<char>) -> Seq<Seq<char>> {
    dsp_shell(ci, settings) + dsp_cwd(ci, settings) + dsp_size(ci, settings) + dsp_git(
        ci,
        settings,
    ) + dsp_env(ci, settings) + dsp_history(ci, settings)
}

fn dsp_shell_lines(inputs: &ContextInputs, settings: &str) -> (r: Vec<String>)
    ensures
        r.deep_view() == dsp_shell(*inputs, settings@),
{
    let mut lines: Vec<String> = Vec::new();
    if is_enabled(settings, "send_shell_type") {
        match &inputs.shell {
            Some(sh) => {
                let name = shell_name_of(sh.as_str());
                lines.push(String::from_str("Shell: ").concat(name.as_str()));
            },
            None => {},
        }
    }
    proof {
        assert(lines.deep_view() =~= dsp_shell(*inputs, settings@));
    }
    lines
}

fn dsp_cwd_lines(inputs: &ContextInputs, settings: &str) -> (r: Vec<String>)
    ensures
        r.deep_view() == dsp_cwd(*inputs, settings@),
{
    let mut lines: Vec<String> = Vec::new();
    if is_enabled(settings, "send_working_dir") {
        match &inputs.cwd {
            Some(c) => {
                lines.push(String::from_str("Working Directory: ").concat(c.as_str()));
            },
            None => {},
        }
    }
    proof {
        assert(lines.deep_view() =~= dsp_cwd(*inputs, settings@));
    }
    lines
}

fn dsp_size_lines(inputs: &ContextInputs, settings: &str) -> (r: Vec<String>)
    ensures
        r.deep_view() == dsp_size(*inputs, settings@),
{
    let mut lines: Vec<String> = Vec::new();
    if is_enabled(settings, "send_terminal_size") {
        match &inputs.term_size {
            Some(wh) => {
                let cols = wh.0;
                let rows = wh.1;
                lines.push(
                    String::from_str("Terminal Size: ").concat(
                        u64_to_string(cols as u64).as_str(),
                    ).concat("x").concat(u64_to_string(rows as u64).as_str()),
                );
            },
            None => {},
        }
    }
    proof {
        assert(lines.deep_view() =~= dsp_size(*inputs, settings@));
    }
    lines
}

#[verifier::rlimit(50)]
fn dsp_git_lines(inputs: &ContextInputs, settings: &str) -> (r: Vec<String>)
    ensures
        r.deep_view() == dsp_git(*inputs, settings@),
{
    let mut lines: Vec<String> = Vec::new();
    if is_enabled(settings, "send_git_status") {
        let branch = match &inputs.git_branch {
            Some(b) => Some(b.as_str()),
            None => None,
        };
        let status = match &inputs.git_status {
            Some(s) => Some(s.as_str()),
            None => None,
        };
        match format_git_status(branch, status) {
            Some(block) => {
                lines.push(String::new());
                lines.push(String::from_str("Git Status:"));
                let block_lines = lines_of(block.as_str());
                let ghost bdv = block_lines.deep_view();
                let ghost at_head = lines.deep_view();
                let mut i: usize = 0;
                proof {
                    assert(at_head =~= seq![Seq::<char>::empty(), "Git Status:"@]);
                    assert(at_head + bdv.subrange(0, 0).map_values(|l: Seq<char>| indent_two(l))
                        =~= at_head);
                }
                while i < block_lines.len()
                    invariant
                        i <= block_lines.len(),
                        block_lines.deep_view() == bdv,
                        lines.deep_view() =~= at_head + bdv.subrange(0, i as int).map_values(
                            |l: Seq<char>| indent_two(l),
                        ),
                    decreases block_lines.len() - i,
                {
                    let ghost before = lines.deep_view();
                    lines.push(String::from_str("  ").concat(block_lines[i].as_str()));
                    proof {
                        assert(bdv[i as int] == block_lines[i as int]@);
                        assert(lines.deep_view() =~= before.push(indent_two(bdv[i as int])));
                        assert(bdv.subrange(0, i + 1) =~= bdv.subrange(0, i as int).push(
                            bdv[i as int],
                        ));
                        assert(bdv.subrange(0, i + 1).map_values(|l: Seq<char>| indent_two(l))
                            =~= bdv.subrange(0, i as int).map_values(
                            |l: Seq<char>| indent_two(l),
                        ).push(indent_two(bdv[i as int])));
                    }
                    i = i + 1;
                }
                proof {
                    assert(bdv.subrange(0, bdv.len() as int) =~= bdv);
                }
            },
            None => {},
        }
    }
    proof {
        assert(lines.deep_view() =~= dsp_git(*inputs, settings@));
    }
    lines
}

fn dsp_env_lines(inputs: &ContextInputs, settings: &str) -> (r: Vec<String>)
    ensures
        r.deep_view() == dsp_env(*inputs, settings@),
{
    let mut lines: Vec<String> = Vec::new();
    if is_enabled(settings, "send_env_var_names") {
        let count = inputs.env_names.len();
        lines.push(
            String::from_str("Environment Variables: ").concat(
                u64_to_string(count as u64).as_str(),
            ).concat(" names"),
        );
    }
    proof {
        assert(lines.deep_view() =~= dsp_env(*inputs, settings@));
    }
    lines
}

fn dsp_history_lines(inputs: &ContextInputs, settings: &str) -> (r: Vec<String>)
    ensures
        r.deep_view() == dsp_history(*inputs, settings@),
{
    let mut lines: Vec<String> = Vec::new();
    if is_enabled(settings, "send_shell_history") {
        match &inputs.shell_history {
            Some(h) => {
                match recent_history(h.as_str()) {
                    Some(_) => {
                        lines.push(String::from_str("Shell History: last 20 commands"));
                    },
                    None => {},
                }
            },
            None => {},
        }
    }
    proof {
        assert(lines.deep_view() =~= dsp_history(*inputs, settings@));
    }
    lines
}

/// The plain context view, one fact per line, without markdown.
pub fn gather_context_display(inputs: &ContextInputs, settings: &str) -> (r: String)
    ensures
        r@ == joined(display_lines_spec(*inputs, settings@), "\n"@),
{
    let mut out = dsp_shell_lines(inputs, settings);
    let mut v1 = dsp_cwd_lines(inputs, settings);
    let mut v2 = dsp_size_lines(inputs, settings);
    let mut v3 = dsp_git_lines(inputs, settings);
    let mut v4 = dsp_env_lines(inputs, settings);
    let mut v5 = dsp_history_lines(inputs, settings);
    let ghost w0 = out@;
    let ghost w1 = v1@;
    let ghost w2 = v2@;
    let ghost w3 = v3@;
    let ghost w4 = v4@;
    let ghost w5 = v5@;
    proof {
        assert(crate::text::views_of(w0) =~= out.deep_view());
        assert(crate::text::views_of(w1) =~= v1.deep_view());
        assert(crate::text::views_of(w2) =~= v2.deep_view());
        assert(crate::text::views_of(w3) =~= v3.deep_view());
        assert(crate::text::views_of(w4) =~= v4.deep_view());
        assert(crate::text::views_of(w5) =~= v5.deep_view());
    }
    out.append(&mut v1);
    out.append(&mut v2);
    out.append(&mut v3);
    out.append(&mut v4);
    out.append(&mut v5);
    proof {
        crate::text::lemma_views_concat(w0, w1);
        crate::text::lemma_views_concat(w0 + w1, w2);
        crate::text::lemma_views_concat(w0 + w1 + w2, w3);
        crate::text::lemma_views_concat(w0 + w1 + w2 + w3, w4);
        crate::text::lemma_views_concat(w0 + w1 + w2 + w3 + w4, w5);
        assert(out.deep_view() =~= crate::text::views_of(out@));
    }
    join_with(&out, "\n")
}

/// The first `i` lines of `ls`, each with a newline, as one text.
pub open spec fn lines_block_prefix(ls: Seq<Seq<char>>, i: int) -> Seq<char>
    decreases i,
{
    if i <= 0 {
        Seq::empty()
    } else {
        lines_block_prefix(ls, i - 1) + ls[i - 1] + "\n"@
    }
}

proof fn lemma_lines_block_prefix_step(ls: Seq<Seq<char>>, i: int)
    requires
        0 <= i,
    ensures
        lines_block_prefix(ls, i + 1) == lines_block_prefix(ls, i) + ls[i] + "\n"@,
{
}

proof fn lemma_lines_block_prefix_full(ls: Seq<Seq<char>>, n: int)
    requires
        0 <= n <= ls.len(),
    ensures
        lines_block_prefix(ls, n) =~= lines_block(ls.take(n)),
    decreases n,
{
    if n == 0 {
        assert(lines_block(ls.take(0)) == Seq::<char>::empty());
    } else {
        lemma_lines_block_prefix_full(ls, n - 1);
        lemma_lines_block_app(ls.take(n));
        assert(ls.take(n).drop_last() =~= ls.take(n - 1));
        assert(ls.take(n).last() == ls[n - 1]);
    }
}

proof fn lemma_lines_block_app(ls: Seq<Seq<char>>)
    requires
        ls.len() > 0,
    ensures
        lines_block(ls) =~= lines_block(ls.drop_last()) + ls.last() + "\n"@,
    decreases ls.len(),
{
    if ls.len() == 1 {
        assert(lines_block(ls.skip(1)) == Seq::<char>::empty());
        assert(ls.drop_last().len() == 0);
    } else {
        lemma_lines_block_app(ls.skip(1));
        assert(ls.skip(1).drop_last() =~= ls.drop_last().skip(1));
        assert(ls.skip(1).last() == ls.last());
        assert(ls.drop_last()[0] == ls[0]);
    }
}

} // verus!
