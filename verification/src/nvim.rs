//! The editor-integration variant: parsing the delimited `key=value`
//! context file an editor plugin writes, rendering that context for the
//! prompt and for display, and the result-action menu the plugin consumes.
//!
//! Reading and writing the files themselves is the surrounding program's
//! job; everything here works on their text as plain values.
use vstd::prelude::*;
use vstd::string::*;

use crate::app::App;
use crate::context::opt_view;
use crate::events::KeyAction;
use crate::text::{
    chars_to_string, dec_rep, find_char, find_char_in, join_with, joined, lemma_views_concat,
    lines_of, split_lines, u64_to_string, views_of,
};

verus! {

/// The text with each literal backslash-n pair replaced by a newline, as
/// `str::replace` rewrites it left to right.
pub open spec fn unescape_nl(s: Seq<char>) -> Seq<char>
    decreases s.len(),
{
    if s.len() < 2 {
        s
    } else if s[0] == '\\' && s[1] == 'n' {
        seq!['\n'] + unescape_nl(s.skip(2))
    } else {
        seq![s[0]] + unescape_nl(s.skip(1))
    }
}

fn unescape_newlines(s: &str) -> (r: String)
    ensures
        r@ == unescape_nl(s@),
{
    let len = s.unicode_len();
    let mut out: Vec<char> = Vec::new();
    let mut i: usize = 0;
    proof {
        assert(out@ =~= Seq::<char>::empty());
        assert(s@.skip(0) =~= s@);
    }
    while i < len
        invariant
            i <= len,
            len == s@.len(),
            unescape_nl(s@) =~= out@ + unescape_nl(s@.skip(i as int)),
        decreases len - i,
    {
        let ghost rest = s@.skip(i as int);
        let c = s.get_char(i);
        proof {
            assert(rest[0] == s@[i as int]);
            if rest.len() >= 2 {
                assert(rest[1] == s@[i + 1]);
            }
        }
        let ghost before = out@;
        if c == '\\' && i + 1 < len && s.get_char(i + 1) == 'n' {
            out.push('\n');
            proof {
                assert(rest.skip(2) =~= s@.skip(i + 2));
                assert(out@ + unescape_nl(s@.skip(i + 2)) =~= before + (seq!['\n']
                    + unescape_nl(rest.skip(2))));
            }
            i = i + 2;
        } else {
            out.push(c);
            proof {
                assert(rest.skip(1) =~= s@.skip(i + 1));
                if rest.len() >= 2 {
                    assert(!(rest[0] == '\\' && rest[1] == 'n'));
                }
                assert(out@ + unescape_nl(s@.skip(i + 1)) =~= before + (seq![rest[0]]
                    + unescape_nl(rest.skip(1))));
            }
            i = i + 1;
        }
    }
    proof {
        assert(s@.skip(len as int).len() == 0);
        assert(out@ + unescape_nl(s@.skip(len as int)) =~= out@);
    }
    chars_to_string(&out)
}

pub open spec fn is_digit_char(c: char) -> bool {
    48 <= c as u32 <= 57
}

pub open spec fn all_digits(s: Seq<char>) -> bool {
    forall|i: int| 0 <= i < s.len() ==> is_digit_char(#[trigger] s[i])
}

/// The value of a digit string, most significant digit first.
pub open spec fn digits_value(s: Seq<char>) -> int
    decreases s.len(),
{
    if s.len() == 0 {
        0
    } else {
        digits_value(s.drop_last()) * 10 + (s.last() as u32 - 48)
    }
}

proof fn lemma_digits_value_nonneg(s: Seq<char>)
    requires
        all_digits(s),
    ensures
        digits_value(s) >= 0,
    decreases s.len(),
{
    if s.len() > 0 {
        assert(all_digits(s.drop_last())) by {
            assert forall|i: int| 0 <= i < s.len() - 1 implies is_digit_char(
                #[trigger] s.drop_last()[i],
            ) by {
                assert(s.drop_last()[i] == s[i]);
            }
        }
        lemma_digits_value_nonneg(s.drop_last());
        assert(is_digit_char(s[s.len() - 1]));
        assert(s.last() as u32 - 48 >= 0);
    }
}

proof fn lemma_digits_value_mono(s: Seq<char>, k: int)
    requires
        0 <= k <= s.len(),
        all_digits(s),
    ensures
        digits_value(s.take(k)) <= digits_value(s),
    decreases s.len() - k,
{
    if k == s.len() {
        assert(s.take(k) =~= s);
    } else {
        lemma_digits_value_mono(s, k + 1);
        assert(s.take(k + 1).drop_last() =~= s.take(k));
        assert(s.take(k + 1).last() == s[k]);
        assert(is_digit_char(s[k]));
        assert(all_digits(s.take(k))) by {
            assert forall|i: int| 0 <= i < k implies is_digit_char(#[trigger] s.take(k)[i]) by {
                assert(s.take(k)[i] == s[i]);
            }
        }
        lemma_digits_value_nonneg(s.take(k));
        assert(digits_value(s.take(k + 1)) == digits_value(s.take(k)) * 10 + (s[k] as u32 - 48));
        assert(digits_value(s.take(k)) * 10 >= digits_value(s.take(k)));
    }
}

/// What `str::parse::<u32>` accepts: an optional leading plus sign, then
/// one or more decimal digits whose value fits.
pub open spec fn parse_u32_spec(s: Seq<char>) -> Option<u32> {
    let ds = if s.len() > 0 && s[0] == '+' {
        s.skip(1)
    } else {
        s
    };
    if ds.len() == 0 || !all_digits(ds) {
        None
    } else if digits_value(ds) > u32::MAX {
        None
    } else {
        Some(digits_value(ds) as u32)
    }
}

pub fn parse_u32(s: &str) -> (r: Option<u32>)
    ensures
        r == parse_u32_spec(s@),
{
    let len = s.unicode_len();
    let start: usize = if len > 0 && s.get_char(0) == '+' {
        1
    } else {
        0
    };
    let ghost ds = if s@.len() > 0 && s@[0] == '+' {
        s@.skip(1)
    } else {
        s@
    };
    proof {
        if start == 1 {
            assert(ds =~= s@.subrange(1, len as int));
        } else {
            assert(ds =~= s@.subrange(0, len as int));
        }
    }
    if start == len {
        return None;
    }
    let mut acc: u64 = 0;
    let mut i: usize = start;
    proof {
        assert(ds.take(0) =~= Seq::<char>::empty());
    }
    while i < len
        invariant
            start <= i <= len,
            len == s@.len(),
            start == (if s@.len() > 0 && s@[0] == '+' {
                1int
            } else {
                0int
            }),
            ds == (if s@.len() > 0 && s@[0] == '+' {
                s@.skip(1)
            } else {
                s@
            }),
            ds =~= s@.subrange(start as int, len as int),
            all_digits(ds.take(i - start)),
            acc == digits_value(ds.take(i - start)),
            acc <= u32::MAX,
        decreases len - i,
    {
        let c = s.get_char(i);
        let u = c as u32;
        proof {
            assert(ds[i - start] == s@[i as int]);
        }
        if u < 48 || u > 57 {
            proof {
                assert(!is_digit_char(ds[i - start]));
                assert(!all_digits(ds));
            }
            return None;
        }
        let d = (u - 48) as u64;
        acc = acc * 10 + d;
        proof {
            assert(ds.take(i - start + 1).drop_last() =~= ds.take(i - start));
            assert(ds.take(i - start + 1).last() == ds[i - start]);
            assert(all_digits(ds.take(i - start + 1))) by {
                assert forall|k: int| 0 <= k < i - start + 1 implies is_digit_char(
                    #[trigger] ds.take(i - start + 1)[k],
                ) by {
                    if k < i - start {
                        assert(ds.take(i - start + 1)[k] == ds.take(i - start)[k]);
                    }
                }
            }
        }
        if acc > 0xffff_ffff {
            proof {
                if all_digits(ds) {
                    lemma_digits_value_mono(ds, i - start + 1);
                }
            }
            return None;
        }
        i = i + 1;
    }
    proof {
        assert(ds.take(len - start) =~= ds);
    }
    Some(acc as u32)
}

/// One line of the plugin's context file: the key before the first `=` and
/// the unescaped value after it; no entry for a line without `=`.
pub open spec fn nvim_entry(l: Seq<char>) -> Option<(Seq<char>, Seq<char>)> {
    let e = find_char(l, '=');
    if e == l.len() {
        None
    } else {
        Some((l.subrange(0, e), unescape_nl(l.subrange(e + 1, l.len() as int))))
    }
}

/// The unescaped value of the last line binding `key`, mirroring a map
/// filled line by line where later lines win.
pub open spec fn nvim_lookup(lines: Seq<Seq<char>>, key: Seq<char>) -> Option<Seq<char>>
    decreases lines.len(),
{
    if lines.len() == 0 {
        None
    } else {
        match nvim_entry(lines.last()) {
            Some(kv) => if kv.0 == key {
                Some(kv.1)
            } else {
                nvim_lookup(lines.drop_last(), key)
            },
            None => nvim_lookup(lines.drop_last(), key),
        }
    }
}

fn nvim_get(lines: &Vec<String>, key: &str) -> (r: Option<String>)
    ensures
        opt_view(r) == nvim_lookup(lines.deep_view(), key@),
{
    let mut i: usize = lines.len();
    proof {
        assert(lines.deep_view().take(i as int) =~= lines.deep_view());
    }
    while i > 0
        invariant
            i <= lines.len(),
            nvim_lookup(lines.deep_view(), key@) == nvim_lookup(
                lines.deep_view().take(i as int),
                key@,
            ),
        decreases i,
    {
        i = i - 1;
        proof {
            let dv = lines.deep_view();
            assert(dv.take(i + 1).last() == dv[i as int]);
            assert(dv.take(i + 1).drop_last() =~= dv.take(i as int));
            assert(dv[i as int] == lines[i as int]@);
        }
        let line = lines[i].as_str();
        let llen = line.unicode_len();
        match find_char_in(line, '=') {
            Some(e) => {
                let k = line.substring_char(0, e);
                if crate::text::str_eq(k, key) {
                    let v = unescape_newlines(line.substring_char(e + 1, llen));
                    return Some(v);
                }
            },
            None => {},
        }
    }
    proof {
        assert(lines.deep_view().take(0) =~= Seq::<Seq<char>>::empty());
    }
    None
}

/// A field of the plugin's context file: the looked-up value where one was
/// bound and is non-empty.
pub open spec fn nvim_field(content: Seq<char>, key: Seq<char>) -> Option<Seq<char>> {
    match nvim_lookup(split_lines(content), key) {
        Some(v) => if v.len() > 0 {
            Some(v)
        } else {
            None
        },
        None => None,
    }
}

/// A numeric field of the plugin's context file.
pub open spec fn nvim_number(content: Seq<char>, key: Seq<char>) -> Option<u32> {
    match nvim_lookup(split_lines(content), key) {
        Some(v) => parse_u32_spec(v),
        None => None,
    }
}

fn filter_nonempty(v: Option<String>) -> (r: Option<String>)
    ensures
        match v {
            Some(t) => if t@.len() > 0 {
                r matches Some(u) && u@ == t@
            } else {
                r is None
            },
            None => r is None,
        },
{
    match v {
        Some(t) => {
            if t.as_str().unicode_len() > 0 {
                Some(t)
            } else {
                None
            }
        },
        None => None,
    }
}

/// The editor context an editor plugin hands over through its context
/// file. `buffer_content` comes from the separate buffer file and is
/// filled in by the surrounding program.
#[derive(Debug)]
pub struct NvimContext {
    pub filepath: Option<String>,
    pub filename: Option<String>,
    pub filetype: Option<String>,
    pub cursor_line: Option<u32>,
    pub cursor_col: Option<u32>,
    pub current_line: Option<String>,
    pub visual_selection: Option<String>,
    pub lsp_diagnostics: Option<String>,
    pub buffer_content: Option<String>,
}

impl NvimContext {
    /// Parses the plugin's context file text: one `key=value` binding per
    /// line, later bindings winning, values unescaped, empty values
    /// treated as absent, and the cursor read as numbers.
    pub fn from_text(content: &str) -> (r: NvimContext)
        ensures
            opt_view(r.filepath) == nvim_field(content@, "CMDK_NVIM_FILEPATH"@),
            opt_view(r.filename) == nvim_field(content@, "CMDK_NVIM_FILENAME"@),
            opt_view(r.filetype) == nvim_field(content@, "CMDK_NVIM_FILETYPE"@),
            opt_view(r.current_line) == nvim_field(content@, "CMDK_NVIM_CURRENT_LINE"@),
            opt_view(r.visual_selection) == nvim_field(content@, "CMDK_NVIM_VISUAL_SELECTION"@),
            opt_view(r.lsp_diagnostics) == nvim_field(content@, "CMDK_NVIM_LSP_DIAGNOSTICS"@),
            r.cursor_line == nvim_number(content@, "CMDK_NVIM_CURSOR_LINE"@),
            r.cursor_col == nvim_number(content@, "CMDK_NVIM_CURSOR_COL"@),
            r.buffer_content is None,
    {
        let lines = lines_of(content);
        let cursor_line = match nvim_get(&lines, "CMDK_NVIM_CURSOR_LINE") {
            Some(v) => parse_u32(v.as_str()),
            None => None,
        };
        let cursor_col = match nvim_get(&lines, "CMDK_NVIM_CURSOR_COL") {
            Some(v) => parse_u32(v.as_str()),
            None => None,
        };
        NvimContext {
            filepath: filter_nonempty(nvim_get(&lines, "CMDK_NVIM_FILEPATH")),
            filename: filter_nonempty(nvim_get(&lines, "CMDK_NVIM_FILENAME")),
            filetype: filter_nonempty(nvim_get(&lines, "CMDK_NVIM_FILETYPE")),
            cursor_line,
            cursor_col,
            current_line: filter_nonempty(nvim_get(&lines, "CMDK_NVIM_CURRENT_LINE")),
            visual_selection: filter_nonempty(nvim_get(&lines, "CMDK_NVIM_VISUAL_SELECTION")),
            lsp_diagnostics: filter_nonempty(nvim_get(&lines, "CMDK_NVIM_LSP_DIAGNOSTICS")),
            buffer_content: None,
        }
    }
}

pub open spec fn md_file(ctx: NvimContext) -> Seq<char> {
    match ctx.filepath {
        Some(f) => "**File:** "@ + f@ + "\n"@,
        None => Seq::empty(),
    }
}

pub open spec fn md_filetype(ctx: NvimContext) -> Seq<char> {
    match ctx.filetype {
        Some(t) => "**Filetype:** "@ + t@ + "\n"@,
        None => Seq::empty(),
    }
}

pub open spec fn md_cursor(ctx: NvimContext) -> Seq<char> {
    match (ctx.cursor_line, ctx.cursor_col) {
        (Some(l), Some(c)) => "**Cursor Position:** Line "@ + dec_rep(l as int) + ", Column "@
            + dec_rep(c as int) + "\n"@,
        _ => Seq::empty(),
    }
}

pub open spec fn md_current(ctx: NvimContext) -> Seq<char> {
    match ctx.current_line {
        Some(l) => "\n**Current Line:**\n```\n"@ + l@ + "\n```\n"@,
        None => Seq::empty(),
    }
}

pub open spec fn md_selection(ctx: NvimContext) -> Seq<char> {
    match ctx.visual_selection {
        Some(s) => "\n**Selected Text:**\n```\n"@ + s@ + "\n```\n"@,
        None => Seq::empty(),
    }
}

pub open spec fn md_diagnostics(ctx: NvimContext) -> Seq<char> {
    match ctx.lsp_diagnostics {
        Some(d) => "\n**LSP Diagnostics:**\n```\n"@ + d@ + "\n```\n"@,
        None => Seq::empty(),
    }
}

/// Buffer text shown in the prompt: cut to its first five thousand
/// characters with a truncation mark.
pub open spec fn md_truncated_buffer(c: Seq<char>) -> Seq<char> {
    if c.len() > 5000 {
        c.take(5000) + "...\n(truncated)"@
    } else {
        c
    }
}

pub open spec fn md_buffer(ctx: NvimContext) -> Seq<char> {
    match ctx.buffer_content {
        Some(c) => {
            let lang = match ctx.filetype {
                Some(t) => t@,
                None => Seq::<char>::empty(),
            };
            "\n**Buffer Content:**\n```"@ + lang + "\n"@ + md_truncated_buffer(c@) + "\n```\n"@
        },
        None => Seq::empty(),
    }
}

/// The editor context as the markdown block included in the prompt.
pub open spec fn nvim_markdown_spec(ctx: NvimContext) -> Seq<char> {
    "## Neovim Context\n\n"@ + md_file(ctx) + md_filetype(ctx) + md_cursor(ctx) + md_current(ctx)
        + md_selection(ctx) + md_diagnostics(ctx) + md_buffer(ctx)
}

impl NvimContext {
    /// Renders the editor context as markdown for the prompt.
    #[verifier::rlimit(100)]
    pub fn to_markdown(&self) -> (r: String)
        ensures
            r@ == nvim_markdown_spec(*self),
    {
        let mut s_file = String::new();
        match &self.filepath {
            Some(f) => {
                s_file.append("**File:** ");
                s_file.append(f.as_str());
                s_file.append("\n");
            },
            None => {},
        }
        proof {
            assert(s_file@ =~= md_file(*self));
        }
        let mut s_type = String::new();
        match &self.filetype {
            Some(t) => {
                s_type.append("**Filetype:** ");
                s_type.append(t.as_str());
                s_type.append("\n");
            },
            None => {},
        }
        proof {
            assert(s_type@ =~= md_filetype(*self));
        }
        let mut s_cursor = String::new();
        match (&self.cursor_line, &self.cursor_col) {
            (Some(l), Some(c)) => {
                s_cursor.append("**Cursor Position:** Line ");
                s_cursor.append(u64_to_string(*l as u64).as_str());
                s_cursor.append(", Column ");
                s_cursor.append(u64_to_string(*c as u64).as_str());
                s_cursor.append("\n");
            },
            _ => {},
        }
        proof {
            assert(s_cursor@ =~= md_cursor(*self));
        }
        let mut s_line = String::new();
        match &self.current_line {
            Some(l) => {
                s_line.append("\n**Current Line:**\n```\n");
                s_line.append(l.as_str());
                s_line.append("\n```\n");
            },
            None => {},
        }
        proof {
            assert(s_line@ =~= md_current(*self));
        }
        let mut s_sel = String::new();
        match &self.visual_selection {
            Some(v) => {
                s_sel.append("\n**Selected Text:**\n```\n");
                s_sel.append(v.as_str());
                s_sel.append("\n```\n");
            },
            None => {},
        }
        proof {
            assert(s_sel@ =~= md_selection(*self));
        }
        let mut s_diag = String::new();
        match &self.lsp_diagnostics {
            Some(d) => {
                s_diag.append("\n**LSP Diagnostics:**\n```\n");
                s_diag.append(d.as_str());
                s_diag.append("\n```\n");
            },
            None => {},
        }
        proof {
            assert(s_diag@ =~= md_diagnostics(*self));
        }
        let mut s_buf = String::new();
        match &self.buffer_content {
            Some(c) => {
                s_buf.append("\n**Buffer Content:**\n```");
                match &self.filetype {
                    Some(t) => {
                        s_buf.append(t.as_str());
                    },
                    None => {},
                }
                s_buf.append("\n");
                let clen = c.as_str().unicode_len();
                if clen > 5000 {
                    let head = c.as_str().substring_char(0, 5000);
                    s_buf.append(head);
                    s_buf.append("...\n(truncated)");
                    proof {
                        assert(c@.subrange(0, 5000) =~= c@.take(5000));
                    }
                } else {
                    s_buf.append(c.as_str());
                }
                s_buf.append("\n```\n");
            },
            None => {},
        }
        proof {
            assert(s_buf@ =~= md_buffer(*self));
        }
        let mut out = String::from_str("## Neovim Context\n\n");
        out.append(s_file.as_str());
        out.append(s_type.as_str());
        out.append(s_cursor.as_str());
        out.append(s_line.as_str());
        out.append(s_sel.as_str());
        out.append(s_diag.as_str());
        out.append(s_buf.as_str());
        out
    }
}

/// The actions an editor result offers, in display order; the chosen one
/// is written back for the plugin to perform.
#[derive(Debug, Clone, Copy, PartialEq, Eq, Structural)]
pub enum NvimResultAction {
    Insert,
    Replace,
    Run,
    Copy,
    Cancel,
}

/// The identifier written to the action sidecar file for each action.
pub open spec fn nvim_action_label(a: NvimResultAction) -> Seq<char> {
    match a {
        NvimResultAction::Insert => "insert"@,
        NvimResultAction::Replace => "replace"@,
        NvimResultAction::Run => "run"@,
        NvimResultAction::Copy => "copy"@,
        NvimResultAction::Cancel => "cancel"@,
    }
}

pub fn nvim_action_str(a: &NvimResultAction) -> (r: &'static str)
    ensures
        r@ == nvim_action_label(*a),
{
    match a {
        NvimResultAction::Insert => "insert",
        NvimResultAction::Replace => "replace",
        NvimResultAction::Run => "run",
        NvimResultAction::Copy => "copy",
        NvimResultAction::Cancel => "cancel",
    }
}

pub open spec fn standard_nvim_actions() -> Seq<NvimResultAction> {
    seq![
        NvimResultAction::Insert,
        NvimResultAction::Replace,
        NvimResultAction::Run,
        NvimResultAction::Copy,
        NvimResultAction::Cancel,
    ]
}

/// The editor-mode session: the base state machine plus the parsed editor
/// context and the editor's own result-action menu.
pub struct NvimApp {
    pub base: App,
    pub nvim_context: NvimContext,
    pub context_file: String,
    pub nvim_actions: Vec<NvimResultAction>,
    pub nvim_selected: usize,
}

impl NvimApp {
    pub open spec fn wf(self) -> bool {
        &&& self.base.wf()
        &&& self.nvim_actions@ == standard_nvim_actions()
        &&& self.nvim_selected < self.nvim_actions@.len()
    }

    pub fn new(base: App, nvim_context: NvimContext, context_file: String) -> (r: NvimApp)
        ensures
            r.base == base,
            r.nvim_context == nvim_context,
            r.context_file == context_file,
            r.nvim_actions@ == standard_nvim_actions(),
            r.nvim_selected == 0,
            base.wf() ==> r.wf(),
    {
        let mut nvim_actions: Vec<NvimResultAction> = Vec::new();
        nvim_actions.push(NvimResultAction::Insert);
        nvim_actions.push(NvimResultAction::Replace);
        nvim_actions.push(NvimResultAction::Run);
        nvim_actions.push(NvimResultAction::Copy);
        nvim_actions.push(NvimResultAction::Cancel);
        proof {
            assert(nvim_actions@ =~= standard_nvim_actions());
        }
        NvimApp { base, nvim_context, context_file, nvim_actions, nvim_selected: 0 }
    }

    /// The combined context sent with an editor-mode prompt: the terminal
    /// context block, then the editor context block.
    pub fn gather_full_context(&self, terminal_context: &str) -> (r: String)
        ensures
            r@ == terminal_context@ + "\n"@ + nvim_markdown_spec(self.nvim_context),
    {
        let md = self.nvim_context.to_markdown();
        let mut out = String::from_str(terminal_context);
        out.append("\n");
        out.append(md.as_str());
        out
    }

    /// One key press on the editor's result menu: navigation moves the
    /// highlight; choosing leaves the loop with the chosen action, and
    /// backing out leaves it with `Cancel`.
    pub fn handle_nvim_result_key(&mut self, action: KeyAction) -> (r: Option<NvimResultAction>)
        requires
            old(self).wf(),
        ensures
            final(self).wf(),
            match action {
                KeyAction::Up => final(self).nvim_selected == (if old(self).nvim_selected > 0 {
                    old(self).nvim_selected - 1
                } else {
                    0int
                }) && *final(self) == (NvimApp {
                    nvim_selected: final(self).nvim_selected,
                    ..*old(self)
                }) && (r is None),
                KeyAction::Down => final(self).nvim_selected == (if old(self).nvim_selected + 1
                    < old(self).nvim_actions@.len() {
                    old(self).nvim_selected + 1
                } else {
                    old(self).nvim_selected as int
                }) && *final(self) == (NvimApp {
                    nvim_selected: final(self).nvim_selected,
                    ..*old(self)
                }) && (r is None),
                KeyAction::Select => r == Some(
                    old(self).nvim_actions@[old(self).nvim_selected as int],
                ) && !final(self).base.running && *final(self) == (NvimApp {
                    base: final(self).base,
                    ..*old(self)
                }) && final(self).base == (App { running: false, ..old(self).base }),
                KeyAction::Back | KeyAction::Quit => r == Some(NvimResultAction::Cancel) && !final(self).base.running && *final(self) == (NvimApp {
                    base: final(self).base,
                    ..*old(self)
                }) && final(self).base == (App { running: false, ..old(self).base }),
                _ => *final(self) == *old(self) && (r is None),
            },
    {
        match action {
            KeyAction::Up => {
                if self.nvim_selected > 0 {
                    self.nvim_selected = self.nvim_selected - 1;
                }
                None
            },
            KeyAction::Down => {
                if self.nvim_selected < self.nvim_actions.len() - 1 {
                    self.nvim_selected = self.nvim_selected + 1;
                }
                None
            },
            KeyAction::Select => {
                let chosen = self.nvim_actions[self.nvim_selected];
                self.base.running = false;
                Some(chosen)
            },
            KeyAction::Back | KeyAction::Quit => {
                self.base.running = false;
                Some(NvimResultAction::Cancel)
            },
            _ => None,
        }
    }
}

/// At most the first `n` entries of `ls`.
pub open spec fn take_at_most(ls: Seq<Seq<char>>, n: int) -> Seq<Seq<char>> {
    if ls.len() <= n {
        ls
    } else {
        ls.take(n)
    }
}

/// Pushes at most `limit` of `src`'s lines, each indented by two spaces.
fn push_indented(lines: &mut Vec<String>, src: &Vec<String>, limit: usize)
    ensures
        final(lines).deep_view() =~= old(lines).deep_view() + take_at_most(
            src.deep_view(),
            limit as int,
        ).map_values(|l: Seq<char>| crate::context::indent_two(l)),
{
    let n: usize = if src.len() <= limit {
        src.len()
    } else {
        limit
    };
    let ghost dv = src.deep_view();
    let ghost base = lines.deep_view();
    let mut i: usize = 0;
    proof {
        assert(take_at_most(dv, limit as int) =~= dv.take(n as int));
        assert(base + dv.take(0).map_values(|l: Seq<char>| crate::context::indent_two(l))
            =~= base);
    }
    while i < n
        invariant
            i <= n <= src.len(),
            src.deep_view() == dv,
            lines.deep_view() =~= base + dv.take(i as int).map_values(
                |l: Seq<char>| crate::context::indent_two(l),
            ),
        decreases n - i,
    {
        let ghost before = lines.deep_view();
        lines.push(String::from_str("  ").concat(src[i].as_str()));
        proof {
            assert(dv[i as int] == src[i as int]@);
            assert(lines.deep_view() =~= before.push(crate::context::indent_two(dv[i as int])));
            assert(dv.take(i + 1) =~= dv.take(i as int).push(dv[i as int]));
            assert(dv.take(i + 1).map_values(|l: Seq<char>| crate::context::indent_two(l))
                =~= dv.take(i as int).map_values(
                |l: Seq<char>| crate::context::indent_two(l),
            ).push(crate::context::indent_two(dv[i as int])));
        }
        i = i + 1;
    }
}

/// Buffer text previewed in the context view: its first five hundred
/// characters.
pub open spec fn preview500(c: Seq<char>) -> Seq<char> {
    if c.len() > 500 {
        c.take(500)
    } else {
        c
    }
}

pub open spec fn dl_head() -> Seq<Seq<char>> {
    seq!["=== Neovim Context ==="@, Seq::<char>::empty()]
}

pub open spec fn dl_file(ctx: NvimContext) -> Seq<Seq<char>> {
    match ctx.filepath {
        Some(f) => seq!["File: "@ + f@],
        None => Seq::empty(),
    }
}

pub open spec fn dl_filetype(ctx: NvimContext) -> Seq<Seq<char>> {
    match ctx.filetype {
        Some(t) => seq!["Filetype: "@ + t@],
        None => Seq::empty(),
    }
}

pub open spec fn dl_cursor(ctx: NvimContext) -> Seq<Seq<char>> {
    match (ctx.cursor_line, ctx.cursor_col) {
        (Some(l), Some(c)) => seq![
            "Cursor: Line "@ + dec_rep(l as int) + ", Column "@ + dec_rep(c as int),
        ],
        _ => Seq::empty(),
    }
}

pub open spec fn dl_current(ctx: NvimContext) -> Seq<Seq<char>> {
    match ctx.current_line {
        Some(l) => seq![Seq::<char>::empty(), "Current Line:"@, crate::context::indent_two(l@)],
        None => Seq::empty(),
    }
}

pub open spec fn dl_selection(ctx: NvimContext) -> Seq<Seq<char>> {
    match ctx.visual_selection {
        Some(s) => seq![Seq::<char>::empty(), "Visual Selection:"@] + take_at_most(
            split_lines(s@),
            10,
        ).map_values(|l: Seq<char>| crate::context::indent_two(l)) + (if split_lines(s@).len()
            > 10 {
            seq!["  ... (truncated)"@]
        } else {
            Seq::empty()
        }),
        None => Seq::empty(),
    }
}

pub open spec fn dl_diagnostics(ctx: NvimContext) -> Seq<Seq<char>> {
    match ctx.lsp_diagnostics {
        Some(d) => seq![Seq::<char>::empty(), "LSP Diagnostics:"@] + take_at_most(
            split_lines(d@),
            5,
        ).map_values(|l: Seq<char>| crate::context::indent_two(l)),
        None => Seq::empty(),
    }
}

/// The buffer group of the context view. The shown size counts
/// characters, as all sizes here do, not encoded bytes.
pub open spec fn dl_buffer(ctx: NvimContext) -> Seq<Seq<char>> {
    match ctx.buffer_content {
        Some(c) => seq![
            Seq::<char>::empty(),
            "Buffer Content: "@ + dec_rep(c@.len() as int) + " chars"@,
            "  (first 500 chars)"@,
        ] + take_at_most(split_lines(preview500(c@)), 10).map_values(
            |l: Seq<char>| crate::context::indent_two(l),
        ) + (if split_lines(c@).len() > 10 {
            seq!["  ..."@]
        } else {
            Seq::empty()
        }),
        None => Seq::empty(),
    }
}

pub open spec fn dl_tail(terminal: Seq<char>) -> Seq<Seq<char>> {
    seq![Seq::<char>::empty(), "=== Terminal Context ==="@, Seq::<char>::empty(), terminal]
}

/// The context view's lines in editor mode: the editor facts, previews of
/// the selection, diagnostics and buffer, then the terminal context.
pub open spec fn nvim_display_lines(ctx: NvimContext, terminal: Seq<char>) -> Seq<Seq<char>> {
    dl_head() + dl_file(ctx) + dl_filetype(ctx) + dl_cursor(ctx) + dl_current(ctx) + dl_selection(
        ctx,
    ) + dl_diagnostics(ctx) + dl_buffer(ctx) + dl_tail(terminal)
}

fn dl_head_lines() -> (r: Vec<String>)
    ensures
        r.deep_view() == dl_head(),
{
    let mut lines: Vec<String> = Vec::new();
    lines.push(String::from_str("=== Neovim Context ==="));
    lines.push(String::new());
    proof {
        assert(lines.deep_view() =~= dl_head());
    }
    lines
}

fn dl_file_lines(ctx: &NvimContext) -> (r: Vec<String>)
    ensures
        r.deep_view() == dl_file(*ctx),
{
    let mut lines: Vec<String> = Vec::new();
    match &ctx.filepath {
        Some(f) => {
            lines.push(String::from_str("File: ").concat(f.as_str()));
        },
        None => {},
    }
    proof {
        assert(lines.deep_view() =~= dl_file(*ctx));
    }
    lines
}

fn dl_filetype_lines(ctx: &NvimContext) -> (r: Vec<String>)
    ensures
        r.deep_view() == dl_filetype(*ctx),
{
    let mut lines: Vec<String> = Vec::new();
    match &ctx.filetype {
        Some(t) => {
            lines.push(String::from_str("Filetype: ").concat(t.as_str()));
        },
        None => {},
    }
    proof {
        assert(lines.deep_view() =~= dl_filetype(*ctx));
    }
    lines
}

fn dl_cursor_lines(ctx: &NvimContext) -> (r: Vec<String>)
    ensures
        r.deep_view() == dl_cursor(*ctx),
{
    let mut lines: Vec<String> = Vec::new();
    match (&ctx.cursor_line, &ctx.cursor_col) {
        (Some(l), Some(c)) => {
            lines.push(
                String::from_str("Cursor: Line ").concat(u64_to_string(*l as u64).as_str()).concat(
                    ", Column ",
                ).concat(u64_to_string(*c as u64).as_str()),
            );
        },
        _ => {},
    }
    proof {
        assert(lines.deep_view() =~= dl_cursor(*ctx));
    }
    lines
}

fn dl_current_lines(ctx: &NvimContext) -> (r: Vec<String>)
    ensures
        r.deep_view() == dl_current(*ctx),
{
    let mut lines: Vec<String> = Vec::new();
    match &ctx.current_line {
        Some(l) => {
            lines.push(String::new());
            lines.push(String::from_str("Current Line:"));
            lines.push(String::from_str("  ").concat(l.as_str()));
        },
        None => {},
    }
    proof {
        assert(lines.deep_view() =~= dl_current(*ctx));
    }
    lines
}

fn dl_selection_lines(ctx: &NvimContext) -> (r: Vec<String>)
    ensures
        r.deep_view() == dl_selection(*ctx),
{
    let mut lines: Vec<String> = Vec::new();
    match &ctx.visual_selection {
        Some(sel) => {
            lines.push(String::new());
            lines.push(String::from_str("Visual Selection:"));
            let ghost head = lines.deep_view();
            proof {
                assert(head =~= seq![Seq::<char>::empty(), "Visual Selection:"@]);
            }
            let sel_lines = lines_of(sel.as_str());
            push_indented(&mut lines, &sel_lines, 10);
            if sel_lines.len() > 10 {
                let ghost before = lines.deep_view();
                lines.push(String::from_str("  ... (truncated)"));
                proof {
                    assert(lines.deep_view() =~= before.push("  ... (truncated)"@));
                    assert(lines.deep_view() =~= dl_selection(*ctx));
                }
            } else {
                proof {
                    assert(lines.deep_view() =~= dl_selection(*ctx));
                }
            }
        },
        None => {
            proof {
                assert(lines.deep_view() =~= dl_selection(*ctx));
            }
        },
    }
    lines
}

fn dl_diagnostics_lines(ctx: &NvimContext) -> (r: Vec<String>)
    ensures
        r.deep_view() == dl_diagnostics(*ctx),
{
    let mut lines: Vec<String> = Vec::new();
    match &ctx.lsp_diagnostics {
        Some(d) => {
            lines.push(String::new());
            lines.push(String::from_str("LSP Diagnostics:"));
            let ghost head = lines.deep_view();
            proof {
                assert(head =~= seq![Seq::<char>::empty(), "LSP Diagnostics:"@]);
            }
            let d_lines = lines_of(d.as_str());
            push_indented(&mut lines, &d_lines, 5);
            proof {
                assert(lines.deep_view() =~= dl_diagnostics(*ctx));
            }
        },
        None => {
            proof {
                assert(lines.deep_view() =~= dl_diagnostics(*ctx));
            }
        },
    }
    lines
}

#[verifier::rlimit(50)]
fn dl_buffer_lines(ctx: &NvimContext) -> (r: Vec<String>)
    ensures
        r.deep_view() == dl_buffer(*ctx),
{
    let mut lines: Vec<String> = Vec::new();
    match &ctx.buffer_content {
        Some(c) => {
            lines.push(String::new());
            let clen = c.as_str().unicode_len();
            lines.push(
                String::from_str("Buffer Content: ").concat(
                    u64_to_string(clen as u64).as_str(),
                ).concat(" chars"),
            );
            lines.push(String::from_str("  (first 500 chars)"));
            let ghost head = lines.deep_view();
            proof {
                assert(head =~= seq![
                    Seq::<char>::empty(),
                    "Buffer Content: "@ + dec_rep(c@.len() as int) + " chars"@,
                    "  (first 500 chars)"@,
                ]);
            }
            let preview = if clen > 500 {
                c.as_str().substring_char(0, 500)
            } else {
                c.as_str()
            };
            proof {
                if clen > 500 {
                    assert(c@.subrange(0, 500) =~= c@.take(500));
                }
                assert(preview@ == preview500(c@));
            }
            let p_lines = lines_of(preview);
            push_indented(&mut lines, &p_lines, 10);
            let c_lines = lines_of(c.as_str());
            if c_lines.len() > 10 {
                let ghost before = lines.deep_view();
                lines.push(String::from_str("  ..."));
                proof {
                    assert(lines.deep_view() =~= before.push("  ..."@));
                    assert(lines.deep_view() =~= dl_buffer(*ctx));
                }
            } else {
                proof {
                    assert(lines.deep_view() =~= dl_buffer(*ctx));
                }
            }
        },
        None => {
            proof {
                assert(lines.deep_view() =~= dl_buffer(*ctx));
            }
        },
    }
    lines
}

/// The editor part of the context view, as lines.
fn nvim_display_head(ctx: &NvimContext) -> (r: Vec<String>)
    ensures
        r.deep_view() == dl_head() + dl_file(*ctx) + dl_filetype(*ctx) + dl_cursor(*ctx)
            + dl_current(*ctx) + dl_selection(*ctx) + dl_diagnostics(*ctx) + dl_buffer(*ctx),
{
    let mut out = dl_head_lines();
    let mut v1 = dl_file_lines(ctx);
    let mut v2 = dl_filetype_lines(ctx);
    let mut v3 = dl_cursor_lines(ctx);
    let mut v4 = dl_current_lines(ctx);
    let mut v5 = dl_selection_lines(ctx);
    let mut v6 = dl_diagnostics_lines(ctx);
    let mut v7 = dl_buffer_lines(ctx);
    let ghost w0 = out@;
    let ghost w1 = v1@;
    let ghost w2 = v2@;
    let ghost w3 = v3@;
    let ghost w4 = v4@;
    let ghost w5 = v5@;
    let ghost w6 = v6@;
    let ghost w7 = v7@;
    proof {
        assert(views_of(w0) =~= out.deep_view());
        assert(views_of(w1) =~= v1.deep_view());
        assert(views_of(w2) =~= v2.deep_view());
        assert(views_of(w3) =~= v3.deep_view());
        assert(views_of(w4) =~= v4.deep_view());
        assert(views_of(w5) =~= v5.deep_view());
        assert(views_of(w6) =~= v6.deep_view());
        assert(views_of(w7) =~= v7.deep_view());
    }
    out.append(&mut v1);
    out.append(&mut v2);
    out.append(&mut v3);
    out.append(&mut v4);
    out.append(&mut v5);
    out.append(&mut v6);
    out.append(&mut v7);
    proof {
        lemma_views_concat(w0, w1);
        lemma_views_concat(w0 + w1, w2);
        lemma_views_concat(w0 + w1 + w2, w3);
        lemma_views_concat(w0 + w1 + w2 + w3, w4);
        lemma_views_concat(w0 + w1 + w2 + w3 + w4, w5);
        lemma_views_concat(w0 + w1 + w2 + w3 + w4 + w5, w6);
        lemma_views_concat(w0 + w1 + w2 + w3 + w4 + w5 + w6, w7);
        assert(out.deep_view() =~= views_of(out@));
    }
    out
}

impl NvimApp {
    /// Renders the context view for editor mode, the terminal part having
    /// been gathered outside.
    pub fn get_context_display(&self, terminal_display: &str) -> (r: String)
        ensures
            r@ == joined(nvim_display_lines(self.nvim_context, terminal_display@), "\n"@),
    {
        let mut lines = nvim_display_head(&self.nvim_context);
        let ghost g7 = lines.deep_view();
        lines.push(String::new());
        lines.push(String::from_str("=== Terminal Context ==="));
        lines.push(String::new());
        lines.push(String::from_str(terminal_display));
        proof {
            assert(lines.deep_view() =~= g7 + dl_tail(terminal_display@));
            assert(lines.deep_view() == nvim_display_lines(
                self.nvim_context,
                terminal_display@,
            ));
        }
        join_with(&lines, "\n")
    }
}

/// The separate buffer file the plugin may point at; its text becomes
/// `buffer_content` if the surrounding program finds the file.
pub fn nvim_buffer_file(content: &str) -> (r: Option<String>)
    ensures
        opt_view(r) == nvim_lookup(split_lines(content@), "CMDK_NVIM_BUFFER_FILE"@),
{
    let lines = lines_of(content);
    nvim_get(&lines, "CMDK_NVIM_BUFFER_FILE")
}

} // verus!
