//! The key/value configuration the assistant runs under: defaults, lookup
//! and rewrite of the `key=value` settings text, and the privacy flags.
//!
//! The settings file itself is read and written by the surrounding program;
//! every function here works on the file's text as a plain string.
use vstd::prelude::*;
use vstd::string::*;

use crate::text::{
    find_char, find_char_in, joined, lines_of, join_with, split_lines, str_eq, trim, trim_spec,
};

verus! {

/// The default value of a setting: `auto` for the provider choice, empty
/// for the custom command, `true` for every privacy flag and unknown key.
pub open spec fn default_setting_spec(key: Seq<char>) -> Seq<char> {
    if key == "ai_provider"@ {
        "auto"@
    } else if key == "custom_provider_cmd"@ {
        ""@
    } else {
        "true"@
    }
}

pub fn get_default_setting(key: &str) -> (r: &'static str)
    ensures
        r@ == default_setting_spec(key@),
{
    if str_eq(key, "ai_provider") {
        "auto"
    } else if str_eq(key, "custom_provider_cmd") {
        ""
    } else {
        "true"
    }
}

/// One line of settings text as an entry: `None` for blank lines, comments
/// and lines without `=`; otherwise the trimmed key and value.
pub open spec fn line_entry(l: Seq<char>) -> Option<(Seq<char>, Seq<char>)> {
    let t = trim_spec(l);
    if t.len() == 0 || t[0] == '#' {
        None
    } else if find_char(t, '=') == t.len() {
        None
    } else {
        let e = find_char(t, '=');
        Some((trim_spec(t.subrange(0, e)), trim_spec(t.subrange(e + 1, t.len() as int))))
    }
}

fn parse_line(l: &str) -> (r: Option<(String, String)>)
    ensures
        match r {
            Some(kv) => line_entry(l@) matches Some(e) && kv.0@ == e.0 && kv.1@ == e.1,
            None => line_entry(l@) is None,
        },
{
    let t = trim(l);
    let tlen = t.unicode_len();
    if tlen == 0 {
        return None;
    }
    if t.get_char(0) == '#' {
        return None;
    }
    match find_char_in(t, '=') {
        None => None,
        Some(e) => {
            let key = trim(t.substring_char(0, e));
            let value = trim(t.substring_char(e + 1, tlen));
            Some((String::from_str(key), String::from_str(value)))
        },
    }
}

/// The value of the last settings line that binds `key`, mirroring a map
/// filled line by line where later lines win.
pub open spec fn lookup_setting(lines: Seq<Seq<char>>, key: Seq<char>) -> Option<Seq<char>>
    decreases lines.len(),
{
    if lines.len() == 0 {
        None
    } else {
        match line_entry(lines.last()) {
            Some(kv) => if kv.0 == key {
                Some(kv.1)
            } else {
                lookup_setting(lines.drop_last(), key)
            },
            None => lookup_setting(lines.drop_last(), key),
        }
    }
}

/// What reading `key` from the settings text yields: the last bound value,
/// or the key's default.
pub open spec fn get_setting_spec(content: Seq<char>, key: Seq<char>) -> Seq<char> {
    match lookup_setting(split_lines(content), key) {
        Some(v) => v,
        None => default_setting_spec(key),
    }
}

pub fn get_setting(content: &str, key: &str) -> (r: String)
    ensures
        r@ == get_setting_spec(content@, key@),
{
    let lines = lines_of(content);
    let mut i: usize = lines.len();
    proof {
        assert(lines.deep_view().take(i as int) =~= lines.deep_view());
    }
    while i > 0
        invariant
            i <= lines.len(),
            lines.deep_view() == split_lines(content@),
            lookup_setting(split_lines(content@), key@) == lookup_setting(
                lines.deep_view().take(i as int),
                key@,
            ),
        decreases i,
    {
        i = i - 1;
        proof {
            let dv = lines.deep_view();
            assert(dv.take(i + 1).last() == dv[i as int]);
            assert(dv.take(i + 1).drop_last() =~= dv.take(i as int));
            assert(dv[i as int] == lines[i as int]@);
        }
        match parse_line(lines[i].as_str()) {
            Some(kv) => {
                if str_eq(kv.0.as_str(), key) {
                    return kv.1;
                }
            },
            None => {},
        }
    }
    proof {
        assert(lines.deep_view().take(0) =~= Seq::<Seq<char>>::empty());
    }
    String::from_str(get_default_setting(key))
}

/// True of a settings line that binds `key` and would be rewritten by
/// `set_setting`.
pub open spec fn line_matches_key(l: Seq<char>, key: Seq<char>) -> bool {
    line_entry(l) matches Some(kv) && kv.0 == key
}

/// The settings text after binding `key` to `value`: every line that bound
/// `key` is rewritten to `key=value`; if none did, that line is appended.
/// The result always ends with a newline.
pub open spec fn set_setting_spec(content: Seq<char>, key: Seq<char>, value: Seq<char>) -> Seq<
    char,
> {
    let lines = split_lines(content);
    let entry = key + "="@ + value;
    let newlines = if exists|i: int| 0 <= i < lines.len() && line_matches_key(#[trigger] lines[i], key) {
        lines.map_values(|l: Seq<char>| if line_matches_key(l, key) {
            entry
        } else {
            l
        })
    } else {
        lines.push(entry)
    };
    joined(newlines, "\n"@) + "\n"@
}

pub fn set_setting(content: &str, key: &str, value: &str) -> (r: String)
    ensures
        r@ == set_setting_spec(content@, key@, value@),
{
    let lines = lines_of(content);
    let entry = String::from_str(key).concat("=").concat(value);
    let ghost repl = |l: Seq<char>| if line_matches_key(l, key@) {
        entry@
    } else {
        l
    };
    let mut out: Vec<String> = Vec::new();
    let mut found = false;
    let mut i: usize = 0;
    proof {
        let dv = lines.deep_view();
        assert(out.deep_view() =~= dv.take(0).map_values(repl));
    }
    while i < lines.len()
        invariant
            i <= lines.len(),
            lines.deep_view() == split_lines(content@),
            entry@ == key@ + "="@ + value@,
            out.deep_view() =~= lines.deep_view().take(i as int).map_values(repl),
            found == exists|k: int| 0 <= k < i && line_matches_key(
                #[trigger] lines.deep_view()[k],
                key@,
            ),
            repl == (|l: Seq<char>| if line_matches_key(l, key@) {
                entry@
            } else {
                l
            }),
        decreases lines.len() - i,
    {
        let ghost old_out = out.deep_view();
        let ghost dv = lines.deep_view();
        let line = &lines[i];
        let mut matched = false;
        match parse_line(line.as_str()) {
            Some(kv) => {
                if str_eq(kv.0.as_str(), key) {
                    matched = true;
                }
            },
            None => {},
        }
        proof {
            assert(dv[i as int] == lines[i as int]@);
            assert(matched == line_matches_key(dv[i as int], key@));
        }
        if matched {
            out.push(entry.clone());
            found = true;
        } else {
            out.push(line.clone());
        }
        proof {
            assert(out.deep_view() =~= old_out.push(repl(dv[i as int])));
            assert(dv.take(i + 1) =~= dv.take(i as int).push(dv[i as int]));
            assert(dv.take(i + 1).map_values(repl) =~= dv.take(i as int).map_values(repl).push(
                repl(dv[i as int]),
            ));
        }
        i = i + 1;
    }
    proof {
        let dv = lines.deep_view();
        assert(dv.take(dv.len() as int) =~= dv);
    }
    if !found {
        let ghost old_out = out.deep_view();
        out.push(entry);
        proof {
            let dv = lines.deep_view();
            assert(out.deep_view() =~= dv.push(entry@)) by {
                assert(out.deep_view() =~= old_out.push(entry@));
                assert forall|k: int| 0 <= k < dv.len() implies dv.map_values(repl)[k] == dv[k] by {
                    assert(!line_matches_key(dv[k], key@));
                }
                assert(dv.map_values(repl) =~= dv);
            }
        }
    }
    proof {
        let dv = split_lines(content@);
        let entry_s = key@ + "="@ + value@;
        let spec_new = dv.map_values(
            |l: Seq<char>|
                if line_matches_key(l, key@) {
                    entry_s
                } else {
                    l
                },
        );
        if found {
            assert(out.deep_view() =~= spec_new) by {
                assert(dv.take(dv.len() as int) =~= dv);
                assert forall|k: int| 0 <= k < dv.len() implies #[trigger] spec_new[k] == repl(
                    dv[k],
                ) by {}
            }
        } else {
            assert(out.deep_view() == dv.push(entry_s));
        }
    }
    join_with(&out, "\n").concat("\n")
}

pub fn toggle_setting(content: &str, key: &str) -> (r: String)
    ensures
        r@ == set_setting_spec(
            content@,
            key@,
            if get_setting_spec(content@, key@) == "true"@ {
                "false"@
            } else {
                "true"@
            },
        ),
{
    let current = get_setting(content, key);
    if str_eq(current.as_str(), "true") {
        set_setting(content, key, "false")
    } else {
        set_setting(content, key, "true")
    }
}

pub fn is_enabled(content: &str, key: &str) -> (r: bool)
    ensures
        r == (get_setting_spec(content@, key@) == "true"@),
{
    let v = get_setting(content, key);
    str_eq(v.as_str(), "true")
}

/// Every key the settings file knows, in its fixed order.
pub open spec fn setting_keys_spec() -> Seq<Seq<char>> {
    seq![
        "send_terminal_content"@,
        "send_shell_history"@,
        "send_git_status"@,
        "send_working_dir"@,
        "send_env_var_names"@,
        "send_shell_type"@,
        "send_terminal_size"@,
        "send_current_process"@,
        "ai_provider"@,
        "custom_provider_cmd"@,
    ]
}

pub fn setting_keys() -> (r: Vec<&'static str>)
    ensures
        r.deep_view() == setting_keys_spec(),
{
    let mut r: Vec<&'static str> = Vec::new();
    r.push("send_terminal_content");
    r.push("send_shell_history");
    r.push("send_git_status");
    r.push("send_working_dir");
    r.push("send_env_var_names");
    r.push("send_shell_type");
    r.push("send_terminal_size");
    r.push("send_current_process");
    r.push("ai_provider");
    r.push("custom_provider_cmd");
    proof {
        assert(r.deep_view() =~= setting_keys_spec());
    }
    r
}

/// The togglable privacy flags, each with its menu label.
pub open spec fn privacy_keys_spec() -> Seq<Seq<char>> {
    setting_keys_spec().take(8)
}

pub open spec fn privacy_labels_spec() -> Seq<Seq<char>> {
    seq![
        "Terminal content"@,
        "Shell command history"@,
        "Git repository status"@,
        "Working directory path"@,
        "Environment variable names"@,
        "Shell type"@,
        "Terminal dimensions"@,
        "Current running process"@,
    ]
}

pub fn privacy_settings() -> (r: Vec<(&'static str, &'static str)>)
    ensures
        r.len() == 8,
        forall|i: int|
            0 <= i < 8 ==> (#[trigger] r@[i]).0@ == privacy_keys_spec()[i] && r@[i].1@
                == privacy_labels_spec()[i],
{
    let mut r: Vec<(&'static str, &'static str)> = Vec::new();
    r.push(("send_terminal_content", "Terminal content"));
    r.push(("send_shell_history", "Shell command history"));
    r.push(("send_git_status", "Git repository status"));
    r.push(("send_working_dir", "Working directory path"));
    r.push(("send_env_var_names", "Environment variable names"));
    r.push(("send_shell_type", "Shell type"));
    r.push(("send_terminal_size", "Terminal dimensions"));
    r.push(("send_current_process", "Current running process"));
    r
}

pub fn get_all_settings(content: &str) -> (r: Vec<(String, String)>)
    ensures
        r.len() == setting_keys_spec().len(),
        forall|i: int|
            0 <= i < r.len() ==> (#[trigger] r@[i]).0@ == setting_keys_spec()[i] && r@[i].1@
                == get_setting_spec(content@, setting_keys_spec()[i]),
{
    let keys = setting_keys();
    let mut r: Vec<(String, String)> = Vec::new();
    let mut i: usize = 0;
    while i < keys.len()
        invariant
            i <= keys.len(),
            keys.deep_view() == setting_keys_spec(),
            r.len() == i,
            forall|k: int|
                0 <= k < i ==> (#[trigger] r@[k]).0@ == setting_keys_spec()[k] && r@[k].1@
                    == get_setting_spec(content@, setting_keys_spec()[k]),
        decreases keys.len() - i,
    {
        let key = keys[i];
        let value = get_setting(content, key);
        proof {
            assert(keys.deep_view()[i as int] == keys[i as int]@);
        }
        let ghost old_r = r@;
        r.push((String::from_str(key), value));
        proof {
            assert forall|k: int|
                0 <= k < i + 1 implies (#[trigger] r@[k]).0@ == setting_keys_spec()[k] && r@[k].1@
                == get_setting_spec(content@, setting_keys_spec()[k]) by {
                if k < i {
                    assert(r@[k] == old_r[k]);
                    assert(old_r[k].0@ == setting_keys_spec()[k]);
                }
            }
        }
        i = i + 1;
    }
    r
}

/// The settings file name under the assistant's directory.
pub fn get_settings_file(dir: &str) -> (r: String)
    ensures
        r@ == dir@ + "/settings.conf"@,
{
    String::from_str(dir).concat("/settings.conf")
}

/// The provider choice after cycling it once from the settings menu.
pub open spec fn next_provider_spec(current: Seq<char>) -> Seq<char> {
    if current == "auto"@ {
        "quill"@
    } else if current == "quill"@ {
        "codex"@
    } else {
        "auto"@
    }
}

pub fn next_provider_setting(current: &str) -> (r: &'static str)
    ensures
        r@ == next_provider_spec(current@),
{
    if str_eq(current, "auto") {
        "quill"
    } else if str_eq(current, "quill") {
        "codex"
    } else {
        "auto"
    }
}

} // verus!
