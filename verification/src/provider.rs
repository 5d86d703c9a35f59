//! Provider resolution and the dispatch protocols: which external tool a
//! settings value selects, how each tool is invoked, and how each
//! invocation's raw outcome becomes one normalized `(text, error)` result.
//!
//! Spawning the subprocess and capturing its streams is the surrounding
//! program's job; it hands the observed outcome back as plain values, and
//! the functions here decide everything else.
use vstd::prelude::*;
use vstd::string::*;

use crate::settings::{get_setting, get_setting_spec};
use crate::text::{
    split_lines, lines_of, split_whitespace, split_ws, str_eq, trim, trim_spec, u64_to_string,
    dec_rep,
};

verus! {

/// The closed set of ways a query can be answered.
#[derive(Debug, Clone, PartialEq)]
pub enum Provider {
    Quill,
    Codex,
    Custom(String),
    Mock,
}

/// The short name each provider shows in the interface.
pub open spec fn provider_display_spec(p: Provider) -> Seq<char> {
    match p {
        Provider::Quill => "Quill"@,
        Provider::Codex => "Codex"@,
        Provider::Custom(_) => "Custom"@,
        Provider::Mock => "Mock (test)"@,
    }
}

impl Provider {
    pub fn display_name(&self) -> (r: &'static str)
        ensures
            r@ == provider_display_spec(*self),
    {
        match self {
            Provider::Quill => "Quill",
            Provider::Codex => "Codex",
            Provider::Custom(_) => "Custom",
            Provider::Mock => "Mock (test)",
        }
    }
}

/// Two resolved providers are the same choice: the same variant, with the
/// same command line for a custom provider.
pub open spec fn same_provider(p1: Provider, p2: Provider) -> bool {
    match (p1, p2) {
        (Provider::Quill, Provider::Quill) => true,
        (Provider::Codex, Provider::Codex) => true,
        (Provider::Mock, Provider::Mock) => true,
        (Provider::Custom(c1), Provider::Custom(c2)) => c1@ == c2@,
        _ => false,
    }
}

/// The provider-resolution relation: what resolving the settings value
/// `setting` (with custom command `custom` and the named tools present as
/// given) must return. An explicit name fails if its tool is absent; any
/// other value auto-detects, preferring the first tool of the fixed order.
pub open spec fn resolves_to(
    setting: Seq<char>,
    custom: Seq<char>,
    has_quill: bool,
    has_codex: bool,
    r: Result<Provider, String>,
) -> bool {
    if setting == "quill"@ {
        if has_quill {
            r == Ok::<Provider, String>(Provider::Quill)
        } else {
            r matches Err(m) && m@ == "quill not found in PATH"@
        }
    } else if setting == "codex"@ {
        if has_codex {
            r == Ok::<Provider, String>(Provider::Codex)
        } else {
            r matches Err(m) && m@ == "codex not found in PATH"@
        }
    } else if setting == "custom"@ {
        if custom.len() == 0 {
            r matches Err(m) && m@ == "custom_provider_cmd not set"@
        } else {
            r matches Ok(p) && p matches Provider::Custom(c) && c@ == custom
        }
    } else if setting == "mock"@ {
        r == Ok::<Provider, String>(Provider::Mock)
    } else {
        if has_quill {
            r == Ok::<Provider, String>(Provider::Quill)
        } else if has_codex {
            r == Ok::<Provider, String>(Provider::Codex)
        } else {
            r matches Err(m) && m@ == "No AI CLI found (install quill or codex)"@
        }
    }
}

/// Resolves the provider from the settings text. `has_quill` and
/// `has_codex` say which named tools the search path holds; checking the
/// path is the surrounding program's job.
pub fn get_current_provider(settings: &str, has_quill: bool, has_codex: bool) -> (r: Result<
    Provider,
    String,
>)
    ensures
        resolves_to(
            get_setting_spec(settings@, "ai_provider"@),
            get_setting_spec(settings@, "custom_provider_cmd"@),
            has_quill,
            has_codex,
            r,
        ),
{
    let setting = get_setting(settings, "ai_provider");
    if str_eq(setting.as_str(), "quill") {
        if has_quill {
            Ok(Provider::Quill)
        } else {
            Err(String::from_str("quill not found in PATH"))
        }
    } else if str_eq(setting.as_str(), "codex") {
        if has_codex {
            Ok(Provider::Codex)
        } else {
            Err(String::from_str("codex not found in PATH"))
        }
    } else if str_eq(setting.as_str(), "custom") {
        let custom = get_setting(settings, "custom_provider_cmd");
        if custom.as_str().unicode_len() == 0 {
            Err(String::from_str("custom_provider_cmd not set"))
        } else {
            Ok(Provider::Custom(custom))
        }
    } else if str_eq(setting.as_str(), "mock") {
        Ok(Provider::Mock)
    } else {
        if has_quill {
            Ok(Provider::Quill)
        } else if has_codex {
            Ok(Provider::Codex)
        } else {
            Err(String::from_str("No AI CLI found (install quill or codex)"))
        }
    }
}

/// Resolution is a function of the settings value and the installed tools
/// alone: two resolutions under the same inputs yield the same provider
/// choice, or the same error.
pub proof fn lemma_resolution_deterministic(
    setting: Seq<char>,
    custom: Seq<char>,
    has_quill: bool,
    has_codex: bool,
    r1: Result<Provider, String>,
    r2: Result<Provider, String>,
)
    requires
        resolves_to(setting, custom, has_quill, has_codex, r1),
        resolves_to(setting, custom, has_quill, has_codex, r2),
    ensures
        r1 is Ok <==> r2 is Ok,
        r1 matches Ok(p1) ==> (r2 matches Ok(p2) && same_provider(p1, p2)),
        r1 matches Err(m1) ==> (r2 matches Err(m2) && m1@ == m2@),
{
}

/// The display name of the resolved provider: `None` when resolution
/// fails, and an `(auto)` suffix when the settings value is literally
/// `auto`.
pub open spec fn provider_name_spec(
    setting: Seq<char>,
    custom: Seq<char>,
    has_quill: bool,
    has_codex: bool,
) -> Seq<char> {
    if setting == "quill"@ {
        if has_quill {
            "Quill"@
        } else {
            "None"@
        }
    } else if setting == "codex"@ {
        if has_codex {
            "Codex"@
        } else {
            "None"@
        }
    } else if setting == "custom"@ {
        if custom.len() == 0 {
            "None"@
        } else {
            "Custom"@
        }
    } else if setting == "mock"@ {
        "Mock (test)"@
    } else {
        let base = if has_quill {
            "Quill"@
        } else if has_codex {
            "Codex"@
        } else {
            "None"@
        };
        if has_quill || has_codex {
            if setting == "auto"@ {
                base + " (auto)"@
            } else {
                base
            }
        } else {
            base
        }
    }
}

proof fn lemma_auto_is_no_tool_name()
    ensures
        "auto"@ != "quill"@,
        "auto"@ != "codex"@,
        "auto"@ != "custom"@,
        "auto"@ != "mock"@,
{
    reveal_strlit("auto");
    reveal_strlit("quill");
    reveal_strlit("codex");
    reveal_strlit("custom");
    reveal_strlit("mock");
    assert("auto"@.len() == 4);
    assert("quill"@.len() == 5);
    assert("codex"@.len() == 5);
    assert("quill"@[0] == 'q');
    assert("codex"@[0] == 'c');
    assert("custom"@.len() == 6);
    assert("auto"@[0] == 'a');
    assert("mock"@[0] == 'm');
}

pub fn get_current_provider_name(settings: &str, has_quill: bool, has_codex: bool) -> (r: String)
    ensures
        r@ == provider_name_spec(
            get_setting_spec(settings@, "ai_provider"@),
            get_setting_spec(settings@, "custom_provider_cmd"@),
            has_quill,
            has_codex,
        ),
{
    proof {
        lemma_auto_is_no_tool_name();
    }
    let setting = get_setting(settings, "ai_provider");
    let ghost sv = get_setting_spec(settings@, "ai_provider"@);
    let ghost cv = get_setting_spec(settings@, "custom_provider_cmd"@);
    let ghost want = provider_name_spec(sv, cv, has_quill, has_codex);
    match get_current_provider(settings, has_quill, has_codex) {
        Ok(p) => {
            let base = p.display_name();
            if str_eq(setting.as_str(), "auto") {
                let out = String::from_str(base).concat(" (auto)");
                proof {
                    assert(out@ == want);
                }
                out
            } else {
                proof {
                    assert(base@ == want);
                }
                String::from_str(base)
            }
        },
        Err(_) => {
            proof {
                assert(want == "None"@);
            }
            String::from_str("None")
        },
    }
}

/// What the surrounding program observed of one subprocess run: whether it
/// exited successfully, its captured output and error streams, and the
/// sidecar output file's text where one was looked for and found.
pub struct SpawnOutcome {
    pub exit_ok: bool,
    pub stdout: String,
    pub stderr: String,
    pub output_file: Option<String>,
}

/// Pipe protocol: a failed exit is an error carrying the captured error
/// stream behind the given prefix; success returns the trimmed output
/// stream.
pub fn pipe_protocol_result(exit_ok: bool, out: &str, err: &str, err_prefix: &str) -> (r: Result<
    String,
    String,
>)
    ensures
        exit_ok ==> (r matches Ok(t) && t@ == trim_spec(out@)),
        !exit_ok ==> (r matches Err(m) && m@ == err_prefix@ + err@),
{
    if exit_ok {
        Ok(String::from_str(trim(out)))
    } else {
        Err(String::from_str(err_prefix).concat(err))
    }
}

/// Sidecar-file protocol: a missing output file is an error whatever the
/// exit status; a blank file with a failed exit is an error; otherwise the
/// trimmed file text, even when blank.
pub fn sidecar_protocol_result(exit_ok: bool, output_file: Option<&str>) -> (r: Result<
    String,
    String,
>)
    ensures
        output_file is None ==> (r matches Err(m) && m@ == "Codex did not produce output"@),
        output_file matches Some(c) ==> (if !exit_ok && trim_spec(c@).len() == 0 {
            r matches Err(m) && m@ == "Codex error"@
        } else {
            r matches Ok(t) && t@ == trim_spec(c@)
        }),
{
    match output_file {
        None => Err(String::from_str("Codex did not produce output")),
        Some(c) => {
            let t = trim(c);
            if !exit_ok && t.unicode_len() == 0 {
                Err(String::from_str("Codex error"))
            } else {
                Ok(String::from_str(t))
            }
        },
    }
}

/// The prompt's last line, or `empty` for a prompt with no lines.
pub open spec fn last_line_spec(prompt: Seq<char>) -> Seq<char> {
    let lines = split_lines(prompt);
    if lines.len() == 0 {
        "empty"@
    } else {
        lines.last()
    }
}

/// What the mock provider answers: a synthetic echo of the prompt's last
/// line.
pub open spec fn mock_response_spec(prompt: Seq<char>) -> Seq<char> {
    "echo 'Mock response for: "@ + last_line_spec(prompt) + "'"@
}

/// Mock protocol: no subprocess; deterministically echoes a command built
/// from the prompt's last line.
pub fn run_mock_query(prompt: &str) -> (r: Result<String, String>)
    ensures
        r matches Ok(t) && t@ == mock_response_spec(prompt@),
{
    let lines = lines_of(prompt);
    let mut r = String::from_str("echo 'Mock response for: ");
    if lines.len() == 0 {
        r.append("empty");
    } else {
        proof {
            assert(lines.deep_view()[lines.len() - 1] == lines[lines.len() - 1]@);
        }
        r.append(lines[lines.len() - 1].as_str());
    }
    r.append("'");
    Ok(r)
}

/// How a provider is invoked: a program with arguments whose answer comes
/// over the pipe or through a sidecar output file, or no subprocess at all
/// for the mock.
#[derive(Debug)]
pub enum DispatchPlan {
    Pipe { program: String, args: Vec<String> },
    Sidecar { program: String, args: Vec<String>, output_file: String },
    Mock,
}

/// The sidecar output file for this process: unique per process id so
/// concurrent sessions cannot collide.
pub open spec fn sidecar_file_spec(temp_dir: Seq<char>, pid: u32) -> Seq<char> {
    temp_dir + "/cmdk-codex-"@ + dec_rep(pid as int) + ".txt"@
}

/// The invocation each provider uses. The named tools have fixed shapes; a
/// custom command line is split on whitespace, and an empty one is a
/// configuration error reported before anything is spawned.
pub fn plan_dispatch(provider: &Provider, temp_dir: &str, pid: u32) -> (r: Result<
    DispatchPlan,
    String,
>)
    ensures
        provider is Quill ==> (r matches Ok(p) && p matches DispatchPlan::Pipe {
            program,
            args,
        } && program@ == "quill"@ && args.deep_view() =~= seq!["--print"@]),
        provider is Codex ==> (r matches Ok(p) && p matches DispatchPlan::Sidecar {
            program,
            args,
            output_file,
        } && program@ == "codex"@ && output_file@ == sidecar_file_spec(temp_dir@, pid)
            && args.deep_view() =~= seq![
            "exec"@,
            "--skip-git-repo-check"@,
            "--sandbox"@,
            "read-only"@,
            "-o"@,
            sidecar_file_spec(temp_dir@, pid),
            "-"@,
        ]),
        provider matches Provider::Custom(cmd) ==> (if split_ws(cmd@).len() == 0 {
            r matches Err(m) && m@ == "Empty custom command"@
        } else {
            r matches Ok(p) && p matches DispatchPlan::Pipe { program, args } && program@
                == split_ws(cmd@)[0] && args.deep_view() =~= split_ws(cmd@).skip(1)
        }),
        provider is Mock ==> r == Ok::<DispatchPlan, String>(DispatchPlan::Mock),
{
    match provider {
        Provider::Quill => {
            let mut args: Vec<String> = Vec::new();
            args.push(String::from_str("--print"));
            Ok(DispatchPlan::Pipe { program: String::from_str("quill"), args })
        },
        Provider::Codex => {
            let pid_text = u64_to_string(pid as u64);
            let output_file = String::from_str(temp_dir).concat("/cmdk-codex-").concat(
                pid_text.as_str(),
            ).concat(".txt");
            let mut args: Vec<String> = Vec::new();
            args.push(String::from_str("exec"));
            args.push(String::from_str("--skip-git-repo-check"));
            args.push(String::from_str("--sandbox"));
            args.push(String::from_str("read-only"));
            args.push(String::from_str("-o"));
            args.push(output_file.clone());
            args.push(String::from_str("-"));
            proof {
                assert(output_file@ =~= sidecar_file_spec(temp_dir@, pid));
            }
            Ok(DispatchPlan::Sidecar { program: String::from_str("codex"), args, output_file })
        },
        Provider::Custom(cmd) => {
            let parts = split_whitespace(cmd.as_str());
            if parts.len() == 0 {
                Err(String::from_str("Empty custom command"))
            } else {
                let program = parts[0].clone();
                let mut args: Vec<String> = Vec::new();
                let mut i: usize = 1;
                proof {
                    assert(parts.deep_view()[0] == parts[0]@);
                    assert(args.deep_view() =~= parts.deep_view().subrange(1, 1));
                }
                while i < parts.len()
                    invariant
                        1 <= i <= parts.len(),
                        parts.deep_view() == split_ws(cmd@),
                        args.deep_view() =~= parts.deep_view().subrange(1, i as int),
                    decreases parts.len() - i,
                {
                    let ghost old_args = args.deep_view();
                    args.push(parts[i].clone());
                    proof {
                        assert(parts.deep_view()[i as int] == parts[i as int]@);
                        assert(args.deep_view() =~= old_args.push(parts.deep_view()[i as int]));
                        assert(old_args.push(parts.deep_view()[i as int]) =~= parts.deep_view()
                            .subrange(1, i + 1));
                    }
                    i = i + 1;
                }
                proof {
                    assert(parts.deep_view().subrange(1, parts.len() as int) =~= parts.deep_view()
                        .skip(1));
                }
                Ok(DispatchPlan::Pipe { program, args })
            }
        },
        Provider::Mock => Ok(DispatchPlan::Mock),
    }
}

/// The single choke point above the protocols: the normalized result of
/// one dispatch, from the resolved provider, the prompt, and what the
/// subprocess run (if the protocol has one) showed. For the mock provider
/// the outcome is ignored, since nothing is spawned.
pub fn run_query(provider: &Provider, prompt: &str, outcome: &SpawnOutcome) -> (r: Result<
    String,
    String,
>)
    ensures
        provider is Quill ==> (if outcome.exit_ok {
            r matches Ok(t) && t@ == trim_spec(outcome.stdout@)
        } else {
            r matches Err(m) && m@ == "Quill error: "@ + outcome.stderr@
        }),
        provider is Codex ==> (match outcome.output_file {
            None => r matches Err(m) && m@ == "Codex did not produce output"@,
            Some(c) => if !outcome.exit_ok && trim_spec(c@).len() == 0 {
                r matches Err(m) && m@ == "Codex error"@
            } else {
                r matches Ok(t) && t@ == trim_spec(c@)
            },
        }),
        provider is Custom ==> (if outcome.exit_ok {
            r matches Ok(t) && t@ == trim_spec(outcome.stdout@)
        } else {
            r matches Err(m) && m@ == "Custom command error: "@ + outcome.stderr@
        }),
        provider is Mock ==> (r matches Ok(t) && t@ == mock_response_spec(prompt@)),
{
    match provider {
        Provider::Quill => pipe_protocol_result(
            outcome.exit_ok,
            outcome.stdout.as_str(),
            outcome.stderr.as_str(),
            "Quill error: ",
        ),
        Provider::Codex => {
            match &outcome.output_file {
                None => sidecar_protocol_result(outcome.exit_ok, None),
                Some(c) => sidecar_protocol_result(outcome.exit_ok, Some(c.as_str())),
            }
        },
        Provider::Custom(_) => pipe_protocol_result(
            outcome.exit_ok,
            outcome.stdout.as_str(),
            outcome.stderr.as_str(),
            "Custom command error: ",
        ),
        Provider::Mock => run_mock_query(prompt),
    }
}

/// The fixed system preamble every prompt opens with.
pub open spec fn system_preamble() -> Seq<char> {
    "You are a terminal command assistant. Output ONLY the exact command to run.\n\nCRITICAL RULES:\n- Output ONLY the command itself - no shell prompts, no $, no explanation\n- No markdown code blocks - just the raw command\n- Single command only (use && or ; for multiple)\n- If asked for explanation, explain - otherwise just the command\n\n"@
}

/// The composed prompt: preamble, context block, the prior conversation
/// where one exists and is non-empty, and the user's request.
pub open spec fn full_prompt_spec(
    user: Seq<char>,
    context: Seq<char>,
    history: Option<Seq<char>>,
) -> Seq<char> {
    system_preamble() + context + (match history {
        Some(h) => if h.len() > 0 {
            "\n## Previous Conversation:\n"@ + h
        } else {
            Seq::empty()
        },
        None => Seq::empty(),
    }) + "\n## User: "@ + user + "\n"@
}

pub fn build_full_prompt(user_query: &str, context: &str, history: Option<&str>) -> (r: String)
    ensures
        r@ == full_prompt_spec(
            user_query@,
            context@,
            match history {
                Some(h) => Some(h@),
                None => None,
            },
        ),
{
    let mut r = String::from_str(
        "You are a terminal command assistant. Output ONLY the exact command to run.\n\nCRITICAL RULES:\n- Output ONLY the command itself - no shell prompts, no $, no explanation\n- No markdown code blocks - just the raw command\n- Single command only (use && or ; for multiple)\n- If asked for explanation, explain - otherwise just the command\n\n",
    );
    r.append(context);
    match history {
        Some(h) => {
            if h.unicode_len() > 0 {
                r.append("\n## Previous Conversation:\n");
                r.append(h);
            }
        },
        None => {},
    }
    r.append("\n## User: ");
    r.append(user_query);
    r.append("\n");
    proof {
        assert(r@ =~= full_prompt_spec(
            user_query@,
            context@,
            match history {
                Some(h) => Some(h@),
                None => None,
            },
        ));
    }
    r
}

} // verus!
