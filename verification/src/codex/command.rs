//! Command-line builder for the second assistant CLI.
//!
//! This CLI takes free-form configuration as `key=value` pairs whose values
//! are quoted scalars, so strings embedded there (the system prompt above
//! all) go through a real escape rule: backslash, double quote and newline
//! are escaped before the value is wrapped in quotes. The escape function,
//! its inverse, and their round trip are stated and proved here.

use vstd::prelude::*;

verus! {

use vstd::string::StringExecFns;
use vstd::string::StrSliceExecFns;
use crate::text::push_arg;
use crate::text::push_arg_string;
use crate::text::push_char;

/// How one character is written inside a quoted configuration value.
pub open spec fn escape_char_seq(c: char) -> Seq<char> {
    if c == '\\' {
        seq!['\\', '\\']
    } else if c == '"' {
        seq!['\\', '"']
    } else if c == '\n' {
        seq!['\\', 'n']
    } else {
        seq![c]
    }
}

/// The escaped form of a string, character by character.
pub open spec fn spec_escape(s: Seq<char>) -> Seq<char>
    decreases s.len(),
{
    if s.len() == 0 {
        Seq::empty()
    } else {
        escape_char_seq(s[0]) + spec_escape(s.drop_first())
    }
}

/// The inverse unescape rule: a backslash introduces an escape for exactly
/// backslash, double quote or `n`; any other escape is rejected; every other
/// character stands for itself.
pub open spec fn spec_unescape(s: Seq<char>) -> Option<Seq<char>>
    decreases s.len(),
{
    if s.len() == 0 {
        Some(Seq::empty())
    } else if s[0] == '\\' {
        if s.len() == 1 {
            None
        } else {
            let decoded = if s[1] == '\\' {
                Some('\\')
            } else if s[1] == '"' {
                Some('"')
            } else if s[1] == 'n' {
                Some('\n')
            } else {
                None
            };
            match (decoded, spec_unescape(s.skip(2))) {
                (Some(c), Some(rest)) => Some(seq![c] + rest),
                _ => None,
            }
        }
    } else {
        match spec_unescape(s.drop_first()) {
            Some(rest) => Some(seq![s[0]] + rest),
            None => None,
        }
    }
}

/// Escaping one more character at the end appends that character's escape.
pub proof fn lemma_escape_push(s: Seq<char>, c: char)
    ensures
        spec_escape(s.push(c)) == spec_escape(s) + escape_char_seq(c),
    decreases s.len(),
{
    if s.len() == 0 {
        assert(s.push(c)[0] == c);
        assert(s.push(c).drop_first() =~= Seq::<char>::empty());
        assert(spec_escape(s.push(c)) == escape_char_seq(c) + spec_escape(
            Seq::<char>::empty(),
        ));
        assert(escape_char_seq(c) + Seq::<char>::empty() =~= Seq::<char>::empty()
            + escape_char_seq(c));
    } else {
        assert(s.push(c).drop_first() =~= s.drop_first().push(c));
        lemma_escape_push(s.drop_first(), c);
        assert(escape_char_seq(s[0]) + (spec_escape(s.drop_first()) + escape_char_seq(c))
            =~= (escape_char_seq(s[0]) + spec_escape(s.drop_first())) + escape_char_seq(c));
    }
}

/// Law: the escaped form of any string, reversed by the inverse unescape
/// rule, reproduces the original string exactly.
pub proof fn lemma_escape_round_trip(s: Seq<char>)
    ensures
        spec_unescape(spec_escape(s)) == Some(s),
    decreases s.len(),
{
    if s.len() == 0 {
        assert(spec_escape(s).len() == 0);
    } else {
        let c = s[0];
        let rest = s.drop_first();
        lemma_escape_round_trip(rest);
        let e = spec_escape(s);
        let ec = escape_char_seq(c);
        assert(e == ec + spec_escape(rest));
        if c == '\\' || c == '"' || c == '\n' {
            assert(ec.len() == 2 && ec[0] == '\\');
            assert(e[0] == '\\');
            assert(e.len() >= 2);
            assert(e[1] == ec[1]);
            assert(e.skip(2) =~= spec_escape(rest));
            assert(spec_unescape(e) == Some(seq![c] + rest));
            assert(seq![c] + rest =~= s);
        } else {
            assert(ec.len() == 1 && ec[0] == c);
            assert(e[0] == c);
            assert(e.drop_first() =~= spec_escape(rest));
            assert(spec_unescape(e) == Some(seq![c] + rest));
            assert(seq![c] + rest =~= s);
        }
    }
}

/// Escape a string for embedding in a quoted configuration value.
pub fn escape_config_str(s: &str) -> (r: String)
    ensures
        r@ == spec_escape(s@),
{
    let n: usize = s.unicode_len();
    let mut out = String::new();
    let mut i: usize = 0;
    while i < n
        invariant
            n == s@.len(),
            i <= n,
            out@ == spec_escape(s@.take(i as int)),
        decreases n - i,
    {
        let c = s.get_char(i);
        if c == '\\' {
            push_char(&mut out, '\\');
            push_char(&mut out, '\\');
        } else if c == '"' {
            push_char(&mut out, '\\');
            push_char(&mut out, '"');
        } else if c == '\n' {
            push_char(&mut out, '\\');
            push_char(&mut out, 'n');
        } else {
            push_char(&mut out, c);
        }
        proof {
            lemma_escape_push(s@.take(i as int), s@[i as int]);
            assert(s@.take(i + 1) == s@.take(i as int).push(s@[i as int]));
            assert(out@ =~= spec_escape(s@.take(i + 1)));
        }
        i = i + 1;
    }
    proof {
        assert(s@.take(n as int) == s@);
    }
    out
}

/// Reverse `escape_config_str`; rejects a trailing backslash or an unknown escape.
pub fn unescape_config_str(s: &str) -> (r: Option<String>)
    ensures
        match r {
            Some(t) => spec_unescape(s@) == Some(t@),
            None => spec_unescape(s@) is None,
        },
{
    let n: usize = s.unicode_len();
    let mut out = String::new();
    let mut i: usize = 0;
    proof {
        assert(s@.skip(0) =~= s@);
        if spec_unescape(s@) is Some {
            assert(Seq::<char>::empty() + spec_unescape(s@)->Some_0 =~= spec_unescape(
                s@,
            )->Some_0);
        }
    }
    while i < n
        invariant
            n == s@.len(),
            i <= n,
            match spec_unescape(s@.skip(i as int)) {
                Some(t) => spec_unescape(s@) == Some(out@ + t),
                None => spec_unescape(s@) is None,
            },
        decreases n - i,
    {
        let ghost tail = s@.skip(i as int);
        proof {
            assert(tail.len() == n - i);
            assert(tail[0] == s@[i as int]);
        }
        let c = s.get_char(i);
        if c == '\\' {
            if i + 1 >= n {
                proof {
                    assert(tail.len() == 1);
                    assert(spec_unescape(tail) is None);
                }
                return None;
            }
            let c2 = s.get_char(i + 1);
            proof {
                assert(tail[1] == s@[i + 1]);
                assert(tail.skip(2) =~= s@.skip(i + 2));
            }
            if c2 == '\\' {
                push_char(&mut out, '\\');
            } else if c2 == '"' {
                push_char(&mut out, '"');
            } else if c2 == 'n' {
                push_char(&mut out, '\n');
            } else {
                proof {
                    assert(spec_unescape(tail) is None);
                }
                return None;
            }
            proof {
                let ghost d: char = if c2 == '\\' {
                    '\\'
                } else if c2 == '"' {
                    '"'
                } else {
                    '\n'
                };
                assert(match spec_unescape(s@.skip(i + 2)) {
                    Some(t2) => spec_unescape(tail) == Some(seq![d] + t2),
                    None => spec_unescape(tail) is None,
                });
                if spec_unescape(s@.skip(i + 2)) is Some {
                    let t2 = spec_unescape(s@.skip(i + 2))->Some_0;
                    assert(out@ + t2 =~= (out@.drop_last() + (seq![d] + t2)));
                }
            }
            i = i + 2;
        } else {
            push_char(&mut out, c);
            proof {
                assert(tail.drop_first() =~= s@.skip(i + 1));
                assert(match spec_unescape(s@.skip(i + 1)) {
                    Some(t2) => spec_unescape(tail) == Some(seq![c] + t2),
                    None => spec_unescape(tail) is None,
                });
                if spec_unescape(s@.skip(i + 1)) is Some {
                    let t2 = spec_unescape(s@.skip(i + 1))->Some_0;
                    assert(out@ + t2 =~= (out@.drop_last() + (seq![c] + t2)));
                }
            }
            i = i + 1;
        }
    }
    proof {
        assert(s@.skip(n as int) =~= Seq::<char>::empty());
        assert(spec_unescape(s@.skip(n as int)) == Some(Seq::<char>::empty()));
        assert(out@ + Seq::<char>::empty() =~= out@);
    }
    Some(out)
}

/// One configuration step of the builder: the ghost record of a `with_*`
/// call, carrying the views of its arguments.
pub enum CodexBuildStep {
    SessionResume(Option<Seq<char>>),
    JsonOutput,
    FullAuto,
    SkipGitRepoCheck,
    Config(Seq<char>, Seq<char>),
    SystemPrompt(Seq<char>),
    WorkingDirectory(Option<Seq<char>>),
    Images(Seq<Seq<char>>),
    Prompt(Seq<char>),
}

/// The tokens one configuration step appends.
pub open spec fn step_tokens(s: CodexBuildStep) -> Seq<Seq<char>> {
    match s {
        CodexBuildStep::SessionResume(o) => match o {
            Some(sid) => seq!["resume"@, sid],
            None => Seq::empty(),
        },
        CodexBuildStep::JsonOutput => seq!["--json"@],
        CodexBuildStep::FullAuto => seq!["--full-auto"@],
        CodexBuildStep::SkipGitRepoCheck => seq!["--skip-git-repo-check"@],
        CodexBuildStep::Config(k, v) => seq!["--config"@, k + "="@ + v],
        CodexBuildStep::SystemPrompt(p) => seq![
            "--config"@,
            "developer_instructions=\""@ + spec_escape(p) + "\""@,
        ],
        CodexBuildStep::WorkingDirectory(o) => match o {
            Some(d) => seq!["--cd"@, d],
            None => Seq::empty(),
        },
        CodexBuildStep::Images(imgs) => crate::claude_command::image_args(imgs),
        CodexBuildStep::Prompt(p) => seq![p],
    }
}

/// The tokens of a whole step sequence, in call order.
pub open spec fn steps_tokens(ss: Seq<CodexBuildStep>) -> Seq<Seq<char>>
    decreases ss.len(),
{
    if ss.len() == 0 {
        Seq::empty()
    } else {
        steps_tokens(ss.drop_last()) + step_tokens(ss.last())
    }
}

/// Ordered, append-only accumulator of CLI argument tokens; every invocation
/// starts with the `exec` subcommand. The builder also carries the ghost
/// history of its configuration steps, against which the general token-
/// placement law below is stated.
pub struct CodexCommandBuilder {
    args: Vec<String>,
    steps: Ghost<Seq<CodexBuildStep>>,
}

impl CodexCommandBuilder {
    /// The tokens accumulated so far, in order.
    pub closed spec fn args_seq(&self) -> Seq<Seq<char>> {
        self.args.deep_view()
    }

    /// The configuration steps taken so far, in call order.
    pub closed spec fn steps_seq(&self) -> Seq<CodexBuildStep> {
        self.steps@
    }

    /// The tokens are exactly the `exec` subcommand followed by each step's
    /// tokens, in call order; established by `new` and kept by every step.
    pub open spec fn wf(&self) -> bool {
        self.args_seq() == seq!["exec"@] + steps_tokens(self.steps_seq())
    }

    pub fn new() -> (r: Self)
        ensures
            r.args_seq() == seq!["exec"@],
            r.steps_seq() == Seq::<CodexBuildStep>::empty(),
            r.wf(),
    {
        let mut args: Vec<String> = Vec::new();
        push_arg(&mut args, "exec");
        let r = Self { args, steps: Ghost(Seq::empty()) };
        proof {
            assert(r.args_seq() =~= seq!["exec"@]);
            assert(r.args_seq() =~= seq!["exec"@] + steps_tokens(r.steps_seq()));
        }
        r
    }

    /// Resume a prior thread when an identifier is present; otherwise append nothing.
    pub fn with_session_resume(self, session_id: Option<&String>) -> (r: Self)
        ensures
            r.args_seq() == match session_id {
                Some(sid) => self.args_seq() + seq!["resume"@, sid@],
                None => self.args_seq(),
            },
            r.steps_seq() == self.steps_seq().push(
                CodexBuildStep::SessionResume(
                    match session_id {
                        Some(sid) => Some(sid@),
                        None => None,
                    },
                ),
            ),
            self.wf() ==> r.wf(),
    {
        match session_id {
            Some(sid) => {
                let mut this = self;
                push_arg(&mut this.args, "resume");
                push_arg_string(&mut this.args, sid.clone());
                this.steps = Ghost(
                    self.steps@.push(CodexBuildStep::SessionResume(Some(sid@))),
                );
                proof {
                    assert(this.args_seq() =~= self.args_seq() + seq!["resume"@, sid@]);
                    assert(this.steps@.drop_last() =~= self.steps@);
                    if self.wf() {
                        assert(this.args_seq() =~= seq!["exec"@] + steps_tokens(this.steps@));
                    }
                }
                this
            },
            None => {
                let mut this = self;
                this.steps = Ghost(self.steps@.push(CodexBuildStep::SessionResume(None)));
                proof {
                    assert(this.steps@.drop_last() =~= self.steps@);
                    if self.wf() {
                        assert(steps_tokens(this.steps@) =~= steps_tokens(self.steps@));
                        assert(this.args_seq() =~= seq!["exec"@] + steps_tokens(this.steps@));
                    }
                }
                this
            },
        }
    }

    /// Ask for machine-readable JSON output.
    pub fn with_json_output(self) -> (r: Self)
        ensures
            r.args_seq() == self.args_seq() + seq!["--json"@],
            r.steps_seq() == self.steps_seq().push(CodexBuildStep::JsonOutput),
            self.wf() ==> r.wf(),
    {
        let mut this = self;
        push_arg(&mut this.args, "--json");
        this.steps = Ghost(self.steps@.push(CodexBuildStep::JsonOutput));
        proof {
            assert(this.args_seq() =~= self.args_seq() + seq!["--json"@]);
            assert(this.steps@.drop_last() =~= self.steps@);
            if self.wf() {
                assert(this.args_seq() =~= seq!["exec"@] + steps_tokens(this.steps@));
            }
        }
        this
    }

    /// Run without sandbox confirmation prompts.
    pub fn with_full_auto(self) -> (r: Self)
        ensures
            r.args_seq() == self.args_seq() + seq!["--full-auto"@],
            r.steps_seq() == self.steps_seq().push(CodexBuildStep::FullAuto),
            self.wf() ==> r.wf(),
    {
        let mut this = self;
        push_arg(&mut this.args, "--full-auto");
        this.steps = Ghost(self.steps@.push(CodexBuildStep::FullAuto));
        proof {
            assert(this.args_seq() =~= self.args_seq() + seq!["--full-auto"@]);
            assert(this.steps@.drop_last() =~= self.steps@);
            if self.wf() {
                assert(this.args_seq() =~= seq!["exec"@] + steps_tokens(this.steps@));
            }
        }
        this
    }

    /// Allow running outside a version-controlled directory.
    pub fn with_skip_git_repo_check(self) -> (r: Self)
        ensures
            r.args_seq() == self.args_seq() + seq!["--skip-git-repo-check"@],
            r.steps_seq() == self.steps_seq().push(CodexBuildStep::SkipGitRepoCheck),
            self.wf() ==> r.wf(),
    {
        let mut this = self;
        push_arg(&mut this.args, "--skip-git-repo-check");
        this.steps = Ghost(self.steps@.push(CodexBuildStep::SkipGitRepoCheck));
        proof {
            assert(this.args_seq() =~= self.args_seq() + seq!["--skip-git-repo-check"@]);
            assert(this.steps@.drop_last() =~= self.steps@);
            if self.wf() {
                assert(this.args_seq() =~= seq!["exec"@] + steps_tokens(this.steps@));
            }
        }
        this
    }

    /// Pass one free-form `key=value` configuration pair.
    pub fn with_config(self, key: &str, value: &str) -> (r: Self)
        ensures
            r.args_seq() == self.args_seq() + seq!["--config"@, key@ + "="@ + value@],
            r.steps_seq() == self.steps_seq().push(CodexBuildStep::Config(key@, value@)),
            self.wf() ==> r.wf(),
    {
        let mut this = self;
        push_arg(&mut this.args, "--config");
        let kv = String::from_str(key).concat("=").concat(value);
        push_arg_string(&mut this.args, kv);
        this.steps = Ghost(self.steps@.push(CodexBuildStep::Config(key@, value@)));
        proof {
            assert(this.args_seq() =~= self.args_seq() + seq!["--config"@, key@ + "="@ + value@]);
            assert(this.steps@.drop_last() =~= self.steps@);
            if self.wf() {
                assert(this.args_seq() =~= seq!["exec"@] + steps_tokens(this.steps@));
            }
        }
        this
    }

    /// Select the default model and reasoning effort.
    pub fn with_default_model_config(self) -> (r: Self)
        ensures
            r.args_seq() == self.args_seq() + seq![
                "--config"@,
                "model=\"gpt-5.2\""@,
                "--config"@,
                "model_reasoning_effort=\"high\""@,
            ],
            r.steps_seq() == self.steps_seq().push(
                CodexBuildStep::Config("model"@, "\"gpt-5.2\""@),
            ).push(CodexBuildStep::Config("model_reasoning_effort"@, "\"high\""@)),
            self.wf() ==> r.wf(),
    {
        let r = self.with_config("model", "\"gpt-5.2\"").with_config(
            "model_reasoning_effort",
            "\"high\"",
        );
        proof {
            reveal_strlit("model");
            reveal_strlit("=");
            reveal_strlit("\"gpt-5.2\"");
            reveal_strlit("model=\"gpt-5.2\"");
            reveal_strlit("model_reasoning_effort");
            reveal_strlit("\"high\"");
            reveal_strlit("model_reasoning_effort=\"high\"");
            assert("model"@ + "="@ + "\"gpt-5.2\""@ =~= "model=\"gpt-5.2\""@);
            assert("model_reasoning_effort"@ + "="@ + "\"high\""@
                =~= "model_reasoning_effort=\"high\""@);
            assert(r.args_seq() =~= self.args_seq() + seq![
                "--config"@,
                "model=\"gpt-5.2\""@,
                "--config"@,
                "model_reasoning_effort=\"high\""@,
            ]);
        }
        r
    }

    /// Pass the system prompt as a quoted, escaped configuration value.
    pub fn with_system_prompt(self, prompt: &str) -> (r: Self)
        ensures
            r.args_seq() == self.args_seq() + seq![
                "--config"@,
                "developer_instructions=\""@ + spec_escape(prompt@) + "\""@,
            ],
            r.steps_seq() == self.steps_seq().push(CodexBuildStep::SystemPrompt(prompt@)),
            self.wf() ==> r.wf(),
    {
        let mut this = self;
        push_arg(&mut this.args, "--config");
        let escaped = escape_config_str(prompt);
        let kv = String::from_str("developer_instructions=\"").concat(escaped.as_str()).concat(
            "\"",
        );
        push_arg_string(&mut this.args, kv);
        this.steps = Ghost(self.steps@.push(CodexBuildStep::SystemPrompt(prompt@)));
        proof {
            assert(this.args_seq() =~= self.args_seq() + seq![
                "--config"@,
                "developer_instructions=\""@ + spec_escape(prompt@) + "\""@,
            ]);
            assert(this.steps@.drop_last() =~= self.steps@);
            if self.wf() {
                assert(this.args_seq() =~= seq!["exec"@] + steps_tokens(this.steps@));
            }
        }
        this
    }

    /// Set the working directory when one is given; otherwise change nothing.
    pub fn with_working_directory(self, cwd: Option<&String>) -> (r: Self)
        ensures
            r.args_seq() == match cwd {
                Some(dir) => self.args_seq() + seq!["--cd"@, dir@],
                None => self.args_seq(),
            },
            r.steps_seq() == self.steps_seq().push(
                CodexBuildStep::WorkingDirectory(
                    match cwd {
                        Some(dir) => Some(dir@),
                        None => None,
                    },
                ),
            ),
            self.wf() ==> r.wf(),
    {
        match cwd {
            Some(dir) => {
                let mut this = self;
                push_arg(&mut this.args, "--cd");
                push_arg_string(&mut this.args, dir.clone());
                this.steps = Ghost(
                    self.steps@.push(CodexBuildStep::WorkingDirectory(Some(dir@))),
                );
                proof {
                    assert(this.args_seq() =~= self.args_seq() + seq!["--cd"@, dir@]);
                    assert(this.steps@.drop_last() =~= self.steps@);
                    if self.wf() {
                        assert(this.args_seq() =~= seq!["exec"@] + steps_tokens(this.steps@));
                    }
                }
                this
            },
            None => {
                let mut this = self;
                this.steps = Ghost(self.steps@.push(CodexBuildStep::WorkingDirectory(None)));
                proof {
                    assert(this.steps@.drop_last() =~= self.steps@);
                    if self.wf() {
                        assert(steps_tokens(this.steps@) =~= steps_tokens(self.steps@));
                        assert(this.args_seq() =~= seq!["exec"@] + steps_tokens(this.steps@));
                    }
                }
                this
            },
        }
    }

    /// Attach each image path as an `--image` pair, in order.
    pub fn with_images(self, image_paths: &Vec<String>) -> (r: Self)
        ensures
            r.args_seq() == self.args_seq() + crate::claude_command::image_args(
                image_paths.deep_view(),
            ),
            r.steps_seq() == self.steps_seq().push(
                CodexBuildStep::Images(image_paths.deep_view()),
            ),
            self.wf() ==> r.wf(),
    {
        let mut this = self;
        let n: usize = image_paths.len();
        let mut i: usize = 0;
        while i < n
            invariant
                n == image_paths@.len(),
                i <= n,
                this.args_seq() == self.args_seq() + crate::claude_command::image_args(
                    image_paths.deep_view().take(i as int),
                ),
            decreases n - i,
        {
            push_arg(&mut this.args, "--image");
            let im: &String = &image_paths[i];
            push_arg_string(&mut this.args, im.clone());
            proof {
                let iv = image_paths.deep_view();
                assert(iv.take(i + 1).drop_last() =~= iv.take(i as int));
                assert(iv.take(i + 1).last() == iv[i as int]);
                assert(this.args_seq() =~= self.args_seq() + crate::claude_command::image_args(
                    iv.take(i + 1),
                ));
            }
            i = i + 1;
        }
        this.steps = Ghost(self.steps@.push(CodexBuildStep::Images(image_paths.deep_view())));
        proof {
            assert(image_paths.deep_view().take(n as int) == image_paths.deep_view());
            assert(this.steps@.drop_last() =~= self.steps@);
            if self.wf() {
                assert(this.args_seq() =~= seq!["exec"@] + steps_tokens(this.steps@));
            }
        }
        this
    }

    /// Pass the prompt text as a trailing argument.
    pub fn with_prompt(self, prompt: String) -> (r: Self)
        ensures
            r.args_seq() == self.args_seq() + seq![prompt@],
            r.steps_seq() == self.steps_seq().push(CodexBuildStep::Prompt(prompt@)),
            self.wf() ==> r.wf(),
    {
        let mut this = self;
        let ghost p = prompt@;
        push_arg_string(&mut this.args, prompt);
        this.steps = Ghost(self.steps@.push(CodexBuildStep::Prompt(p)));
        proof {
            assert(this.args_seq() =~= self.args_seq() + seq![p]);
            assert(this.steps@.drop_last() =~= self.steps@);
            if self.wf() {
                assert(this.args_seq() =~= seq!["exec"@] + steps_tokens(this.steps@));
            }
        }
        this
    }

    /// Hand out the accumulated argument vector.
    pub fn build(self) -> (r: Vec<String>)
        ensures
            r.deep_view() == self.args_seq(),
            self.wf() ==> r.deep_view() == seq!["exec"@] + steps_tokens(self.steps_seq()),
    {
        self.args
    }
}

impl Default for CodexCommandBuilder {
    fn default() -> (r: Self)
        ensures
            r.args_seq() == seq!["exec"@],
            r.steps_seq() == Seq::<CodexBuildStep>::empty(),
            r.wf(),
    {
        Self::new()
    }
}

/// Where the tokens of step `i` begin in a vector built from `new()` and
/// the steps `ss`: one for the `exec` subcommand, plus the tokens of all
/// earlier steps.
pub open spec fn step_offset(ss: Seq<CodexBuildStep>, i: int) -> int
    decreases i,
{
    if i <= 0 {
        1
    } else {
        step_offset(ss, i - 1) + step_tokens(ss[i - 1]).len()
    }
}

/// The offset of a step depends on the steps before it alone.
proof fn lemma_step_offset_prefix(ss: Seq<CodexBuildStep>, i: int)
    requires
        0 <= i < ss.len(),
    ensures
        step_offset(ss, i) == step_offset(ss.drop_last(), i),
    decreases i,
{
    if i > 0 {
        lemma_step_offset_prefix(ss, i - 1);
        assert(ss.drop_last()[i - 1] == ss[i - 1]);
    }
}

/// Offsets never decrease along the step sequence.
proof fn lemma_step_offset_mono(ss: Seq<CodexBuildStep>, i: int, j: int)
    requires
        0 <= i <= j,
    ensures
        step_offset(ss, i) <= step_offset(ss, j),
    decreases j - i,
{
    if i < j {
        lemma_step_offset_mono(ss, i, j - 1);
    }
}

/// The length of a built vector is the offset past the last step.
proof fn lemma_step_offset_total(ss: Seq<CodexBuildStep>)
    ensures
        step_offset(ss, ss.len() as int) == 1 + steps_tokens(ss).len(),
    decreases ss.len(),
{
    if ss.len() > 0 {
        lemma_step_offset_total(ss.drop_last());
        let n = ss.len() as int;
        if n >= 2 {
            lemma_step_offset_prefix(ss, n - 1);
        } else {
            assert(step_offset(ss, 0) == 1);
            assert(step_offset(ss.drop_last(), 0) == 1);
        }
        assert(step_offset(ss, n) == step_offset(ss, n - 1) + step_tokens(ss[n - 1]).len());
        assert(step_offset(ss, n - 1) == step_offset(ss.drop_last(), n - 1));
        assert(ss.last() == ss[n - 1]);
        assert(steps_tokens(ss) == steps_tokens(ss.drop_last()) + step_tokens(ss.last()));
    }
}

/// Law: an argument vector built from `new()` by any sequence of
/// configuration steps starts with the `exec` subcommand and holds each
/// step's tokens contiguously at that step's offset, in call order. So
/// every requested token is present at least once; the tokens one step
/// appends together (a resume keyword and its identifier, a config flag
/// and its pair, an image flag and its path) stand adjacent in the step's
/// own order; and the text of a trailing prompt step is the final token.
/// `build` ties any concretely built vector to this shape through `wf`.
pub proof fn lemma_codex_builder_tokens(ss: Seq<CodexBuildStep>)
    ensures
        (seq!["exec"@] + steps_tokens(ss))[0] == "exec"@,
        (seq!["exec"@] + steps_tokens(ss)).len() == step_offset(ss, ss.len() as int),
        forall|i: int, k: int|
            0 <= i < ss.len() && 0 <= k < step_tokens(ss[i]).len() ==> (seq!["exec"@]
                + steps_tokens(ss))[step_offset(ss, i) + k] == step_tokens(ss[i])[k],
        forall|p: Seq<char>|
            ss.len() > 0 && ss.last() == CodexBuildStep::Prompt(p) ==> (seq!["exec"@]
                + steps_tokens(ss)).last() == p,
    decreases ss.len(),
{
    lemma_step_offset_total(ss);
    if ss.len() > 0 {
        let pre = ss.drop_last();
        let last = ss.last();
        lemma_codex_builder_tokens(pre);
        lemma_step_offset_total(pre);
        let args = seq!["exec"@] + steps_tokens(ss);
        let args_pre = seq!["exec"@] + steps_tokens(pre);
        assert(steps_tokens(ss) == steps_tokens(pre) + step_tokens(last));
        assert(args =~= args_pre + step_tokens(last));
        assert forall|i: int, k: int|
            0 <= i < ss.len() && 0 <= k < step_tokens(ss[i]).len() implies args[step_offset(
            ss,
            i,
        ) + k] == step_tokens(ss[i])[k] by {
            lemma_step_offset_prefix(ss, i);
            if i < pre.len() {
                assert(pre[i] == ss[i]);
                assert(step_offset(pre, i) + step_tokens(pre[i]).len() == step_offset(
                    pre,
                    i + 1,
                ));
                lemma_step_offset_mono(pre, i + 1, pre.len() as int);
                assert(step_offset(pre, i) + k < args_pre.len());
                lemma_step_offset_mono(pre, 0, i);
                assert(args[step_offset(ss, i) + k] == args_pre[step_offset(pre, i) + k]);
            } else {
                assert(i == pre.len());
                assert(step_offset(pre, i) == args_pre.len());
                assert(args[step_offset(ss, i) + k] == step_tokens(last)[k]);
            }
        }
        assert forall|p: Seq<char>|
            ss.len() > 0 && ss.last() == CodexBuildStep::Prompt(p) implies args.last() == p by {
            assert(step_tokens(last) == seq![p]);
            assert(args.last() == args[args_pre.len() as int]);
            lemma_step_offset_prefix(ss, pre.len() as int);
            assert(step_offset(ss, pre.len() as int) == args_pre.len());
            assert(args[step_offset(ss, pre.len() as int) + 0] == step_tokens(ss[pre.len() as int])[0]);
        }
    }
}

} // verus!
