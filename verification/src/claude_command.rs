//! Command-line builder for the first assistant CLI, print-mode variant.
//!
//! Builds the ordered argument vector for a one-shot streaming invocation:
//! the prompt is passed as a trailing argument and images as `--image` pairs.

use vstd::prelude::*;

verus! {

use crate::text::push_arg;
use crate::text::push_arg_string;

/// The `--image` token pairs for a list of image arguments, in order.
pub open spec fn image_args(images: Seq<Seq<char>>) -> Seq<Seq<char>>
    decreases images.len(),
{
    if images.len() == 0 {
        Seq::empty()
    } else {
        image_args(images.drop_last()) + seq!["--image"@, images.last()]
    }
}

/// One configuration step of the builder: the ghost record of a `with_*`
/// call, carrying the views of its arguments.
pub enum PrintBuildStep {
    StreamingOutput,
    McpConfig(Seq<char>),
    AllowedTools(Seq<Seq<char>>),
    SystemPrompt(Seq<char>),
    SessionResume(Option<Seq<char>>),
    Prompt(Seq<char>),
    Images(Seq<Seq<char>>),
}

/// The tokens one configuration step appends.
pub open spec fn step_tokens(s: PrintBuildStep) -> Seq<Seq<char>> {
    match s {
        PrintBuildStep::StreamingOutput => seq![
            "--print"@,
            "--output-format"@,
            "stream-json"@,
            "--verbose"@,
        ],
        PrintBuildStep::McpConfig(path) => seq!["--mcp-config"@, path],
        PrintBuildStep::AllowedTools(ts) => seq!["--allowedTools"@] + ts,
        PrintBuildStep::SystemPrompt(p) => seq!["--system-prompt"@, p],
        PrintBuildStep::SessionResume(o) => match o {
            Some(sid) => seq!["--resume"@, sid],
            None => Seq::empty(),
        },
        PrintBuildStep::Prompt(p) => seq![p],
        PrintBuildStep::Images(imgs) => image_args(imgs),
    }
}

/// The tokens of a whole step sequence, in call order.
pub open spec fn steps_tokens(ss: Seq<PrintBuildStep>) -> Seq<Seq<char>>
    decreases ss.len(),
{
    if ss.len() == 0 {
        Seq::empty()
    } else {
        steps_tokens(ss.drop_last()) + step_tokens(ss.last())
    }
}

/// Ordered, append-only accumulator of CLI argument tokens. The builder
/// also carries the ghost history of its configuration steps, against
/// which the general token-placement law below is stated.
pub struct ClaudeCommandBuilder {
    args: Vec<String>,
    steps: Ghost<Seq<PrintBuildStep>>,
}

impl ClaudeCommandBuilder {
    /// The tokens accumulated so far, in order.
    pub closed spec fn args_seq(&self) -> Seq<Seq<char>> {
        self.args.deep_view()
    }

    /// The configuration steps taken so far, in call order.
    pub closed spec fn steps_seq(&self) -> Seq<PrintBuildStep> {
        self.steps@
    }

    /// The tokens are exactly each step's tokens, in call order;
    /// established by `new` and kept by every step.
    pub open spec fn wf(&self) -> bool {
        self.args_seq() == steps_tokens(self.steps_seq())
    }

    pub fn new() -> (r: Self)
        ensures
            r.args_seq() == Seq::<Seq<char>>::empty(),
            r.steps_seq() == Seq::<PrintBuildStep>::empty(),
            r.wf(),
    {
        let r = Self { args: Vec::new(), steps: Ghost(Seq::empty()) };
        proof {
            assert(r.args_seq() =~= Seq::<Seq<char>>::empty());
        }
        r
    }

    /// Configure for one-shot streaming JSON output.
    pub fn with_streaming_output(self) -> (r: Self)
        ensures
            r.args_seq() == self.args_seq() + seq![
                "--print"@,
                "--output-format"@,
                "stream-json"@,
                "--verbose"@,
            ],
            r.steps_seq() == self.steps_seq().push(PrintBuildStep::StreamingOutput),
            self.wf() ==> r.wf(),
    {
        let mut this = self;
        push_arg(&mut this.args, "--print");
        push_arg(&mut this.args, "--output-format");
        push_arg(&mut this.args, "stream-json");
        push_arg(&mut this.args, "--verbose");
        this.steps = Ghost(self.steps@.push(PrintBuildStep::StreamingOutput));
        proof {
            assert(this.args_seq() =~= self.args_seq() + seq![
                "--print"@,
                "--output-format"@,
                "stream-json"@,
                "--verbose"@,
            ]);
            assert(this.steps@.drop_last() =~= self.steps@);
            if self.wf() {
                assert(this.args_seq() =~= steps_tokens(this.steps@));
            }
        }
        this
    }

    /// Point the CLI at a tool-server configuration file.
    pub fn with_mcp_config(self, config_path: &str) -> (r: Self)
        ensures
            r.args_seq() == self.args_seq() + seq!["--mcp-config"@, config_path@],
            r.steps_seq() == self.steps_seq().push(PrintBuildStep::McpConfig(config_path@)),
            self.wf() ==> r.wf(),
    {
        let mut this = self;
        push_arg(&mut this.args, "--mcp-config");
        push_arg(&mut this.args, config_path);
        this.steps = Ghost(self.steps@.push(PrintBuildStep::McpConfig(config_path@)));
        proof {
            assert(this.args_seq() =~= self.args_seq() + seq!["--mcp-config"@, config_path@]);
            assert(this.steps@.drop_last() =~= self.steps@);
            if self.wf() {
                assert(this.args_seq() =~= steps_tokens(this.steps@));
            }
        }
        this
    }

    /// Restrict the CLI to an explicit tool allow-list.
    pub fn with_allowed_tools(self, tools: &[&str]) -> (r: Self)
        ensures
            r.args_seq() == self.args_seq() + seq!["--allowedTools"@] + tools@.map_values(
                |t: &str| t@,
            ),
            r.steps_seq() == self.steps_seq().push(
                PrintBuildStep::AllowedTools(tools@.map_values(|t: &str| t@)),
            ),
            self.wf() ==> r.wf(),
    {
        let mut this = self;
        push_arg(&mut this.args, "--allowedTools");
        let ghost mid = this.args_seq();
        let n: usize = tools.len();
        let mut i: usize = 0;
        while i < n
            invariant
                n == tools@.len(),
                i <= n,
                this.args_seq() == mid + tools@.take(i as int).map_values(|t: &str| t@),
                this.steps@ == self.steps@,
            decreases n - i,
        {
            let t: &str = tools[i];
            push_arg(&mut this.args, t);
            proof {
                assert(tools@.take(i + 1).map_values(|t: &str| t@) =~= tools@.take(
                    i as int,
                ).map_values(|t: &str| t@).push(tools@[i as int]@));
                assert(this.args_seq() =~= mid + tools@.take(i + 1).map_values(|t: &str| t@));
            }
            i = i + 1;
        }
        this.steps = Ghost(
            self.steps@.push(PrintBuildStep::AllowedTools(tools@.map_values(|t: &str| t@))),
        );
        proof {
            assert(tools@.take(n as int) == tools@);
            assert(this.args_seq() =~= self.args_seq() + seq!["--allowedTools"@]
                + tools@.map_values(|t: &str| t@));
            assert(this.steps@.drop_last() =~= self.steps@);
            if self.wf() {
                assert(this.args_seq() =~= steps_tokens(this.steps@));
            }
        }
        this
    }

    /// Pass the system prompt.
    pub fn with_system_prompt(self, prompt: String) -> (r: Self)
        ensures
            r.args_seq() == self.args_seq() + seq!["--system-prompt"@, prompt@],
            r.steps_seq() == self.steps_seq().push(PrintBuildStep::SystemPrompt(prompt@)),
            self.wf() ==> r.wf(),
    {
        let mut this = self;
        push_arg(&mut this.args, "--system-prompt");
        let ghost p = prompt@;
        push_arg_string(&mut this.args, prompt);
        this.steps = Ghost(self.steps@.push(PrintBuildStep::SystemPrompt(p)));
        proof {
            assert(this.args_seq() =~= self.args_seq() + seq!["--system-prompt"@, p]);
            assert(this.steps@.drop_last() =~= self.steps@);
            if self.wf() {
                assert(this.args_seq() =~= steps_tokens(this.steps@));
            }
        }
        this
    }

    /// Resume a prior session when an identifier is present; otherwise
    /// append nothing.
    pub fn with_session_resume(self, session_id: Option<&String>) -> (r: Self)
        ensures
            r.args_seq() == match session_id {
                Some(sid) => self.args_seq() + seq!["--resume"@, sid@],
                None => self.args_seq(),
            },
            r.steps_seq() == self.steps_seq().push(
                PrintBuildStep::SessionResume(
                    match session_id {
                        Some(sid) => Some(sid@),
                        None => None,
                    },
                ),
            ),
            self.wf() ==> r.wf(),
    {
        match session_id {
            Some(sid) => {
                let mut this = self;
                push_arg(&mut this.args, "--resume");
                push_arg_string(&mut this.args, sid.clone());
                this.steps = Ghost(
                    self.steps@.push(PrintBuildStep::SessionResume(Some(sid@))),
                );
                proof {
                    assert(this.args_seq() =~= self.args_seq() + seq!["--resume"@, sid@]);
                    assert(this.steps@.drop_last() =~= self.steps@);
                    if self.wf() {
                        assert(this.args_seq() =~= steps_tokens(this.steps@));
                    }
                }
                this
            },
            None => {
                let mut this = self;
                this.steps = Ghost(self.steps@.push(PrintBuildStep::SessionResume(None)));
                proof {
                    assert(this.steps@.drop_last() =~= self.steps@);
                    if self.wf() {
                        assert(steps_tokens(this.steps@) =~= steps_tokens(self.steps@));
                        assert(this.args_seq() =~= steps_tokens(this.steps@));
                    }
                }
                this
            },
        }
    }

    /// Pass the prompt text as a trailing argument.
    pub fn with_prompt(self, prompt: String) -> (r: Self)
        ensures
            r.args_seq() == self.args_seq() + seq![prompt@],
            r.steps_seq() == self.steps_seq().push(PrintBuildStep::Prompt(prompt@)),
            self.wf() ==> r.wf(),
    {
        let mut this = self;
        let ghost p = prompt@;
        push_arg_string(&mut this.args, prompt);
        this.steps = Ghost(self.steps@.push(PrintBuildStep::Prompt(p)));
        proof {
            assert(this.args_seq() =~= self.args_seq() + seq![p]);
            assert(this.steps@.drop_last() =~= self.steps@);
            if self.wf() {
                assert(this.args_seq() =~= steps_tokens(this.steps@));
            }
        }
        this
    }

    /// Attach each image argument as an `--image` pair, in order.
    pub fn with_images(self, images: Vec<String>) -> (r: Self)
        ensures
            r.args_seq() == self.args_seq() + image_args(images.deep_view()),
            r.steps_seq() == self.steps_seq().push(
                PrintBuildStep::Images(images.deep_view()),
            ),
            self.wf() ==> r.wf(),
    {
        let mut this = self;
        let n: usize = images.len();
        let mut i: usize = 0;
        while i < n
            invariant
                n == images@.len(),
                i <= n,
                this.args_seq() == self.args_seq() + image_args(
                    images.deep_view().take(i as int),
                ),
                this.steps@ == self.steps@,
            decreases n - i,
        {
            push_arg(&mut this.args, "--image");
            let im: &String = &images[i];
            push_arg_string(&mut this.args, im.clone());
            proof {
                let iv = images.deep_view();
                assert(iv.take(i + 1).drop_last() =~= iv.take(i as int));
                assert(iv.take(i + 1).last() == iv[i as int]);
                assert(this.args_seq() =~= self.args_seq() + image_args(iv.take(i + 1)));
            }
            i = i + 1;
        }
        this.steps = Ghost(self.steps@.push(PrintBuildStep::Images(images.deep_view())));
        proof {
            assert(images.deep_view().take(n as int) == images.deep_view());
            assert(this.steps@.drop_last() =~= self.steps@);
            if self.wf() {
                assert(this.args_seq() =~= steps_tokens(this.steps@));
            }
        }
        this
    }

    /// Hand out the accumulated argument vector.
    pub fn build(self) -> (r: Vec<String>)
        ensures
            r.deep_view() == self.args_seq(),
            self.wf() ==> r.deep_view() == steps_tokens(self.steps_seq()),
    {
        self.args
    }
}

impl Default for ClaudeCommandBuilder {
    fn default() -> (r: Self)
        ensures
            r.args_seq() == Seq::<Seq<char>>::empty(),
            r.steps_seq() == Seq::<PrintBuildStep>::empty(),
            r.wf(),
    {
        Self::new()
    }
}

/// Law: every builder step appends its tokens at the end, so tokens already
/// present stay present, and the tokens of one step stand adjacent in the
/// order the step put them (in particular a resume flag and its identifier).
pub proof fn lemma_builder_append_keeps_tokens(pre: Seq<Seq<char>>, added: Seq<Seq<char>>)
    ensures
        forall|t: Seq<char>| pre.contains(t) ==> (pre + added).contains(t),
        forall|i: int| 0 <= i < added.len() ==> (pre + added)[pre.len() + i] == added[i],
{
    assert forall|t: Seq<char>| pre.contains(t) implies (pre + added).contains(t) by {
        let i = choose|i: int| 0 <= i < pre.len() && pre[i] == t;
        assert((pre + added)[i] == t);
    }
}

/// Where the tokens of step `i` begin in a vector built from `new()` and
/// the steps `ss`: the tokens of all earlier steps.
pub open spec fn step_offset(ss: Seq<PrintBuildStep>, i: int) -> int
    decreases i,
{
    if i <= 0 {
        0
    } else {
        step_offset(ss, i - 1) + step_tokens(ss[i - 1]).len()
    }
}

/// The offset of a step depends on the steps before it alone.
proof fn lemma_step_offset_prefix(ss: Seq<PrintBuildStep>, i: int)
    requires
        0 <= i < ss.len(),
    ensures
        step_offset(ss, i) == step_offset(ss.drop_last(), i),
    decreases i,
{
    if i > 0 {
        lemma_step_offset_prefix(ss, i - 1);
        assert(ss.drop_last()[i - 1] == ss[i - 1]);
    }
}

/// Offsets never decrease along the step sequence.
proof fn lemma_step_offset_mono(ss: Seq<PrintBuildStep>, i: int, j: int)
    requires
        0 <= i <= j,
    ensures
        step_offset(ss, i) <= step_offset(ss, j),
    decreases j - i,
{
    if i < j {
        lemma_step_offset_mono(ss, i, j - 1);
    }
}

/// The length of a built vector is the offset past the last step.
proof fn lemma_step_offset_total(ss: Seq<PrintBuildStep>)
    ensures
        step_offset(ss, ss.len() as int) == steps_tokens(ss).len(),
    decreases ss.len(),
{
    if ss.len() > 0 {
        lemma_step_offset_total(ss.drop_last());
        let n = ss.len() as int;
        if n >= 2 {
            lemma_step_offset_prefix(ss, n - 1);
        } else {
            assert(step_offset(ss, 0) == 0);
            assert(step_offset(ss.drop_last(), 0) == 0);
        }
        assert(step_offset(ss, n) == step_offset(ss, n - 1) + step_tokens(ss[n - 1]).len());
        assert(step_offset(ss, n - 1) == step_offset(ss.drop_last(), n - 1));
        assert(ss.last() == ss[n - 1]);
        assert(steps_tokens(ss) == steps_tokens(ss.drop_last()) + step_tokens(ss.last()));
    }
}

/// Law: an argument vector built from `new()` by any sequence of
/// configuration steps holds each step's tokens contiguously at that
/// step's offset, in call order: every requested token is present at
/// least once, mutually dependent tokens stand adjacent in their step's
/// own order, and the text of a trailing prompt step is the final token.
/// `build` ties any concretely built vector to this shape through `wf`.
pub proof fn lemma_print_builder_tokens(ss: Seq<PrintBuildStep>)
    ensures
        steps_tokens(ss).len() == step_offset(ss, ss.len() as int),
        forall|i: int, k: int|
            0 <= i < ss.len() && 0 <= k < step_tokens(ss[i]).len() ==> steps_tokens(
                ss,
            )[step_offset(ss, i) + k] == step_tokens(ss[i])[k],
        forall|p: Seq<char>|
            ss.len() > 0 && ss.last() == PrintBuildStep::Prompt(p) ==> steps_tokens(
                ss,
            ).last() == p,
    decreases ss.len(),
{
    lemma_step_offset_total(ss);
    if ss.len() > 0 {
        let pre = ss.drop_last();
        let last = ss.last();
        lemma_print_builder_tokens(pre);
        lemma_step_offset_total(pre);
        let args = steps_tokens(ss);
        let args_pre = steps_tokens(pre);
        assert(args == args_pre + step_tokens(last));
        assert forall|i: int, k: int|
            0 <= i < ss.len() && 0 <= k < step_tokens(ss[i]).len() implies args[step_offset(
            ss,
            i,
        ) + k] == step_tokens(ss[i])[k] by {
            lemma_step_offset_prefix(ss, i);
            if i < pre.len() {
                assert(pre[i] == ss[i]);
                assert(step_offset(pre, i) + step_tokens(pre[i]).len() == step_offset(
                    pre,
                    i + 1,
                ));
                lemma_step_offset_mono(pre, i + 1, pre.len() as int);
                assert(step_offset(pre, i) + k < args_pre.len());
                lemma_step_offset_mono(pre, 0, i);
                assert(args[step_offset(ss, i) + k] == args_pre[step_offset(pre, i) + k]);
            } else {
                assert(i == pre.len());
                assert(step_offset(pre, i) == args_pre.len());
                assert(args[step_offset(ss, i) + k] == step_tokens(last)[k]);
            }
        }
        assert forall|p: Seq<char>|
            ss.len() > 0 && ss.last() == PrintBuildStep::Prompt(p) implies args.last() == p by {
            assert(step_tokens(last) == seq![p]);
            assert(args.last() == args[args_pre.len() as int]);
            lemma_step_offset_prefix(ss, pre.len() as int);
            assert(step_offset(ss, pre.len() as int) == args_pre.len());
            assert(args[step_offset(ss, pre.len() as int) + 0] == step_tokens(
                ss[pre.len() as int],
            )[0]);
        }
    }
}

} // verus!
