//! `ask_user`: a choice put to the person by the model.
//!
//! Every question is a choice between alternatives the model can name, and no answer
//! is not agreement with any of them.
use crate::data::{none_of, put, Dup};
use crate::events::{Choice, ChoiceView, Question, QuestionView, ToolResult, ToolResultView};
use crate::text;
use crate::text::{lit, number, trim, words_of};
use vstd::prelude::*;

verus! {

/// How many alternatives a question may offer.
pub const FEWEST: usize = 2;

pub const MOST: usize = 5;

/// What the model is told when no answer came.
pub const NOBODY: &'static str = "No answer — nobody was available, or they declined. This is not agreement with any option: decide it yourself, say which way you went and why, and carry on.";

/// What the model asks.
#[derive(Debug, PartialEq, Eq)]
pub struct AskArgs {
    pub question: String,
    pub options: Vec<String>,
}

/// What a [`AskArgs`] holds.
#[verifier::ext_equal]
pub struct AskArgsView {
    pub question: Seq<char>,
    pub options: Seq<Seq<char>>,
}

impl DeepView for AskArgs {
    type V = AskArgsView;

    open spec fn deep_view(&self) -> AskArgsView {
        AskArgsView {
            question: self.question.deep_view(),
            options: self.options.deep_view(),
        }
    }
}

impl Dup for AskArgs {
    fn dup(&self) -> (r: Self) {
        AskArgs {
            question: self.question.dup(),
            options: self.options.dup(),
        }
    }
}

impl Clone for AskArgs {
    fn clone(&self) -> (r: Self)
        ensures
            r.deep_view() == self.deep_view(),
    {
        self.dup()
    }
}

/// What becomes of a question before anyone sees it.
#[derive(Debug, PartialEq, Eq)]
pub enum Asking {
    /// It is not one; this is the result.
    Refuse { result: ToolResult },
    Ask { question: Question },
}

/// What a [`Asking`] holds.
#[verifier::ext_equal]
pub enum AskingView {
    Refuse { result: ToolResultView },
    Ask { question: QuestionView },
}

impl DeepView for Asking {
    type V = AskingView;

    open spec fn deep_view(&self) -> AskingView {
        match self {
            Asking::Refuse { result } => AskingView::Refuse {
                result: result.deep_view(),
            },
            Asking::Ask { question } => AskingView::Ask {
                question: question.deep_view(),
            },
        }
    }
}

impl Dup for Asking {
    fn dup(&self) -> (r: Self) {
        match self {
            Asking::Refuse { result } => Asking::Refuse {
                result: result.dup(),
            },
            Asking::Ask { question } => Asking::Ask {
                question: question.dup(),
            },
        }
    }
}

impl Clone for Asking {
    fn clone(&self) -> (r: Self)
        ensures
            r.deep_view() == self.deep_view(),
    {
        self.dup()
    }
}

/// A result that says `content`.
pub open spec fn said(content: Seq<char>, is_error: bool) -> ToolResultView {
    ToolResultView { call_id: Seq::empty(), content, is_error, images: Seq::empty() }
}

pub fn ok(content: String) -> (r: ToolResult)
    ensures
        r.deep_view() == said(content@, false),
{
    ToolResult { call_id: String::new(), content, is_error: false, images: none_of() }
}

pub fn fail(content: String) -> (r: ToolResult)
    ensures
        r.deep_view() == said(content@, true),
{
    ToolResult { call_id: String::new(), content, is_error: true, images: none_of() }
}

pub const TOO_FEW_OR_MANY: &'static str = ". A question whose alternatives you cannot name is one to answer by reading the code.";

pub open spec fn choices(options: Seq<Seq<char>>) -> Seq<ChoiceView> {
    Seq::new(options.len(), |i: int| ChoiceView { value: options[i], label: options[i] })
}

/// The question the person is asked, where the arguments make one. `args` is how the
/// argument text read, or why it did not.
pub open spec fn posed(
    args: Result<AskArgsView, Seq<char>>,
    asker: Option<Seq<char>>,
) -> AskingView {
    match args {
        Err(e) => AskingView::Refuse { result: said("invalid arguments: "@ + e, true) },
        Ok(a) => {
            let options = text::worded(a.options);
            if text::is_blank(a.question) {
                AskingView::Refuse { result: said("`question` is required"@, true) }
            } else if options.len() < FEWEST || options.len() > MOST {
                AskingView::Refuse {
                    result: said(
                        "`options` must name 2 to 5 alternatives; got "@ + text::decimal(
                            options.len(),
                        ) + TOO_FEW_OR_MANY@,
                        true,
                    ),
                }
            } else {
                AskingView::Ask {
                    question: QuestionView {
                        prompt: text::trimmed(a.question),
                        options: choices(options),
                        asker,
                        about: None,
                    },
                }
            }
        },
    }
}

pub open spec fn read_args(args: Result<AskArgs, String>) -> Result<AskArgsView, Seq<char>> {
    match args {
        Ok(a) => Ok(a.deep_view()),
        Err(e) => Err(e@),
    }
}

pub fn pose(args: Result<AskArgs, String>, asker: Option<String>) -> (r: Asking)
    ensures
        r.deep_view() == posed(read_args(args), asker.deep_view()),
{
    let a = match args {
        Ok(a) => a,
        Err(e) => return Asking::Refuse {
            result: fail(lit("invalid arguments: ").concat(e.as_str())),
        },
    };
    let prompt = trim(a.question.as_str());
    if prompt.is_empty() {
        return Asking::Refuse { result: fail(lit("`question` is required")) };
    }
    let options = words_of(&a.options);
    assert(options.deep_view().len() == options.len());
    if options.len() < FEWEST || options.len() > MOST {
        return Asking::Refuse {
            result: fail(
                lit("`options` must name 2 to 5 alternatives; got ").concat(
                    number(options.len() as u64).as_str(),
                ).concat(TOO_FEW_OR_MANY),
            ),
        };
    }
    let ghost all = choices(options.deep_view());
    let mut list: Vec<Choice> = none_of();
    let mut i: usize = 0;
    assert(list.deep_view() =~= all.take(0));
    while i < options.len()
        invariant
            i <= options.len(),
            all == choices(options.deep_view()),
            list.deep_view() == all.take(i as int),
        decreases options.len() - i,
    {
        put(&mut list, Choice { value: options[i].clone(), label: options[i].clone() });
        assert(list.deep_view() =~= all.take(i + 1));
        i = i + 1;
    }
    assert(all.take(i as int) =~= all);
    Asking::Ask {
        question: Question { prompt: lit(prompt), options: list, asker, about: None },
    }
}

/// What the model is told of the answer.
pub open spec fn told(answer: Option<Seq<char>>) -> ToolResultView {
    match answer {
        Some(a) => said("The person answered: "@ + a, false),
        None => said(NOBODY@, false),
    }
}

pub fn tell(answer: Option<String>) -> (r: ToolResult)
    ensures
        r.deep_view() == told(answer.deep_view()),
{
    match answer {
        Some(a) => ok(lit("The person answered: ").concat(a.as_str())),
        None => ok(lit(NOBODY)),
    }
}

/// A question that reaches a person always offers between two and five alternatives,
/// none of them blank, and is about no call.
pub proof fn law_every_question_is_a_choice(
    args: Result<AskArgsView, Seq<char>>,
    asker: Option<Seq<char>>,
)
    ensures
        posed(args, asker) matches AskingView::Ask { question } ==> {
            &&& FEWEST <= question.options.len() <= MOST
            &&& question.about is None
            &&& forall|i: int|
                0 <= i < question.options.len() ==> (#[trigger] question.options[i]).value.len()
                    > 0
        },
{
    match args {
        Ok(a) => {
            lemma_worded(a.options);
        },
        Err(_) => {},
    }
}

proof fn lemma_worded(list: Seq<Seq<char>>)
    ensures
        forall|i: int| 0 <= i < text::worded(list).len() ==> (#[trigger] text::worded(list)[i]).len()
            > 0,
    decreases list.len(),
{
    if list.len() > 0 {
        let before = text::worded(list.drop_last());
        lemma_worded(list.drop_last());
        assert forall|i: int| 0 <= i < text::worded(list).len() implies (
        #[trigger] text::worded(list)[i]).len() > 0 by {
            if i < before.len() {
                assert(text::worded(list)[i] == before[i]);
            }
        }
    }
}

// ---- what the model is told ------------------------------------------------

/// What `ask_user` is for.
pub const DESCRIPTION: &'static str = "Put a choice to the person and wait for their answer.\n\nFor a decision that is theirs rather than yours: which of two designs to build, whether to change something they did not ask you to touch, which of several things they meant. NOT for anything the repository can tell you — read it instead; a question you could have answered by looking costs them attention you will need later for a question you cannot.\n\nEvery question is a choice: give the real alternatives, 2 to 5 of them, each one a thing you would actually do next. If you cannot name them, you do not know enough to ask yet. The answer comes back as the option they picked.\n\nThey may not answer — nobody is at the screen, or they declined. That is not consent to anything: decide it yourself, say which way you went and why, and carry on.\n\nExample: {\"question\":\"`config.toml` has no `[telemetry]` section. Add one, or leave telemetry off?\",\"options\":[\"add the section with defaults\",\"leave it off\"]}";

/// The arguments of `ask_user`, as JSON Schema.
pub const SCHEMA: &'static str = "{\"properties\":{\"options\":{\"description\":\"The alternatives, 2 to 5. Each is what you would do next if it is picked.\",\"items\":{\"type\":\"string\"},\"type\":\"array\"},\"question\":{\"description\":\"The question, in one or two sentences. State what you are about to do either way.\",\"type\":\"string\"}},\"required\":[\"question\",\"options\"],\"type\":\"object\"}";

/// When to use it.
pub const PROMPT: &'static str = "When a decision is the person's rather than yours — which of two designs, whether to touch something they did not ask about, which of several things they meant — use `ask_user` rather than picking for them. Anything the repository can answer, answer by reading it.";

} // verus!
