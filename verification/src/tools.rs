//! The remote tool: which selection a request stands for, and what is
//! answered.

use vstd::prelude::*;
use crate::error::description_of;
use crate::operation::{Outcome, OutcomeView};

verus! {

/// A remote request: the name of the tool, and the device wanted, by alias.
#[derive(Clone, Debug, PartialEq, Eq)]
pub struct ToolRequest {
    pub tool: String,
    pub option: String,
}

/// Mathematical value of a [`ToolRequest`].
pub struct ToolRequestView {
    pub tool: Seq<char>,
    pub option: Seq<char>,
}

impl View for ToolRequest {
    type V = ToolRequestView;

    open spec fn view(&self) -> ToolRequestView {
        ToolRequestView { tool: self.tool@, option: self.option@ }
    }
}

/// One alias: the option that a caller may send, and the text that is
/// then looked for in the devices.
#[derive(Clone, Debug, PartialEq, Eq)]
pub struct Alias {
    pub option: String,
    pub pattern: String,
}

/// Mathematical value of an [`Alias`].
pub struct AliasView {
    pub option: Seq<char>,
    pub pattern: Seq<char>,
}

impl View for Alias {
    type V = AliasView;

    open spec fn view(&self) -> AliasView {
        AliasView { option: self.option@, pattern: self.pattern@ }
    }
}

impl DeepView for Alias {
    type V = AliasView;

    open spec fn deep_view(&self) -> AliasView {
        self@
    }
}

/// What is sent back: `result: "ok"`, or `error:` and a sentence.
#[derive(Clone, Debug, PartialEq, Eq)]
pub enum ToolResponse {
    Done,
    Error(String),
}

/// Mathematical value of a [`ToolResponse`].
pub enum ToolResponseView {
    Done,
    Error(Seq<char>),
}

impl View for ToolResponse {
    type V = ToolResponseView;

    open spec fn view(&self) -> ToolResponseView {
        match self {
            ToolResponse::Done => ToolResponseView::Done,
            ToolResponse::Error(text) => ToolResponseView::Error(text@),
        }
    }
}

/// What a request leads to.
#[derive(Clone, Debug, PartialEq, Eq)]
pub enum Dispatch {
    /// One selection by this text, then an answer by [`respond`].
    SelectByName(String),
    /// No selection at all: this answer at once.
    Reply(ToolResponse),
}

/// Mathematical value of a [`Dispatch`].
pub enum DispatchView {
    SelectByName(Seq<char>),
    Reply(ToolResponseView),
}

impl View for Dispatch {
    type V = DispatchView;

    open spec fn view(&self) -> DispatchView {
        match self {
            Dispatch::SelectByName(text) => DispatchView::SelectByName(text@),
            Dispatch::Reply(response) => DispatchView::Reply(response@),
        }
    }
}

/// The remote tool with its table of aliases.
#[derive(Clone, Debug, PartialEq, Eq)]
pub struct AudioTools {
    aliases: Vec<Alias>,
}

impl View for AudioTools {
    type V = Seq<AliasView>;

    closed spec fn view(&self) -> Seq<AliasView> {
        self.aliases.deep_view()
    }
}

/// The aliases that the tool knows when it is given no others.
pub open spec fn known_aliases() -> Seq<AliasView> {
    seq![
        AliasView { option: "headphones"@, pattern: "headphone"@ },
        AliasView { option: "usb speaker"@, pattern: "usb speaker"@ },
    ]
}

/// The answer to an option that no alias has.
pub open spec fn refusal() -> Seq<char> {
    "invalid tool or option"@
}

/// The pattern of the first alias at or after `from` that has this option.
pub open spec fn lookup_from(aliases: Seq<AliasView>, option: Seq<char>, from: int) -> Option<
    Seq<char>,
>
    decreases aliases.len() - from,
{
    if from < 0 || from >= aliases.len() {
        None
    } else if aliases[from].option == option {
        Some(aliases[from].pattern)
    } else {
        lookup_from(aliases, option, from + 1)
    }
}

/// The pattern that an option stands for: that of the first alias with
/// exactly this option.
pub open spec fn lookup(aliases: Seq<AliasView>, option: Seq<char>) -> Option<Seq<char>> {
    lookup_from(aliases, option, 0)
}

/// What a request leads to. The name of the tool plays no part.
pub open spec fn dispatch_of(aliases: Seq<AliasView>, request: ToolRequestView) -> DispatchView {
    match lookup(aliases, request.option) {
        Some(pattern) => DispatchView::SelectByName(pattern),
        None => DispatchView::Reply(ToolResponseView::Error(refusal())),
    }
}

/// The answer that stands for the end of an operation: "ok" where it did its
/// work, the sentence of the failure where it did not.
pub open spec fn response_of(outcome: OutcomeView) -> ToolResponseView {
    match outcome {
        OutcomeView::Failed(error) => ToolResponseView::Error(description_of(error)),
        OutcomeView::Devices { problem: Some(error), .. } => ToolResponseView::Error(
            description_of(error),
        ),
        _ => ToolResponseView::Done,
    }
}

/// The one member of the object that is sent back: its key and its text.
pub open spec fn member_of(response: ToolResponseView) -> (Seq<char>, Seq<char>) {
    match response {
        ToolResponseView::Done => ("result"@, "ok"@),
        ToolResponseView::Error(text) => ("error"@, text),
    }
}

impl ToolResponse {
    /// The key and the text of the one member of the object to send back.
    pub fn member(&self) -> (pair: (String, String))
        ensures
            (pair.0@, pair.1@) == member_of(self@),
    {
        match self {
            ToolResponse::Done => ("result".to_owned(), "ok".to_owned()),
            ToolResponse::Error(text) => ("error".to_owned(), text.clone()),
        }
    }
}

impl AudioTools {
    /// The tool with the two known aliases.
    pub fn new() -> (tools: AudioTools)
        ensures
            tools@ == known_aliases(),
    {
        let mut aliases: Vec<Alias> = Vec::new();
        aliases.push(Alias { option: "headphones".to_owned(), pattern: "headphone".to_owned() });
        aliases.push(Alias { option: "usb speaker".to_owned(), pattern: "usb speaker".to_owned() });
        assert(aliases.deep_view() =~= known_aliases());
        AudioTools { aliases }
    }

    /// The tool with a table of the caller's own.
    pub fn with_aliases(aliases: Vec<Alias>) -> (tools: AudioTools)
        ensures
            tools@ == aliases.deep_view(),
    {
        AudioTools { aliases }
    }

    /// Reads a request: a recognised option leads to one selection by the
    /// text of its alias, any other to the refusal and to no selection.
    pub fn change_audio_device(&self, request: &ToolRequest) -> (dispatch: Dispatch)
        ensures
            dispatch@ == dispatch_of(self@, request@),
    {
        let mut index: usize = 0;
        while index < self.aliases.len()
            invariant
                index <= self.aliases.len(),
                lookup(self@, request@.option) == lookup_from(self@, request@.option, index as int),
            decreases self.aliases.len() - index,
        {
            if self.aliases[index].option == request.option {
                return Dispatch::SelectByName(self.aliases[index].pattern.clone());
            }
            index += 1;
        }
        Dispatch::Reply(ToolResponse::Error("invalid tool or option".to_owned()))
    }
}

/// The answer to send once the selection has ended.
pub fn respond(outcome: &Outcome) -> (response: ToolResponse)
    ensures
        response@ == response_of(outcome@),
{
    match outcome {
        Outcome::Failed(error) => ToolResponse::Error(error.describe()),
        Outcome::Devices { problem: Some(error), .. } => ToolResponse::Error(error.describe()),
        _ => ToolResponse::Done,
    }
}

/// The name of the tool is not used to route a request: two requests with
/// the same option lead to the same thing.
pub proof fn lemma_tool_name_is_ignored(
    aliases: Seq<AliasView>,
    one: ToolRequestView,
    other: ToolRequestView,
)
    requires
        one.option == other.option,
    ensures
        dispatch_of(aliases, one) == dispatch_of(aliases, other),
{
}

/// An option that no alias has is refused, and leads to no selection; an
/// option that some alias has leads to a selection by the text of the first
/// such alias.
pub proof fn lemma_dispatch(aliases: Seq<AliasView>, request: ToolRequestView)
    ensures
        (forall|k: int| 0 <= k < aliases.len() ==> (#[trigger] aliases[k]).option != request.option)
            ==> dispatch_of(aliases, request) == DispatchView::Reply(
            ToolResponseView::Error(refusal()),
        ),
        forall|k: int|
            0 <= k < aliases.len() && (#[trigger] aliases[k]).option == request.option && (forall|
                j: int,
            |
                0 <= j < k ==> (#[trigger] aliases[j]).option != request.option) ==> dispatch_of(
                aliases,
                request,
            ) == DispatchView::SelectByName(aliases[k].pattern),
{
    lemma_lookup_from(aliases, request.option, 0);
}

proof fn lemma_lookup_from(aliases: Seq<AliasView>, option: Seq<char>, from: int)
    requires
        0 <= from,
    ensures
        (forall|k: int| from <= k < aliases.len() ==> (#[trigger] aliases[k]).option != option)
            ==> lookup_from(aliases, option, from) is None,
        forall|k: int|
            from <= k < aliases.len() && (#[trigger] aliases[k]).option == option && (forall|j: int|
                from <= j < k ==> (#[trigger] aliases[j]).option != option) ==> lookup_from(
                aliases,
                option,
                from,
            ) == Some(aliases[k].pattern),
    decreases aliases.len() - from,
{
    if from < aliases.len() {
        lemma_lookup_from(aliases, option, from + 1);
    }
}

} // verus!
