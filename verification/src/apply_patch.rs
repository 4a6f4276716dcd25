//! The patch tool: what it is offered as, what it is called with, and how a
//! call of it goes.

use vstd::prelude::*;

use crate::json::{
    insert_field, is_text_record, parsed_text, print_json, printed, Json, JsonView,
};
use crate::patch_progress::{
    ApplyPatchArgumentDiffConsumer, ConsumerView, ErrorView, FunctionCallError,
};
use crate::protocol::opt_text;

verus! {

/// The form in which a model is offered the patch tool.
#[derive(Clone, Copy, PartialEq, Eq, Structural, Debug)]
pub enum ApplyPatchToolType {
    /// A custom tool: the call's input is the patch itself.
    Freeform,
    /// A function tool: the call's arguments are `{"input": <patch>}`.
    Function,
}

/// Handles calls of the patch tool.
#[derive(Clone, Copy, PartialEq, Eq, Structural, Debug)]
pub struct ApplyPatchHandler {
    pub multi_environment: bool,
    pub tool_type: ApplyPatchToolType,
}

/// The tool that a handler offers.
#[derive(Clone, Copy, PartialEq, Eq, Structural, Debug)]
pub enum PatchTool {
    /// The custom tool, with or without the choice of an environment.
    Freeform { multi_environment: bool },
    /// The function tool.
    Function,
}

/// What a tool is called with.
#[derive(Debug)]
pub enum ToolPayload {
    /// A call of a custom tool.
    Custom { input: String },
    /// A call of a function tool.
    Function { arguments: String },
    /// A call of another kind of tool.
    Other,
}

/// What a hook gets before a tool is used.
#[derive(Debug)]
pub struct PreToolUsePayload {
    pub tool_name: String,
    pub tool_input: Json,
}

/// What a hook gets after a tool was used.
#[derive(Debug)]
pub struct PostToolUsePayload {
    pub tool_name: String,
    pub tool_use_id: String,
    pub tool_input: Json,
    pub tool_response: Json,
}

/// The patch in a call: the input of a custom tool's call, or what the
/// arguments of a function tool's call were decoded to. `decoded` is the latter,
/// or the decoder's complaint.
pub open spec fn patch_in(payload: ToolPayload, decoded: Result<String, String>) -> Option<
    Seq<char>,
> {
    match payload {
        ToolPayload::Custom { input } => Some(input@),
        ToolPayload::Function { .. } => match decoded {
            Ok(input) => Some(input@),
            Err(_) => None,
        },
        ToolPayload::Other => None,
    }
}

/// What is wrong with a call that has no patch.
pub open spec fn payload_error(payload: ToolPayload, decoded: Result<String, String>) -> Seq<char> {
    match (payload, decoded) {
        (ToolPayload::Function { .. }, Err(complaint)) =>
            "apply_patch arguments are not valid JSON: "@ + complaint@,
        _ => "apply_patch handler received unsupported payload"@,
    }
}

/// The patch in a call, as hooks get it.
pub fn apply_patch_payload_command(payload: &ToolPayload, decoded: &Result<String, String>) -> (result:
    Option<String>)
    ensures
        opt_text(result) == patch_in(*payload, *decoded),
{
    match payload {
        ToolPayload::Custom { input } => Some(input.clone()),
        ToolPayload::Function { .. } => match decoded {
            Ok(input) => Some(input.clone()),
            Err(_) => None,
        },
        ToolPayload::Other => None,
    }
}

/// The patch in a call, or what to tell the model of a call that has none.
pub fn patch_input(payload: &ToolPayload, decoded: &Result<String, String>) -> (result: Result<
    String,
    FunctionCallError,
>)
    ensures
        match result {
            Ok(patch) => patch_in(*payload, *decoded) == Some(patch@),
            Err(error) => patch_in(*payload, *decoded) is None && error@
                == ErrorView::RespondToModel(payload_error(*payload, *decoded)),
        },
{
    match payload {
        ToolPayload::Custom { input } => Ok(input.clone()),
        ToolPayload::Function { .. } => match decoded {
            Ok(input) => Ok(input.clone()),
            Err(complaint) => {
                let mut text = "apply_patch arguments are not valid JSON: ".to_owned();
                text.append(complaint.as_str());
                Err(FunctionCallError::RespondToModel(text))
            },
        },
        ToolPayload::Other => Err(
            FunctionCallError::RespondToModel(
                "apply_patch handler received unsupported payload".to_owned(),
            ),
        ),
    }
}

/// An object with one text.
pub open spec fn text_record(key: Seq<char>, text: Seq<char>) -> JsonView {
    JsonView::Object(Map::empty().insert(key, JsonView::Str(text)))
}

fn into_text_record(key: &str, text: &str) -> (result: Json)
    ensures
        result@ == text_record(key@, text@),
{
    let mut fields: Vec<(String, Json)> = Vec::new();
    insert_field(&mut fields, key.to_owned(), Json::string(text));
    Json::Object(fields)
}

impl Default for ApplyPatchHandler {
    fn default() -> (result: Self)
        ensures
            result == (ApplyPatchHandler {
                multi_environment: false,
                tool_type: ApplyPatchToolType::Freeform,
            }),
    {
        ApplyPatchHandler { multi_environment: false, tool_type: ApplyPatchToolType::Freeform }
    }
}

impl ApplyPatchHandler {
    pub fn new(multi_environment: bool, tool_type: ApplyPatchToolType) -> (result: Self)
        ensures
            result == (ApplyPatchHandler { multi_environment, tool_type }),
    {
        ApplyPatchHandler { multi_environment, tool_type }
    }

    /// The name of the tool.
    pub fn tool_name(&self) -> (result: &'static str)
        ensures
            result@ == "apply_patch"@,
    {
        "apply_patch"
    }

    /// The tool to offer. Only the custom tool has a choice of environments.
    pub fn spec_choice(&self) -> (result: PatchTool)
        ensures
            result == match self.tool_type {
                ApplyPatchToolType::Freeform => PatchTool::Freeform {
                    multi_environment: self.multi_environment,
                },
                ApplyPatchToolType::Function => PatchTool::Function,
            },
    {
        match self.tool_type {
            ApplyPatchToolType::Freeform => PatchTool::Freeform {
                multi_environment: self.multi_environment,
            },
            ApplyPatchToolType::Function => PatchTool::Function,
        }
    }

    /// Whether the handler takes such a call: one of a custom or a function
    /// tool, whichever it offers.
    pub fn matches_kind(&self, payload: &ToolPayload) -> (result: bool)
        ensures
            result == (payload is Custom || payload is Function),
    {
        match payload {
            ToolPayload::Custom { .. } => true,
            ToolPayload::Function { .. } => true,
            ToolPayload::Other => false,
        }
    }

    /// What takes in the pieces of a call's arguments.
    pub fn create_diff_consumer(&self) -> (result: Option<ApplyPatchArgumentDiffConsumer>)
        ensures
            match result {
                Some(consumer) => consumer@ == (ConsumerView { last_sent_at: None, pending: None }),
                None => false,
            },
    {
        Some(ApplyPatchArgumentDiffConsumer::default())
    }

    /// What a hook gets before the tool is used: the patch, where there is one.
    pub fn pre_tool_use_payload(&self, payload: &ToolPayload, decoded: &Result<String, String>) -> (result:
        Option<PreToolUsePayload>)
        ensures
            match (result, patch_in(*payload, *decoded)) {
                (Some(hook), Some(patch)) => {
                    &&& hook.tool_name@ == "apply_patch"@
                    &&& hook.tool_input@ == text_record("command"@, patch)
                },
                (None, None) => true,
                _ => false,
            },
    {
        match apply_patch_payload_command(payload, decoded) {
            Some(command) => Some(
                PreToolUsePayload {
                    tool_name: "apply_patch".to_owned(),
                    tool_input: into_text_record("command", command.as_str()),
                },
            ),
            None => None,
        }
    }

    /// What a hook gets after the tool was used: the patch and the tool's
    /// response, where there are both.
    pub fn post_tool_use_payload(
        &self,
        call_id: &str,
        payload: &ToolPayload,
        decoded: &Result<String, String>,
        tool_response: Option<Json>,
    ) -> (result: Option<PostToolUsePayload>)
        ensures
            match (result, tool_response, patch_in(*payload, *decoded)) {
                (Some(hook), Some(response), Some(patch)) => {
                    &&& hook.tool_name@ == "apply_patch"@
                    &&& hook.tool_use_id@ == call_id@
                    &&& hook.tool_input@ == text_record("command"@, patch)
                    &&& hook.tool_response@ == response@
                },
                (Some(_), _, _) => false,
                (None, Some(_), Some(_)) => false,
                (None, _, _) => true,
            },
    {
        match tool_response {
            Some(tool_response) => match apply_patch_payload_command(payload, decoded) {
                Some(command) => Some(
                    PostToolUsePayload {
                        tool_name: "apply_patch".to_owned(),
                        tool_use_id: call_id.to_owned(),
                        tool_input: into_text_record("command", command.as_str()),
                        tool_response,
                    },
                ),
                None => None,
            },
            None => None,
        }
    }

    /// A call with the patch that a hook put in the place of its own, or the
    /// error where the hook gave none. The patch goes back in the form that it
    /// came in: the arguments of a function tool's call read as
    /// `{"input": <patch>}` again.
    pub fn with_updated_hook_input(
        &self,
        payload: ToolPayload,
        patch: Result<String, FunctionCallError>,
    ) -> (result: Result<ToolPayload, FunctionCallError>)
        ensures
            match (patch, result) {
                (Ok(patch), Ok(updated)) => match (payload, updated) {
                    (ToolPayload::Custom { .. }, ToolPayload::Custom { input }) => input@ == patch@,
                    (ToolPayload::Function { .. }, ToolPayload::Function { arguments }) => {
                        &&& arguments@ == printed(text_record("input"@, patch@))
                        &&& parsed_text(arguments@) == Some(text_record("input"@, patch@))
                    },
                    (ToolPayload::Other, ToolPayload::Other) => true,
                    _ => false,
                },
                (Err(given), Err(error)) => error@ == given@,
                _ => false,
            },
    {
        match patch {
            Ok(patch) => Ok(
                match payload {
                    ToolPayload::Custom { .. } => ToolPayload::Custom { input: patch },
                    ToolPayload::Function { .. } => {
                        let record = into_text_record("input", patch.as_str());
                        assert(is_text_record(record@));
                        ToolPayload::Function { arguments: print_json(&record) }
                    },
                    ToolPayload::Other => ToolPayload::Other,
                },
            ),
            Err(error) => Err(error),
        }
    }
}

/// The environment that a patch selects, where selecting one is allowed.
pub fn require_environment_id(parsed_environment_id: Option<&str>, allow_environment_id: bool) -> (result:
    Result<Option<String>, FunctionCallError>)
    ensures
        match (parsed_environment_id, result) {
            (None, Ok(None)) => true,
            (Some(id), Ok(Some(selected))) => allow_environment_id && selected@ == id@,
            (Some(_), Err(error)) => !allow_environment_id && error@ == ErrorView::RespondToModel(
                "apply_patch environment selection is unavailable for this turn"@,
            ),
            _ => false,
        },
{
    match parsed_environment_id {
        Some(id) => if allow_environment_id {
            Ok(Some(id.to_owned()))
        } else {
            Err(
                FunctionCallError::RespondToModel(
                    "apply_patch environment selection is unavailable for this turn".to_owned(),
                ),
            )
        },
        None => Ok(None),
    }
}

/// How a call of the patch tool ends.
#[derive(Debug)]
pub enum PatchOutcome {
    /// With the tool's output.
    Output(String),
    /// With an error.
    Failed(FunctionCallError),
    /// The command was no patch, and has to be run as a command.
    NotHandled,
}

/// The output of a call that was handled.
#[derive(Debug)]
pub struct PatchOutput {
    pub content: String,
    /// The mark of success that the output of a command bears. The output of a
    /// call of the tool bears none.
    pub success: Option<bool>,
}

/// What an answer is: the output and its mark, nothing for a command that was
/// no patch, or an error.
pub enum AnswerView {
    Output { content: Seq<char>, success: Option<bool> },
    NotHandled,
    Failed(ErrorView),
}

/// What a call is answered with.
pub open spec fn answer_view(
    answer: Result<Option<PatchOutput>, FunctionCallError>,
) -> AnswerView {
    match answer {
        Ok(Some(output)) => AnswerView::Output {
            content: output.content@,
            success: output.success,
        },
        Ok(None) => AnswerView::NotHandled,
        Err(error) => AnswerView::Failed(error@),
    }
}

/// What a call of the patch tool has to do next.
#[derive(Debug)]
pub enum PatchStage {
    /// Parse the patch.
    Parsing { patch: String },
    /// Find the selected environment.
    Resolving { environment_id: Option<String> },
    /// Verify the patch against the environment's files.
    Verifying,
    /// Settle permissions and have the patch assessed.
    Applying,
    /// Announce the patch.
    Beginning,
    /// Run it.
    Running,
    /// Report it finished: with the changes in its output where it succeeded,
    /// with those that were committed where it failed.
    Finishing { succeeded: bool },
    /// Nothing more.
    Done(PatchOutcome),
}

/// What came of a step.
#[derive(Debug)]
pub enum PatchReport {
    Parsed { environment_id: Option<String> },
    ParseFailed(String),
    Resolved,
    /// There is no environment.
    Unresolved,
    ResolveFailed(FunctionCallError),
    Verified,
    CorrectnessError(String),
    ShellParseError,
    NotApplyPatch,
    /// The assessment settled the patch.
    Settled(Result<String, FunctionCallError>),
    /// The assessment left the patch to the runtime.
    Delegated,
    Begun,
    Ran { succeeded: bool },
    Finished(Result<String, FunctionCallError>),
}

/// How a call ends.
pub enum OutcomeView {
    Output(Seq<char>),
    Failed(ErrorView),
    NotHandled,
}

/// What a call has to do next.
pub enum StageView {
    Parsing(Seq<char>),
    Resolving(Option<Seq<char>>),
    Verifying,
    Applying,
    Beginning,
    Running,
    Finishing(bool),
    Done(OutcomeView),
}

/// What came of a step.
pub enum ReportView {
    Parsed(Option<Seq<char>>),
    ParseFailed(Seq<char>),
    Resolved,
    Unresolved,
    ResolveFailed(ErrorView),
    Verified,
    CorrectnessError(Seq<char>),
    ShellParseError,
    NotApplyPatch,
    Settled(OutcomeView),
    Delegated,
    Begun,
    Ran(bool),
    Finished(OutcomeView),
}

impl PatchOutcome {
    pub open spec fn view(&self) -> OutcomeView {
        match self {
            PatchOutcome::Output(text) => OutcomeView::Output(text@),
            PatchOutcome::Failed(error) => OutcomeView::Failed(error@),
            PatchOutcome::NotHandled => OutcomeView::NotHandled,
        }
    }
}

impl PatchStage {
    pub open spec fn view(&self) -> StageView {
        match self {
            PatchStage::Parsing { patch } => StageView::Parsing(patch@),
            PatchStage::Resolving { environment_id } => StageView::Resolving(
                opt_text(*environment_id),
            ),
            PatchStage::Verifying => StageView::Verifying,
            PatchStage::Applying => StageView::Applying,
            PatchStage::Beginning => StageView::Beginning,
            PatchStage::Running => StageView::Running,
            PatchStage::Finishing { succeeded } => StageView::Finishing(*succeeded),
            PatchStage::Done(outcome) => StageView::Done(outcome@),
        }
    }
}

/// How a result ends a call.
pub open spec fn result_view(result: Result<String, FunctionCallError>) -> OutcomeView {
    match result {
        Ok(text) => OutcomeView::Output(text@),
        Err(error) => OutcomeView::Failed(error@),
    }
}

impl PatchReport {
    pub open spec fn view(&self) -> ReportView {
        match self {
            PatchReport::Parsed { environment_id } => ReportView::Parsed(opt_text(*environment_id)),
            PatchReport::ParseFailed(text) => ReportView::ParseFailed(text@),
            PatchReport::Resolved => ReportView::Resolved,
            PatchReport::Unresolved => ReportView::Unresolved,
            PatchReport::ResolveFailed(error) => ReportView::ResolveFailed(error@),
            PatchReport::Verified => ReportView::Verified,
            PatchReport::CorrectnessError(text) => ReportView::CorrectnessError(text@),
            PatchReport::ShellParseError => ReportView::ShellParseError,
            PatchReport::NotApplyPatch => ReportView::NotApplyPatch,
            PatchReport::Settled(result) => ReportView::Settled(result_view(*result)),
            PatchReport::Delegated => ReportView::Delegated,
            PatchReport::Begun => ReportView::Begun,
            PatchReport::Ran { succeeded } => ReportView::Ran(*succeeded),
            PatchReport::Finished(result) => ReportView::Finished(result_view(*result)),
        }
    }
}

/// A call of the patch tool, or a command that may be one.
#[derive(Debug)]
pub struct PatchFlow {
    /// Whether the patch came as a command.
    intercepting: bool,
    multi_environment: bool,
    stage: PatchStage,
}

/// What a call is.
pub struct FlowView {
    pub intercepting: bool,
    pub multi_environment: bool,
    pub stage: StageView,
}

/// A failure that the model is told of.
pub open spec fn failed(text: Seq<char>) -> StageView {
    StageView::Done(OutcomeView::Failed(ErrorView::RespondToModel(text)))
}

/// What follows the verification of a patch.
pub open spec fn after_verification(intercepting: bool, report: ReportView) -> StageView {
    match report {
        ReportView::Verified => StageView::Applying,
        ReportView::CorrectnessError(text) => failed("apply_patch verification failed: "@ + text),
        ReportView::ShellParseError => if intercepting {
            StageView::Done(OutcomeView::NotHandled)
        } else {
            failed("apply_patch handler received invalid patch input"@)
        },
        ReportView::NotApplyPatch => if intercepting {
            StageView::Done(OutcomeView::NotHandled)
        } else {
            failed("apply_patch handler received non-apply_patch input"@)
        },
        _ => StageView::Verifying,
    }
}

impl FlowView {
    /// The stage that follows a report. A report that the stage does not wait
    /// for changes nothing.
    pub open spec fn next_stage(self, report: ReportView) -> StageView {
        match self.stage {
            StageView::Parsing(_) => match report {
                ReportView::Parsed(Some(id)) => if self.multi_environment {
                    StageView::Resolving(Some(id))
                } else {
                    failed("apply_patch environment selection is unavailable for this turn"@)
                },
                ReportView::Parsed(None) => StageView::Resolving(None),
                ReportView::ParseFailed(text) => failed(
                    "apply_patch verification failed: "@ + text,
                ),
                _ => self.stage,
            },
            StageView::Resolving(_) => match report {
                ReportView::Resolved => StageView::Verifying,
                ReportView::Unresolved => failed("apply_patch is unavailable in this session"@),
                ReportView::ResolveFailed(error) => StageView::Done(OutcomeView::Failed(error)),
                _ => self.stage,
            },
            StageView::Verifying => after_verification(self.intercepting, report),
            StageView::Applying => match report {
                ReportView::Settled(outcome) => StageView::Done(outcome),
                ReportView::Delegated => StageView::Beginning,
                _ => self.stage,
            },
            StageView::Beginning => match report {
                ReportView::Begun => StageView::Running,
                _ => self.stage,
            },
            StageView::Running => match report {
                ReportView::Ran(succeeded) => StageView::Finishing(succeeded),
                _ => self.stage,
            },
            StageView::Finishing(_) => match report {
                ReportView::Finished(outcome) => StageView::Done(outcome),
                _ => self.stage,
            },
            StageView::Done(_) => self.stage,
        }
    }

    /// What the call is answered with, once it is over.
    pub open spec fn answer(self) -> Option<AnswerView> {
        match self.stage {
            StageView::Done(OutcomeView::Output(content)) => Some(
                AnswerView::Output {
                    content,
                    success: if self.intercepting {
                        Some(true)
                    } else {
                        None
                    },
                },
            ),
            StageView::Done(OutcomeView::NotHandled) => Some(AnswerView::NotHandled),
            StageView::Done(OutcomeView::Failed(error)) => Some(AnswerView::Failed(error)),
            _ => None,
        }
    }

    /// The call once a report has come.
    pub open spec fn after_report(self, report: ReportView) -> FlowView {
        FlowView { stage: self.next_stage(report), ..self }
    }

    /// The call once reports have come.
    pub open spec fn after_reports(self, reports: Seq<ReportView>) -> FlowView
        decreases reports.len(),
    {
        if reports.len() == 0 {
            self
        } else {
            self.after_reports(reports.drop_last()).after_report(reports.last())
        }
    }
}

fn fail(text: &str) -> (result: PatchStage)
    ensures
        result@ == failed(text@),
{
    PatchStage::Done(PatchOutcome::Failed(FunctionCallError::RespondToModel(text.to_owned())))
}

fn fail_with(prefix: &str, text: &str) -> (result: PatchStage)
    ensures
        result@ == failed(prefix@ + text@),
{
    let mut message = prefix.to_owned();
    message.append(text);
    PatchStage::Done(PatchOutcome::Failed(FunctionCallError::RespondToModel(message)))
}

fn end_with(result: Result<String, FunctionCallError>) -> (stage: PatchStage)
    ensures
        stage@ == StageView::Done(result_view(result)),
{
    match result {
        Ok(text) => PatchStage::Done(PatchOutcome::Output(text)),
        Err(error) => PatchStage::Done(PatchOutcome::Failed(error)),
    }
}

impl PatchFlow {
    pub closed spec fn view(&self) -> FlowView {
        FlowView {
            intercepting: self.intercepting,
            multi_environment: self.multi_environment,
            stage: self.stage@,
        }
    }

    /// A call of the tool: its patch is parsed first, where it has one.
    pub fn handle(
        handler: &ApplyPatchHandler,
        payload: &ToolPayload,
        decoded: &Result<String, String>,
    ) -> (result: Self)
        ensures
            result@ == (FlowView {
                intercepting: false,
                multi_environment: handler.multi_environment,
                stage: match patch_in(*payload, *decoded) {
                    Some(patch) => StageView::Parsing(patch),
                    None => failed(payload_error(*payload, *decoded)),
                },
            }),
    {
        let stage = match patch_input(payload, decoded) {
            Ok(patch) => PatchStage::Parsing { patch },
            Err(error) => PatchStage::Done(PatchOutcome::Failed(error)),
        };
        PatchFlow { intercepting: false, multi_environment: handler.multi_environment, stage }
    }

    /// A command that may be a patch: whether it is is found as it is verified.
    pub fn intercept() -> (result: Self)
        ensures
            result@ == (FlowView {
                intercepting: true,
                multi_environment: false,
                stage: StageView::Verifying,
            }),
    {
        PatchFlow { intercepting: true, multi_environment: false, stage: PatchStage::Verifying }
    }

    /// What there is to do next.
    pub fn stage(&self) -> (result: &PatchStage)
        ensures
            result@ == self@.stage,
    {
        &self.stage
    }

    /// What the call is answered with, or nothing while it goes on.
    pub fn answer(&self) -> (result: Option<Result<Option<PatchOutput>, FunctionCallError>>)
        ensures
            match result {
                Some(answer) => self@.answer() == Some(answer_view(answer)),
                None => self@.answer() is None,
            },
    {
        match &self.stage {
            PatchStage::Done(PatchOutcome::Output(text)) => Some(
                Ok(
                    Some(
                        PatchOutput {
                            content: text.clone(),
                            success: if self.intercepting {
                                Some(true)
                            } else {
                                None
                            },
                        },
                    ),
                ),
            ),
            PatchStage::Done(PatchOutcome::NotHandled) => Some(Ok(None)),
            PatchStage::Done(PatchOutcome::Failed(error)) => Some(Err(error.copy())),
            _ => None,
        }
    }

    /// Takes in what came of a step.
    pub fn on_report(&mut self, report: PatchReport)
        ensures
            final(self)@ == old(self)@.after_report(report@),
    {
        let next: Option<PatchStage> = match (&self.stage, report) {
            (PatchStage::Parsing { .. }, PatchReport::Parsed { environment_id }) => {
                let selected = match &environment_id {
                    Some(id) => require_environment_id(Some(id.as_str()), self.multi_environment),
                    None => require_environment_id(None, self.multi_environment),
                };
                match selected {
                    Ok(environment_id) => Some(PatchStage::Resolving { environment_id }),
                    Err(error) => Some(PatchStage::Done(PatchOutcome::Failed(error))),
                }
            },
            (PatchStage::Parsing { .. }, PatchReport::ParseFailed(text)) => Some(
                fail_with("apply_patch verification failed: ", text.as_str()),
            ),
            (PatchStage::Resolving { .. }, PatchReport::Resolved) => Some(PatchStage::Verifying),
            (PatchStage::Resolving { .. }, PatchReport::Unresolved) => Some(
                fail("apply_patch is unavailable in this session"),
            ),
            (PatchStage::Resolving { .. }, PatchReport::ResolveFailed(error)) => Some(
                PatchStage::Done(PatchOutcome::Failed(error)),
            ),
            (PatchStage::Verifying, PatchReport::Verified) => Some(PatchStage::Applying),
            (PatchStage::Verifying, PatchReport::CorrectnessError(text)) => Some(
                fail_with("apply_patch verification failed: ", text.as_str()),
            ),
            (PatchStage::Verifying, PatchReport::ShellParseError) => Some(
                if self.intercepting {
                    PatchStage::Done(PatchOutcome::NotHandled)
                } else {
                    fail("apply_patch handler received invalid patch input")
                },
            ),
            (PatchStage::Verifying, PatchReport::NotApplyPatch) => Some(
                if self.intercepting {
                    PatchStage::Done(PatchOutcome::NotHandled)
                } else {
                    fail("apply_patch handler received non-apply_patch input")
                },
            ),
            (PatchStage::Applying, PatchReport::Settled(result)) => Some(end_with(result)),
            (PatchStage::Applying, PatchReport::Delegated) => Some(PatchStage::Beginning),
            (PatchStage::Beginning, PatchReport::Begun) => Some(PatchStage::Running),
            (PatchStage::Running, PatchReport::Ran { succeeded }) => Some(
                PatchStage::Finishing { succeeded },
            ),
            (PatchStage::Finishing { .. }, PatchReport::Finished(result)) => Some(end_with(result)),
            _ => None,
        };
        if let Some(stage) = next {
            self.stage = stage;
        }
    }
}

/// How often a call was announced as begun.
pub open spec fn times_begun(flow: FlowView, reports: Seq<ReportView>) -> nat
    decreases reports.len(),
{
    if reports.len() == 0 {
        0
    } else {
        let before = flow.after_reports(reports.drop_last());
        times_begun(flow, reports.drop_last()) + if before.stage is Beginning
            && reports.last() is Begun {
            1nat
        } else {
            0nat
        }
    }
}

/// How often a call was reported finished.
pub open spec fn times_finished(flow: FlowView, reports: Seq<ReportView>) -> nat
    decreases reports.len(),
{
    if reports.len() == 0 {
        0
    } else {
        let before = flow.after_reports(reports.drop_last());
        times_finished(flow, reports.drop_last()) + if before.stage is Finishing
            && reports.last() is Finished {
            1nat
        } else {
            0nat
        }
    }
}

proof fn lemma_begun_and_finished(flow: FlowView, reports: Seq<ReportView>)
    requires
        !(flow.stage is Running) && !(flow.stage is Finishing),
    ensures
        ({
            let stage = flow.after_reports(reports).stage;
            let begun = times_begun(flow, reports);
            let finished = times_finished(flow, reports);
            &&& begun <= 1
            &&& stage is Running || stage is Finishing ==> begun == 1 && finished == 0
            &&& stage is Done ==> begun == finished
            &&& !(stage is Running) && !(stage is Finishing) && !(stage is Done) ==> begun == 0
                && finished == 0
        }),
    decreases reports.len(),
{
    if reports.len() > 0 {
        lemma_begun_and_finished(flow, reports.drop_last());
    }
}

/// A patch is announced at most once, and a call that is over has reported it
/// finished exactly if it had announced it, whether the patch succeeded or not.
pub proof fn law_what_begins_is_finished(flow: FlowView, reports: Seq<ReportView>)
    requires
        !(flow.stage is Running) && !(flow.stage is Finishing),
        flow.after_reports(reports).stage is Done,
    ensures
        times_begun(flow, reports) <= 1,
        times_begun(flow, reports) == times_finished(flow, reports),
{
    lemma_begun_and_finished(flow, reports);
}

/// A call that is over stays so.
pub proof fn law_done_calls_stay_done(flow: FlowView, reports: Seq<ReportView>)
    requires
        flow.stage is Done,
    ensures
        flow.after_reports(reports) == flow,
    decreases reports.len(),
{
    if reports.len() > 0 {
        law_done_calls_stay_done(flow, reports.drop_last());
    }
}

proof fn lemma_mode_stays(flow: FlowView, reports: Seq<ReportView>)
    ensures
        flow.after_reports(reports).intercepting == flow.intercepting,
        flow.after_reports(reports).multi_environment == flow.multi_environment,
    decreases reports.len(),
{
    if reports.len() > 0 {
        lemma_mode_stays(flow, reports.drop_last());
    }
}

/// Only a command is ever handed back as no patch: a call of the tool ends with
/// an output or an error. `Settled` and `Finished` reports are results, which
/// hand nothing back.
pub proof fn law_calls_are_always_answered(flow: FlowView, reports: Seq<ReportView>)
    requires
        !flow.intercepting,
        flow.stage matches StageView::Done(outcome) ==> !(outcome is NotHandled),
        forall|i: int|
            0 <= i < reports.len() ==> match #[trigger] reports[i] {
                ReportView::Settled(outcome) => !(outcome is NotHandled),
                ReportView::Finished(outcome) => !(outcome is NotHandled),
                _ => true,
            },
    ensures
        flow.after_reports(reports).stage matches StageView::Done(outcome) ==> !(
        outcome is NotHandled),
    decreases reports.len(),
{
    if reports.len() > 0 {
        lemma_mode_stays(flow, reports.drop_last());
        assert(reports.last() == reports[reports.len() - 1]);
        law_calls_are_always_answered(flow, reports.drop_last());
    }
}

/// The output of a command bears the mark of success, that of a call of the tool
/// bears none, whatever came in between.
pub proof fn law_outputs_bear_their_mark(flow: FlowView, reports: Seq<ReportView>)
    ensures
        flow.after_reports(reports).answer() matches Some(AnswerView::Output { success, .. })
            ==> success == if flow.intercepting {
            Some(true)
        } else {
            None
        },
{
    lemma_mode_stays(flow, reports);
}

/// Without the choice of environments no call ever gets to look for one that
/// its patch names.
pub proof fn law_environments_are_selected_by_permission(
    flow: FlowView,
    reports: Seq<ReportView>,
)
    requires
        !flow.multi_environment,
        flow.stage matches StageView::Resolving(id) ==> id is None,
    ensures
        flow.after_reports(reports).stage matches StageView::Resolving(id) ==> id is None,
    decreases reports.len(),
{
    if reports.len() > 0 {
        lemma_mode_stays(flow, reports.drop_last());
        law_environments_are_selected_by_permission(flow, reports.drop_last());
    }
}

} // verus!
