//! From a request to what the executor is asked for.

use super::clone_text;
use super::completion::{Completion, CompletionModel};
use super::probe;
use super::probe::{MetaModel, ProbeMeta};
use crate::json;
use crate::json::{Json, JsonModel};
use crate::text;
use crate::views;
use vstd::prelude::*;

verus! {

/// A completion request, whichever API surface it came in by.
#[derive(Debug)]
pub struct StandardRequest {
    /// The API surface that the request came in by.
    pub surface: String,
    /// The model that the client asked for.
    pub response_model: String,
    /// The upstream model that it stands for.
    pub resolved_model: String,
    pub prompt: String,
    /// Whether the request offers tools.
    pub has_tools: bool,
    pub files: Vec<Json>,
    /// The kind of chat: `t2t` for text, `t2i` for images, `t2v` for video.
    pub chat_type: String,
    pub image_options: Option<Json>,
    pub thinking_enabled: Option<bool>,
    pub enable_search: bool,
    pub stream: bool,
    /// The account that the request's files were uploaded with.
    pub bound_account: Option<String>,
    pub exclude_accounts: Vec<String>,
    pub caller: Option<String>,
}

/// What the executor is asked for.
#[derive(Debug)]
pub struct StreamParams {
    pub model: String,
    pub content: String,
    pub has_custom_tools: bool,
    pub files: Vec<Json>,
    pub chat_type: String,
    pub image_options: Option<Json>,
    pub thinking_enabled: Option<bool>,
    pub enable_search: bool,
    pub fixed_account: Option<String>,
    pub existing_chat_id: Option<String>,
    pub delete_on_close: bool,
    pub use_prewarmed: bool,
    pub max_retries: Option<usize>,
    pub exclude: Vec<String>,
}

/// Whether a chat of this kind makes media.
pub open spec fn is_media(chat_type: Seq<char>) -> bool {
    chat_type == "t2i"@ || chat_type == "t2v"@
}

impl StreamParams {
    /// Whether these are the parameters of `request`. A prewarmed chat serves
    /// plain text requests only, and none that is bound to an account; media
    /// requests are tried once, since their retries are steered elsewhere.
    pub open spec fn serves(self, request: StandardRequest, image_options: Option<JsonModel>) -> bool {
        &&& self.model@ == request.resolved_model@
        &&& self.content@ == request.prompt@
        &&& self.has_custom_tools == request.has_tools
        &&& json::list_model(self.files@) == json::list_model(request.files@)
        &&& self.chat_type@ == request.chat_type@
        &&& views::option_view(self.image_options) == image_options
        &&& self.thinking_enabled == request.thinking_enabled
        &&& self.enable_search == request.enable_search
        &&& views::option_view(self.fixed_account) == views::option_view(request.bound_account)
        &&& self.existing_chat_id is None
        &&& self.delete_on_close
        &&& self.use_prewarmed == (request.chat_type@ == "t2t"@ && request.bound_account is None)
        &&& self.max_retries == (if is_media(request.chat_type@) {
            Some(1usize)
        } else {
            None
        })
        &&& views::seq_view(self.exclude@) == views::seq_view(request.exclude_accounts@)
    }
}

/// The executor's parameters for a request.
pub fn build_stream_params(request: &StandardRequest, image_options: Option<Json>) -> (r:
    StreamParams)
    ensures
        r.serves(*request, views::option_view(image_options)),
{
    let chat_type: &str = request.chat_type.as_str();
    let use_prewarmed = text::same(chat_type, "t2t") && request.bound_account.is_none();
    let media = text::same(chat_type, "t2i") || text::same(chat_type, "t2v");
    StreamParams {
        model: request.resolved_model.clone(),
        content: request.prompt.clone(),
        has_custom_tools: request.has_tools,
        files: json::clone_list(&request.files),
        chat_type: request.chat_type.clone(),
        image_options,
        thinking_enabled: request.thinking_enabled,
        enable_search: request.enable_search,
        fixed_account: clone_text(&request.bound_account),
        existing_chat_id: None,
        delete_on_close: true,
        use_prewarmed,
        max_retries: if media {
            Some(1)
        } else {
            None
        },
        exclude: text::clone_texts(&request.exclude_accounts),
    }
}

impl StandardRequest {
    /// What the statistics keep of a request; of its caller, only the start.
    pub open spec fn meta(self) -> MetaModel {
        MetaModel {
            surface: self.surface@,
            model: self.response_model@,
            resolved_model: self.resolved_model@,
            chat_type: self.chat_type@,
            stream: self.stream,
            caller: match self.caller {
                Some(caller) => Some(probe::truncated(caller@)),
                None => None,
            },
        }
    }

    /// What the statistics keep of this request.
    pub fn probe_meta(&self) -> (r: ProbeMeta)
        ensures
            r@ == self.meta(),
    {
        ProbeMeta {
            surface: self.surface.clone(),
            model: self.response_model.clone(),
            resolved_model: self.resolved_model.clone(),
            chat_type: self.chat_type.clone(),
            stream: self.stream,
            caller: match &self.caller {
                Some(caller) => Some(probe::truncate_caller(caller.as_str())),
                None => None,
            },
        }
    }
}

/// Begins a completion at `start_ms`: its state, and what to ask the executor
/// for.
pub fn begin_completion(request: &StandardRequest, start_ms: i64) -> (r: (Completion, StreamParams))
    ensures
        r.0@ == CompletionModel::started(
            request.has_tools,
            request.prompt@,
            request.meta(),
            start_ms,
        ),
        r.1.serves(*request, views::option_view(request.image_options)),
{
    let image_options: Option<Json> = match &request.image_options {
        Some(options) => Some(options.clone()),
        None => None,
    };
    let params = build_stream_params(request, image_options);
    let completion = Completion::new(
        request.has_tools,
        request.prompt.as_str(),
        request.probe_meta(),
        start_ms,
    );
    (completion, params)
}

/// A request whose files belong to an account never uses a prewarmed chat, and
/// goes through that account.
pub proof fn law_bound_request_keeps_its_account(
    request: StandardRequest,
    image_options: Option<JsonModel>,
    params: StreamParams,
)
    requires
        params.serves(request, image_options),
        request.bound_account is Some,
    ensures
        !params.use_prewarmed,
        params.fixed_account is Some,
        params.fixed_account->0@ == request.bound_account->0@,
{
}

/// The executor is asked for what the request says. A prewarmed chat is used
/// exactly for text requests that are bound to no account, media requests are
/// tried once, and the chat is a new one that is deleted afterwards.
pub proof fn law_executor_is_asked_for_the_request(
    request: StandardRequest,
    image_options: Option<JsonModel>,
    params: StreamParams,
)
    requires
        params.serves(request, image_options),
    ensures
        params.model@ == request.resolved_model@,
        params.content@ == request.prompt@,
        params.has_custom_tools == request.has_tools,
        params.chat_type@ == request.chat_type@,
        params.thinking_enabled == request.thinking_enabled,
        params.enable_search == request.enable_search,
        params.use_prewarmed <==> request.chat_type@ == "t2t"@ && request.bound_account is None,
        request.chat_type@ == "t2i"@ || request.chat_type@ == "t2v"@ ==> params.max_retries == Some(
            1usize,
        ),
        request.chat_type@ != "t2i"@ && request.chat_type@ != "t2v"@ ==> params.max_retries is None,
        params.fixed_account is Some <==> request.bound_account is Some,
        params.fixed_account is Some ==> params.fixed_account->0@ == request.bound_account->0@,
        params.existing_chat_id is None,
        params.delete_on_close,
        params.image_options is Some <==> image_options is Some,
        params.image_options is Some ==> params.image_options->0@ == image_options->0,
        params.files@.len() == request.files@.len(),
        forall|i: int|
            0 <= i < request.files@.len() ==> (#[trigger] params.files@[i])@ == request.files@[i]@,
        params.exclude@.len() == request.exclude_accounts@.len(),
        forall|i: int|
            0 <= i < request.exclude_accounts@.len() ==> (#[trigger] params.exclude@[i])@
                == request.exclude_accounts@[i]@,
{
    json::lemma_list_index(params.files@);
    json::lemma_list_index(request.files@);
    assert forall|i: int| 0 <= i < request.files@.len() implies (#[trigger] params.files@[i])@
        == request.files@[i]@ by {
        assert(json::list_model(params.files@)[i] == params.files@[i].model());
        assert(json::list_model(request.files@)[i] == request.files@[i].model());
    }
    let kept = views::seq_view(params.exclude@);
    let given = views::seq_view(request.exclude_accounts@);
    assert(kept.len() == params.exclude@.len() && given.len() == request.exclude_accounts@.len());
    assert forall|i: int| 0 <= i < request.exclude_accounts@.len() implies (
    #[trigger] params.exclude@[i])@ == request.exclude_accounts@[i]@ by {
        assert(kept[i] == params.exclude@[i]@);
        assert(given[i] == request.exclude_accounts@[i]@);
    }
}

/// The statistics name the model that the client asked for and the one that it
/// stands for, and keep at most the first twelve characters of the caller.
pub proof fn law_statistics_keep_what_was_asked_for(request: StandardRequest)
    ensures
        request.meta().surface == request.surface@,
        request.meta().model == request.response_model@,
        request.meta().resolved_model == request.resolved_model@,
        request.meta().chat_type == request.chat_type@,
        request.meta().stream == request.stream,
        request.meta().caller is Some <==> request.caller is Some,
        request.caller is Some && request.caller->0@.len() <= 12 ==> request.meta().caller == Some(
            request.caller->0@,
        ),
        request.caller is Some && request.caller->0@.len() > 12 ==> request.meta().caller == Some(
            request.caller->0@.take(12).push('…'),
        ),
{
    if let Some(caller) = request.caller {
        probe::law_twelve_characters_of_a_caller_are_kept(caller@);
    }
}

} // verus!
