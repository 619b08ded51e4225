//! The conversation state: the ordered message history, the sending flag,
//! the last error, and the running cost total.
//!
//! The history is append-only except for the open assistant message, the
//! last message while a send is in flight, which cumulative stream
//! updates overwrite in place. A new send is rejected while one is
//! outstanding.

use vstd::prelude::*;

use crate::aggregate::stream_error_token;
use crate::aggregate::StreamingDelta;
use crate::aggregate::StreamingDeltaModel;
use crate::api::ExtractedResponse;
use crate::api::ExtractedResponseModel;
use crate::api::Message;
use crate::api::MessageModel;
use crate::api::ResponseUsage;
use crate::api::Role;
use crate::estimate::spec_usage_cost;
use crate::estimate::usage_as_cost;
use crate::price::ModelPricing;
use crate::price::ModelPricingModel;
use crate::text::spec_trim;
use crate::text::starts_with_seq;
use crate::text::str_starts_with;
use crate::text::trim_str;

verus! {

/// Spec model of a `ConversationState`.
pub struct ConversationModel {
    pub messages: Seq<MessageModel>,
    pub is_sending: bool,
    pub error: Option<Seq<char>>,
    pub total_cost_micros: u128,
}

/// The greeting the conversation opens with.
pub open spec fn spec_greeting() -> Seq<char> {
    "How can I help you?"@
}

/// The state a fresh conversation starts in: one assistant greeting, no
/// send in flight, no error, nothing spent.
pub open spec fn spec_initial_conversation() -> ConversationModel {
    ConversationModel {
        messages: seq![MessageModel { role: Role::Assistant, content: spec_greeting() }],
        is_sending: false,
        error: None,
        total_cost_micros: 0,
    }
}

/// A send of `input` is accepted only when the input is not blank and no
/// send is outstanding.
pub open spec fn spec_can_send(m: ConversationModel, input: Seq<char>) -> bool {
    spec_trim(input).len() > 0 && !m.is_sending
}

/// An accepted send appends the user message and an empty open assistant
/// message, clears the error, and marks the conversation as sending.
pub open spec fn spec_begin_send(m: ConversationModel, input: Seq<char>) -> ConversationModel {
    ConversationModel {
        messages: m.messages.push(MessageModel { role: Role::User, content: input }).push(
            MessageModel { role: Role::Assistant, content: Seq::empty() },
        ),
        is_sending: true,
        error: None,
        total_cost_micros: m.total_cost_micros,
    }
}

/// The running total after adding one optional usage priced by one
/// optional pricing row; saturates rather than wraps.
pub open spec fn spec_add_usage_cost(
    total: u128,
    usage: Option<ResponseUsage>,
    pricing: Option<ModelPricingModel>,
) -> u128 {
    match (usage, pricing) {
        (Some(u), Some(p)) => match spec_usage_cost(u, p) {
            Some(v) => if total + v <= u128::MAX {
                (total + v) as u128
            } else {
                u128::MAX
            },
            None => total,
        },
        _ => total,
    }
}

/// How one delivered update advances the conversation: a sentinel-marked
/// content becomes the error text; otherwise it replaces the open
/// assistant message's content; delivered usage is added to the running
/// total in those cases; a terminal update clears the sending flag.
pub open spec fn spec_apply_update(
    m: ConversationModel,
    d: StreamingDeltaModel,
    pricing: Option<ModelPricingModel>,
) -> ConversationModel {
    let stepped = if starts_with_seq(d.content, stream_error_token()) {
        ConversationModel {
            error: Some(d.content),
            total_cost_micros: spec_add_usage_cost(m.total_cost_micros, d.usage, pricing),
            ..m
        }
    } else if m.messages.len() > 0 && m.messages.last().role == Role::Assistant {
        ConversationModel {
            messages: m.messages.update(
                m.messages.len() - 1,
                MessageModel { role: Role::Assistant, content: d.content },
            ),
            total_cost_micros: spec_add_usage_cost(m.total_cost_micros, d.usage, pricing),
            ..m
        }
    } else {
        m
    };
    if d.is_complete {
        ConversationModel { is_sending: false, ..stepped }
    } else {
        stepped
    }
}

/// How one aggregated non-streaming response advances the conversation:
/// a successful response is appended as an assistant message and its
/// usage priced into the total; a failure becomes the error text; either
/// way the send is over.
pub open spec fn spec_apply_response(
    m: ConversationModel,
    response: Result<ExtractedResponseModel, Seq<char>>,
    pricing: Option<ModelPricingModel>,
) -> ConversationModel {
    let stepped = match response {
        Ok(resp) => ConversationModel {
            messages: m.messages.push(
                MessageModel { role: Role::Assistant, content: resp.content },
            ),
            total_cost_micros: spec_add_usage_cost(m.total_cost_micros, Some(resp.usage), pricing),
            ..m
        },
        Err(e) => ConversationModel {
            error: Some("Failed to get valid response: "@ + e),
            ..m
        },
    };
    ConversationModel { is_sending: false, ..stepped }
}

/// The ordered message history, the sending flag, the last error and the
/// running cost total of one conversation.
pub struct ConversationState {
    messages: Vec<Message>,
    is_sending: bool,
    error: Option<String>,
    total_cost_micros: u128,
}

impl DeepView for ConversationState {
    type V = ConversationModel;

    closed spec fn deep_view(&self) -> ConversationModel {
        ConversationModel {
            messages: self.messages.deep_view(),
            is_sending: self.is_sending,
            error: self.error.deep_view(),
            total_cost_micros: self.total_cost_micros,
        }
    }
}

impl ConversationState {
    /// A fresh conversation, opening with the assistant greeting.
    pub fn new() -> (r: ConversationState)
        ensures
            r.deep_view() == spec_initial_conversation(),
    {
        let mut messages: Vec<Message> = Vec::new();
        messages.push(Message { role: Role::Assistant, content: "How can I help you?".to_owned() });
        let r = ConversationState { messages, is_sending: false, error: None, total_cost_micros: 0 };
        proof {
            assert(r.deep_view().messages =~= spec_initial_conversation().messages);
        }
        r
    }

    /// The message history.
    pub fn messages(&self) -> (r: &Vec<Message>)
        ensures
            r.deep_view() == self.deep_view().messages,
    {
        &self.messages
    }

    /// Whether a send is outstanding.
    pub fn is_sending(&self) -> (r: bool)
        ensures
            r == self.deep_view().is_sending,
    {
        self.is_sending
    }

    /// The last error shown to the user, if any.
    pub fn error(&self) -> (r: &Option<String>)
        ensures
            r.deep_view() == self.deep_view().error,
    {
        &self.error
    }

    /// The running cost total, in micro-dollars.
    pub fn total_cost_micros(&self) -> (r: u128)
        ensures
            r == self.deep_view().total_cost_micros,
    {
        self.total_cost_micros
    }

    /// Starts a send of `input` if none is outstanding and the input is
    /// not blank; a rejected send leaves the conversation untouched.
    pub fn begin_send(&mut self, input: &str) -> (accepted: bool)
        ensures
            accepted == spec_can_send(old(self).deep_view(), input@),
            !accepted ==> final(self).deep_view() == old(self).deep_view(),
            accepted ==> final(self).deep_view() == spec_begin_send(old(self).deep_view(), input@),
    {
        let trimmed = trim_str(input);
        if trimmed.unicode_len() == 0 || self.is_sending {
            return false;
        }
        let ghost pre = self.deep_view();
        self.messages.push(Message { role: Role::User, content: input.to_owned() });
        self.messages.push(Message { role: Role::Assistant, content: String::new() });
        self.error = None;
        self.is_sending = true;
        proof {
            assert(self.deep_view().messages =~= spec_begin_send(pre, input@).messages);
        }
        true
    }

    /// Applies one delivered update, in the sense of `spec_apply_update`.
    pub fn apply_update(&mut self, delta: &StreamingDelta, pricing: Option<&ModelPricing>)
        ensures
            final(self).deep_view() == spec_apply_update(
                old(self).deep_view(),
                delta.deep_view(),
                pricing.deep_view(),
            ),
    {
        let ghost pre = self.deep_view();
        if str_starts_with(delta.content.as_str(), "Err\u{274}r:") {
            self.error = Some(delta.content.clone());
            self.add_usage_cost(delta.usage, pricing);
        } else {
            let n = self.messages.len();
            if n > 0 && matches!(self.messages[n - 1].role, Role::Assistant) {
                let mut open_message = self.messages.pop().unwrap();
                open_message.content = delta.content.clone();
                self.messages.push(open_message);
                self.add_usage_cost(delta.usage, pricing);
                proof {
                    assert(self.deep_view().messages =~= pre.messages.update(
                        pre.messages.len() - 1,
                        MessageModel { role: Role::Assistant, content: delta.content@ },
                    ));
                }
            }
        }
        if delta.is_complete {
            self.is_sending = false;
        }
    }

    /// Applies one aggregated non-streaming response, in the sense of
    /// `spec_apply_response`.
    pub fn apply_response(
        &mut self,
        response: Result<ExtractedResponse, String>,
        pricing: Option<&ModelPricing>,
    )
        ensures
            final(self).deep_view() == spec_apply_response(
                old(self).deep_view(),
                (match response {
                    Ok(resp) => Ok(resp.deep_view()),
                    Err(e) => Err(e@),
                }),
                pricing.deep_view(),
            ),
    {
        let ghost pre = self.deep_view();
        match response {
            Ok(resp) => {
                let usage = resp.usage;
                self.messages.push(Message { role: Role::Assistant, content: resp.content });
                self.add_usage_cost(Some(usage), pricing);
                proof {
                    assert(self.deep_view().messages =~= pre.messages.push(
                        MessageModel { role: Role::Assistant, content: resp.content@ },
                    ));
                }
            },
            Err(e) => {
                let mut text = "Failed to get valid response: ".to_owned();
                text.append(e.as_str());
                self.error = Some(text);
            },
        }
        self.is_sending = false;
    }

    /// Adds one optional priced usage to the running total, saturating.
    fn add_usage_cost(&mut self, usage: Option<ResponseUsage>, pricing: Option<&ModelPricing>)
        ensures
            final(self).deep_view() == (ConversationModel {
                total_cost_micros: spec_add_usage_cost(
                    old(self).deep_view().total_cost_micros,
                    usage,
                    pricing.deep_view(),
                ),
                ..old(self).deep_view()
            }),
    {
        if let (Some(u), Some(p)) = (usage, pricing) {
            match usage_as_cost(&u, p) {
                Some(v) => {
                    self.total_cost_micros = match self.total_cost_micros.checked_add(v) {
                        Some(t) => t,
                        None => u128::MAX,
                    };
                },
                None => {},
            }
        }
    }
}

} // verus!
