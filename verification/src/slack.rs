//! What Slack sends to the service and what it answers when asked.
use vstd::prelude::*;
use crate::http::{
    body_of, decimal, pairs, push_pair, to_decimal, Credential, Failure, Method, Reply, Request,
    RequestView,
};

verus! {

/// What a reaction was put on.
#[derive(Debug, PartialEq, Eq)]
pub enum SlackItem {
    Message { channel: String, ts: String },
    Other,
}

/// A `SlackItem` as plain sequences of characters.
pub enum SlackItemView {
    Message { channel: Seq<char>, ts: Seq<char> },
    Other,
}

impl View for SlackItem {
    type V = SlackItemView;

    open spec fn view(&self) -> SlackItemView {
        match self {
            SlackItem::Message { channel, ts } => SlackItemView::Message {
                channel: channel@,
                ts: ts@,
            },
            SlackItem::Other => SlackItemView::Other,
        }
    }
}

/// An event in a workspace: a reaction put on something, a mention of the
/// service, or any other kind, which the service lets pass.
#[derive(Debug, PartialEq, Eq)]
pub enum SlackEvent {
    ReactionAdded { user: String, reaction: String, item: SlackItem },
    AppMention { user: String, text: String, channel: String },
    Other,
}

/// A `SlackEvent` as plain sequences of characters.
pub enum SlackEventView {
    ReactionAdded { user: Seq<char>, reaction: Seq<char>, item: SlackItemView },
    AppMention { user: Seq<char>, text: Seq<char>, channel: Seq<char> },
    Other,
}

impl View for SlackEvent {
    type V = SlackEventView;

    open spec fn view(&self) -> SlackEventView {
        match self {
            SlackEvent::ReactionAdded { user, reaction, item } => SlackEventView::ReactionAdded {
                user: user@,
                reaction: reaction@,
                item: item@,
            },
            SlackEvent::AppMention { user, text, channel } => SlackEventView::AppMention {
                user: user@,
                text: text@,
                channel: channel@,
            },
            SlackEvent::Other => SlackEventView::Other,
        }
    }
}

/// One delivery to the events endpoint: the challenge by which Slack checks
/// the endpoint, an event, or something that is neither.
#[derive(Debug, PartialEq, Eq)]
pub enum SlackRequest {
    UrlVerification { challenge: String },
    EventCallback { event: SlackEvent },
    Other,
}

/// A `SlackRequest` as plain sequences of characters.
pub enum SlackRequestView {
    UrlVerification { challenge: Seq<char> },
    EventCallback { event: SlackEventView },
    Other,
}

impl View for SlackRequest {
    type V = SlackRequestView;

    open spec fn view(&self) -> SlackRequestView {
        match self {
            SlackRequest::UrlVerification { challenge } => SlackRequestView::UrlVerification {
                challenge: challenge@,
            },
            SlackRequest::EventCallback { event } => SlackRequestView::EventCallback {
                event: event@,
            },
            SlackRequest::Other => SlackRequestView::Other,
        }
    }
}

/// A message in a channel: who wrote it, what it says, and the time stamp
/// that names it within the channel. The time stamp is kept as Slack wrote
/// it.
#[derive(Debug, PartialEq, Eq)]
pub struct SlackMessage {
    pub user: String,
    pub text: String,
    pub ts: String,
}

/// A `SlackMessage` as plain sequences of characters.
pub struct SlackMessageView {
    pub user: Seq<char>,
    pub text: Seq<char>,
    pub ts: Seq<char>,
}

impl View for SlackMessage {
    type V = SlackMessageView;

    open spec fn view(&self) -> SlackMessageView {
        SlackMessageView { user: self.user@, text: self.text@, ts: self.ts@ }
    }
}

/// A member of a workspace.
#[derive(Debug, PartialEq, Eq)]
pub struct SlackUser {
    pub id: String,
    pub name: String,
    pub team_id: String,
}

/// A `SlackUser` as plain sequences of characters.
pub struct SlackUserView {
    pub id: Seq<char>,
    pub name: Seq<char>,
    pub team_id: Seq<char>,
}

impl View for SlackUser {
    type V = SlackUserView;

    open spec fn view(&self) -> SlackUserView {
        SlackUserView { id: self.id@, name: self.name@, team_id: self.team_id@ }
    }
}

/// Why a call to Slack gave nothing: the call itself failed, or its answer
/// could not be read.
#[derive(Debug, Clone, Copy, PartialEq, Eq, Structural)]
pub enum SlackClientError {
    ApiError,
    JsonError,
}

impl SlackClientError {
    /// The error in words.
    pub open spec fn words(self) -> Seq<char> {
        match self {
            SlackClientError::ApiError => "api error"@,
            SlackClientError::JsonError => "json parse error"@,
        }
    }

    /// The error in words.
    pub fn message(&self) -> (text: String)
        ensures
            text@ == self.words(),
    {
        match self {
            SlackClientError::ApiError => "api error".to_string(),
            SlackClientError::JsonError => "json parse error".to_string(),
        }
    }
}

/// The error that stands for `failure` in a call to Slack.
pub open spec fn slack_error(failure: Failure) -> SlackClientError {
    match failure {
        Failure::Refused => SlackClientError::ApiError,
        Failure::Unreadable => SlackClientError::JsonError,
    }
}

/// The error that stands for `failure` in a call to Slack.
pub fn slack_error_of(failure: Failure) -> (error: SlackClientError)
    ensures
        error == slack_error(failure),
{
    match failure {
        Failure::Refused => SlackClientError::ApiError,
        Failure::Unreadable => SlackClientError::JsonError,
    }
}

/// The call that posts `text` in `channel`.
pub open spec fn post_message_call(channel: Seq<char>, text: Seq<char>) -> RequestView {
    RequestView {
        method: Method::Post,
        url: "https://slack.com/api/chat.postMessage"@,
        credential: Credential::Slack,
        headers: seq![("Content-Type"@, "application/json"@)],
        query: Seq::empty(),
        json: seq![("channel"@, channel), ("text"@, text)],
    }
}

/// The call that asks for the `count` latest messages of `channel` up to the
/// one with the time stamp `ts`, that one included.
pub open spec fn get_messages_call(channel: Seq<char>, ts: Seq<char>, count: u32) -> RequestView {
    RequestView {
        method: Method::Get,
        url: "https://slack.com/api/conversations.history"@,
        credential: Credential::Slack,
        headers: Seq::empty(),
        query: seq![
            ("channel"@, channel),
            ("latest"@, ts),
            ("limit"@, decimal(count as nat)),
            ("inclusive"@, "true"@),
        ],
        json: Seq::empty(),
    }
}

/// The call that asks who `user` is.
pub open spec fn get_user_info_call(user: Seq<char>) -> RequestView {
    RequestView {
        method: Method::Get,
        url: "https://slack.com/api/users.info"@,
        credential: Credential::Slack,
        headers: Seq::empty(),
        query: seq![("user"@, user)],
        json: Seq::empty(),
    }
}

/// The call that asks for a lasting link to the message `ts` of `channel`.
pub open spec fn get_permalink_call(channel: Seq<char>, ts: Seq<char>) -> RequestView {
    RequestView {
        method: Method::Get,
        url: "https://slack.com/api/chat.getPermalink"@,
        credential: Credential::Slack,
        headers: Seq::empty(),
        query: seq![("channel"@, channel), ("message_ts"@, ts)],
        json: Seq::empty(),
    }
}

/// Makes the call that posts `text` in `channel`.
pub fn post_message(channel: &str, text: &str) -> (request: Request)
    ensures
        request@ == post_message_call(channel@, text@),
{
    let mut headers: Vec<(String, String)> = Vec::new();
    push_pair(&mut headers, "Content-Type", "application/json");
    let mut json: Vec<(String, String)> = Vec::new();
    push_pair(&mut json, "channel", channel);
    push_pair(&mut json, "text", text);
    let request = Request {
        method: Method::Post,
        url: "https://slack.com/api/chat.postMessage".to_string(),
        credential: Credential::Slack,
        headers,
        query: Vec::new(),
        json,
    };
    assert(request@.query =~= post_message_call(channel@, text@).query);
    assert(request@.json =~= post_message_call(channel@, text@).json);
    request
}

/// Makes the call that asks for the messages of `channel` up to `ts`.
pub fn get_messages(channel: &str, ts: &str, count: u32) -> (request: Request)
    ensures
        request@ == get_messages_call(channel@, ts@, count),
{
    let limit = to_decimal(count);
    let mut query: Vec<(String, String)> = Vec::new();
    push_pair(&mut query, "channel", channel);
    push_pair(&mut query, "latest", ts);
    push_pair(&mut query, "limit", limit.as_str());
    push_pair(&mut query, "inclusive", "true");
    let request = Request {
        method: Method::Get,
        url: "https://slack.com/api/conversations.history".to_string(),
        credential: Credential::Slack,
        headers: Vec::new(),
        query,
        json: Vec::new(),
    };
    assert(request@.query =~= get_messages_call(channel@, ts@, count).query);
    assert(request@.json =~= get_messages_call(channel@, ts@, count).json);
    request
}

/// Makes the call that asks who `user` is.
pub fn get_user_info(user: &str) -> (request: Request)
    ensures
        request@ == get_user_info_call(user@),
{
    let mut query: Vec<(String, String)> = Vec::new();
    push_pair(&mut query, "user", user);
    let request = Request {
        method: Method::Get,
        url: "https://slack.com/api/users.info".to_string(),
        credential: Credential::Slack,
        headers: Vec::new(),
        query,
        json: Vec::new(),
    };
    assert(request@.json =~= get_user_info_call(user@).json);
    request
}

/// Makes the call that asks for a lasting link to a message.
pub fn get_permalink(channel: &str, ts: &str) -> (request: Request)
    ensures
        request@ == get_permalink_call(channel@, ts@),
{
    let mut query: Vec<(String, String)> = Vec::new();
    push_pair(&mut query, "channel", channel);
    push_pair(&mut query, "message_ts", ts);
    let request = Request {
        method: Method::Get,
        url: "https://slack.com/api/chat.getPermalink".to_string(),
        credential: Credential::Slack,
        headers: Vec::new(),
        query,
        json: Vec::new(),
    };
    assert(request@.query =~= get_permalink_call(channel@, ts@).query);
    assert(request@.json =~= get_permalink_call(channel@, ts@).json);
    request
}

/// The user that a reply to `get_user_info` holds: the body of a reply that
/// went well; an `ApiError` where Slack could not be reached or refused, a
/// `JsonError` where the body could not be read.
pub fn user_info_of(reply: Reply<SlackUser>) -> (user: Result<SlackUser, SlackClientError>)
    ensures
        user == match reply {
            Reply::Answered { status, body: Some(u) } if 200 <= status < 300 => Ok::<
                SlackUser,
                SlackClientError,
            >(u),
            Reply::Answered { status, body: None } if 200 <= status < 300 => Err(
                SlackClientError::JsonError,
            ),
            _ => Err(SlackClientError::ApiError),
        },
{
    match body_of(reply) {
        Ok(u) => Ok(u),
        Err(failure) => Err(slack_error_of(failure)),
    }
}

/// The link that a reply to `get_permalink` holds, on the terms of
/// `user_info_of`.
pub fn permalink_of(reply: Reply<String>) -> (link: Result<String, SlackClientError>)
    ensures
        link == match reply {
            Reply::Answered { status, body: Some(l) } if 200 <= status < 300 => Ok::<
                String,
                SlackClientError,
            >(l),
            Reply::Answered { status, body: None } if 200 <= status < 300 => Err(
                SlackClientError::JsonError,
            ),
            _ => Err(SlackClientError::ApiError),
        },
{
    match body_of(reply) {
        Ok(l) => Ok(l),
        Err(failure) => Err(slack_error_of(failure)),
    }
}

/// The messages that a reply to `get_messages` holds, in the order in which
/// Slack gave them: the body of a reply that went well. Any other reply is a
/// failure, and no more is told of it.
pub fn messages_of(reply: Reply<Vec<SlackMessage>>) -> (messages: Result<Vec<SlackMessage>, ()>)
    ensures
        messages == match reply {
            Reply::Answered { status, body: Some(m) } if 200 <= status < 300 => Ok::<
                Vec<SlackMessage>,
                (),
            >(m),
            _ => Err(()),
        },
{
    match body_of(reply) {
        Ok(m) => Ok(m),
        Err(_) => Err(()),
    }
}

/// Whether a reply to `post_message` says that the message was taken: a
/// reply with a status from 200 to 299 does, whatever its body.
pub fn posted_of<T>(reply: Reply<T>) -> (posted: Result<(), ()>)
    ensures
        posted is Ok <==> (reply matches Reply::Answered { status, .. } && 200 <= status < 300),
{
    match reply {
        Reply::Unreachable => Err(()),
        Reply::Answered { status, body } => if 200 <= status && status < 300 {
            Ok(())
        } else {
            Err(())
        },
    }
}

} // verus!
