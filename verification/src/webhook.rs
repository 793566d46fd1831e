//! The service's answer to a delivery from Slack, one step at a time.
//!
//! The service itself calls nobody. It says which effect comes next; its host
//! performs the effect and hands back what came of it. A delivery is done
//! with the effect that answers Slack.
use vstd::prelude::*;
use crate::github::{GithubClientError, Issue};
use crate::models::{ReactionPattern, ReactionPatternView};
use crate::render::{
    all_found, authors_besides, confirmation, directory, directory_of, issue_body, issue_title,
    join_users, lookup_views, other_authors,
    mention_reply, message_views, render_body, render_confirmation, render_mention_reply,
    render_title, texts, user_views,
};
use crate::slack::{
    SlackClientError, SlackEvent, SlackEventView, SlackItem, SlackItemView, SlackMessage,
    SlackMessageView, SlackRequest, SlackRequestView, SlackUser, SlackUserView,
};
use crate::text::same_text;

verus! {

/// How many messages an issue shows: the one reacted to and those before it.
pub const CONTEXT_MESSAGES: u32 = 3;

/// The header in which Slack says why it delivers again.
pub const RETRY_REASON_HEADER: &'static str = "X-Slack-Retry-Reason";

/// The answer to a delivery.
#[derive(Debug, PartialEq, Eq)]
pub enum Response {
    Success { body: String },
    BadRequest,
    InternalError { reason: String },
}

/// A `Response` as plain sequences of characters.
pub enum ResponseView {
    Success { body: Seq<char> },
    BadRequest,
    InternalError { reason: Seq<char> },
}

impl View for Response {
    type V = ResponseView;

    open spec fn view(&self) -> ResponseView {
        match self {
            Response::Success { body } => ResponseView::Success { body: body@ },
            Response::BadRequest => ResponseView::BadRequest,
            Response::InternalError { reason } => ResponseView::InternalError { reason: reason@ },
        }
    }
}

impl Response {
    /// The status that goes with the answer: 200, 400 or 500.
    pub open spec fn status_code(self) -> u16 {
        match self {
            Response::Success { .. } => 200,
            Response::BadRequest => 400,
            Response::InternalError { .. } => 500,
        }
    }

    /// What the answer says: the body of a success, the reason of an
    /// internal error, nothing for a bad request.
    pub open spec fn text(self) -> Seq<char> {
        match self {
            Response::Success { body } => body@,
            Response::BadRequest => Seq::empty(),
            Response::InternalError { reason } => reason@,
        }
    }

    /// The status that goes with the answer.
    pub fn status(&self) -> (code: u16)
        ensures
            code == self.status_code(),
    {
        match self {
            Response::Success { .. } => 200,
            Response::BadRequest => 400,
            Response::InternalError { .. } => 500,
        }
    }

    /// What the answer says.
    pub fn into_body(self) -> (body: String)
        ensures
            body@ == self.text(),
    {
        match self {
            Response::Success { body } => body,
            Response::BadRequest => String::new(),
            Response::InternalError { reason } => reason,
        }
    }
}

/// What the host is to do next.
#[derive(Debug, PartialEq, Eq)]
pub enum Effect {
    /// Answer Slack. Nothing follows.
    Respond { response: Response },
    /// Ask Slack who `user` is.
    GetUserInfo { user: String },
    /// Ask the configuration which pattern a team has for a reaction.
    FindPattern { team_id: String, channel: String, reaction: String },
    /// Ask Slack for the `count` latest messages of `channel` up to `ts`,
    /// that one included.
    GetMessages { channel: String, ts: String, count: u32 },
    /// Ask Slack for a lasting link to the message `ts` of `channel`.
    GetPermalink { channel: String, ts: String },
    /// Ask Slack who each of `users` is, and wait for every answer.
    GetUsers { users: Vec<String> },
    /// File an issue in `repo`.
    CreateIssue { repo: String, title: String, body: String },
    /// Post `text` in `channel`.
    PostMessage { channel: String, text: String },
}

/// An `Effect` as plain values.
pub enum EffectView {
    Respond { response: ResponseView },
    GetUserInfo { user: Seq<char> },
    FindPattern { team_id: Seq<char>, channel: Seq<char>, reaction: Seq<char> },
    GetMessages { channel: Seq<char>, ts: Seq<char>, count: u32 },
    GetPermalink { channel: Seq<char>, ts: Seq<char> },
    GetUsers { users: Seq<Seq<char>> },
    CreateIssue { repo: Seq<char>, title: Seq<char>, body: Seq<char> },
    PostMessage { channel: Seq<char>, text: Seq<char> },
}

impl View for Effect {
    type V = EffectView;

    open spec fn view(&self) -> EffectView {
        match self {
            Effect::Respond { response } => EffectView::Respond { response: response@ },
            Effect::GetUserInfo { user } => EffectView::GetUserInfo { user: user@ },
            Effect::FindPattern { team_id, channel, reaction } => EffectView::FindPattern {
                team_id: team_id@,
                channel: channel@,
                reaction: reaction@,
            },
            Effect::GetMessages { channel, ts, count } => EffectView::GetMessages {
                channel: channel@,
                ts: ts@,
                count: *count,
            },
            Effect::GetPermalink { channel, ts } => EffectView::GetPermalink {
                channel: channel@,
                ts: ts@,
            },
            Effect::GetUsers { users } => EffectView::GetUsers { users: texts(users@) },
            Effect::CreateIssue { repo, title, body } => EffectView::CreateIssue {
                repo: repo@,
                title: title@,
                body: body@,
            },
            Effect::PostMessage { channel, text } => EffectView::PostMessage {
                channel: channel@,
                text: text@,
            },
        }
    }
}

/// What came of an effect.
#[derive(Debug, PartialEq, Eq)]
pub enum Outcome {
    UserInfo { user: Result<SlackUser, SlackClientError> },
    /// The pattern found, none where nothing is configured, or why the
    /// configuration could not be read.
    Pattern { pattern: Result<Option<ReactionPattern>, String> },
    Messages { messages: Result<Vec<SlackMessage>, ()> },
    Permalink { permalink: Result<String, SlackClientError> },
    /// What came of each lookup, in the order in which the users were named.
    Users { users: Vec<Result<SlackUser, SlackClientError>> },
    Issue { issue: Result<Issue, GithubClientError> },
    Posted { posted: Result<(), ()> },
}

/// An `Outcome` as plain values.
pub enum OutcomeView {
    UserInfo { user: Result<SlackUserView, SlackClientError> },
    Pattern { pattern: Result<Option<ReactionPatternView>, Seq<char>> },
    Messages { messages: Result<Seq<SlackMessageView>, ()> },
    Permalink { permalink: Result<Seq<char>, SlackClientError> },
    Users { users: Seq<Result<SlackUserView, SlackClientError>> },
    Issue { url: Result<Seq<char>, GithubClientError> },
    Posted { posted: Result<(), ()> },
}

impl View for Outcome {
    type V = OutcomeView;

    open spec fn view(&self) -> OutcomeView {
        match self {
            Outcome::UserInfo { user } => OutcomeView::UserInfo {
                user: match user {
                    Ok(u) => Ok(u@),
                    Err(e) => Err(*e),
                },
            },
            Outcome::Pattern { pattern } => OutcomeView::Pattern {
                pattern: match pattern {
                    Ok(Some(p)) => Ok(Some(p@)),
                    Ok(None) => Ok(None),
                    Err(reason) => Err(reason@),
                },
            },
            Outcome::Messages { messages } => OutcomeView::Messages {
                messages: match messages {
                    Ok(m) => Ok(message_views(m@)),
                    Err(_) => Err(()),
                },
            },
            Outcome::Permalink { permalink } => OutcomeView::Permalink {
                permalink: match permalink {
                    Ok(link) => Ok(link@),
                    Err(e) => Err(*e),
                },
            },
            Outcome::Users { users } => OutcomeView::Users { users: lookup_views(users@) },
            Outcome::Issue { issue } => OutcomeView::Issue {
                url: match issue {
                    Ok(i) => Ok(i.html_url@),
                    Err(e) => Err(*e),
                },
            },
            Outcome::Posted { posted } => OutcomeView::Posted { posted: *posted },
        }
    }
}

/// How far the service has come with a delivery, and what it keeps for the
/// steps to come.
#[derive(Debug, PartialEq, Eq)]
pub enum State {
    /// Asked who reacted.
    AwaitingActor { reaction: String, item: SlackItem },
    /// Asked for the pattern of the actor's team.
    AwaitingPattern { actor: SlackUser, item: SlackItem },
    /// Asked for the messages around the one reacted to.
    AwaitingMessages { actor: SlackUser, repo: String, channel: String, ts: String },
    /// Asked for the link to the message reacted to.
    AwaitingPermalink {
        actor: SlackUser,
        repo: String,
        channel: String,
        messages: Vec<SlackMessage>,
    },
    /// Asked who wrote the messages, but for the actor, who is known.
    AwaitingAuthors {
        actor: SlackUser,
        repo: String,
        channel: String,
        messages: Vec<SlackMessage>,
        permalink: String,
    },
    /// Asked for the issue to be filed; `mention` is the actor's name.
    AwaitingIssue { mention: String, channel: String },
    /// Asked for a message to be posted; its fate is the answer to Slack.
    AwaitingDelivery,
    /// Slack has its answer.
    Finished,
}

/// A `State` as plain values.
pub enum StateView {
    AwaitingActor { reaction: Seq<char>, item: SlackItemView },
    AwaitingPattern { actor: SlackUserView, item: SlackItemView },
    AwaitingMessages { actor: SlackUserView, repo: Seq<char>, channel: Seq<char>, ts: Seq<char> },
    AwaitingPermalink {
        actor: SlackUserView,
        repo: Seq<char>,
        channel: Seq<char>,
        messages: Seq<SlackMessageView>,
    },
    AwaitingAuthors {
        actor: SlackUserView,
        repo: Seq<char>,
        channel: Seq<char>,
        messages: Seq<SlackMessageView>,
        permalink: Seq<char>,
    },
    AwaitingIssue { mention: Seq<char>, channel: Seq<char> },
    AwaitingDelivery,
    Finished,
}

impl View for State {
    type V = StateView;

    open spec fn view(&self) -> StateView {
        match self {
            State::AwaitingActor { reaction, item } => StateView::AwaitingActor {
                reaction: reaction@,
                item: item@,
            },
            State::AwaitingPattern { actor, item } => StateView::AwaitingPattern {
                actor: actor@,
                item: item@,
            },
            State::AwaitingMessages { actor, repo, channel, ts } => StateView::AwaitingMessages {
                actor: actor@,
                repo: repo@,
                channel: channel@,
                ts: ts@,
            },
            State::AwaitingPermalink { actor, repo, channel, messages } => {
                StateView::AwaitingPermalink {
                    actor: actor@,
                    repo: repo@,
                    channel: channel@,
                    messages: message_views(messages@),
                }
            },
            State::AwaitingAuthors { actor, repo, channel, messages, permalink } => {
                StateView::AwaitingAuthors {
                    actor: actor@,
                    repo: repo@,
                    channel: channel@,
                    messages: message_views(messages@),
                    permalink: permalink@,
                }
            },
            State::AwaitingIssue { mention, channel } => StateView::AwaitingIssue {
                mention: mention@,
                channel: channel@,
            },
            State::AwaitingDelivery => StateView::AwaitingDelivery,
            State::Finished => StateView::Finished,
        }
    }
}

/// The step that ends a delivery with `response`.
pub open spec fn finish(response: ResponseView) -> (StateView, EffectView) {
    (StateView::Finished, EffectView::Respond { response })
}

/// The step that ends a delivery well, with an empty answer.
pub open spec fn done() -> (StateView, EffectView) {
    finish(ResponseView::Success { body: Seq::empty() })
}

/// The step that ends a delivery with an internal error.
pub open spec fn fail(reason: Seq<char>) -> (StateView, EffectView) {
    finish(ResponseView::InternalError { reason })
}

/// Whether a delivery with this retry reason repeats one that Slack gave up
/// waiting for.
pub open spec fn is_repeat(retry_reason: Option<Seq<char>>) -> bool {
    retry_reason == Some("http_timeout"@)
}

/// The first step for a reaction: ask who reacted.
pub open spec fn reaction_added(user: Seq<char>, reaction: Seq<char>, item: SlackItemView) -> (
    StateView,
    EffectView,
) {
    (StateView::AwaitingActor { reaction, item }, EffectView::GetUserInfo { user })
}

/// The one step for a mention: post the reply.
pub open spec fn app_mention(channel: Seq<char>, text: Seq<char>) -> (StateView, EffectView) {
    (StateView::AwaitingDelivery, EffectView::PostMessage { channel, text: mention_reply(text) })
}

/// The first step for a delivery. `request` is `None` where the body could
/// not be read.
///
/// A repeat is answered at once, whatever it holds. A challenge is answered
/// with itself. An event of a kind that the service does not know is
/// answered and let pass; anything that is no event is a bad request.
pub open spec fn begin(retry_reason: Option<Seq<char>>, request: Option<SlackRequestView>) -> (
    StateView,
    EffectView,
) {
    if is_repeat(retry_reason) {
        done()
    } else {
        match request {
            Some(SlackRequestView::UrlVerification { challenge }) => finish(
                ResponseView::Success { body: challenge },
            ),
            Some(
                SlackRequestView::EventCallback {
                    event: SlackEventView::ReactionAdded { user, reaction, item },
                },
            ) => reaction_added(user, reaction, item),
            Some(
                SlackRequestView::EventCallback {
                    event: SlackEventView::AppMention { user, text, channel },
                },
            ) => app_mention(channel, text),
            Some(SlackRequestView::EventCallback { event: SlackEventView::Other }) => done(),
            _ => finish(ResponseView::BadRequest),
        }
    }
}

/// The channel of the item reacted to; empty where the item is no message.
pub open spec fn channel_of(item: SlackItemView) -> Seq<char> {
    match item {
        SlackItemView::Message { channel, ts } => channel,
        SlackItemView::Other => Seq::empty(),
    }
}

/// The step that follows `state` once `outcome` is known.
///
/// A reaction goes through these steps: who reacted; which pattern the
/// actor's team has for the reaction; the messages around the one reacted
/// to; the link to it; who wrote the messages; the issue; the confirmation.
/// Nobody is looked up twice: the actor is not asked for again among the
/// authors, and where Slack names a user twice the later answer counts.
/// The authors are found all or not at all: one failed lookup fails the
/// delivery, and so does an answer that is not about as many users as were
/// asked for.
/// A reaction without a pattern, or on something that is no message, ends
/// well and files nothing. A link that cannot be had is left empty. Every
/// other failure ends the delivery with an internal error, and so does an
/// outcome that `state` did not ask for.
pub open spec fn next(state: StateView, outcome: OutcomeView) -> (StateView, EffectView) {
    match (state, outcome) {
        (StateView::AwaitingActor { reaction, item }, OutcomeView::UserInfo { user }) => match user {
            Ok(u) => (
                StateView::AwaitingPattern { actor: u, item },
                EffectView::FindPattern { team_id: u.team_id, channel: channel_of(item), reaction },
            ),
            Err(e) => fail(e.words()),
        },
        (StateView::AwaitingPattern { actor, item }, OutcomeView::Pattern { pattern }) => match (
            pattern,
            item,
        ) {
            (Ok(Some(p)), SlackItemView::Message { channel, ts }) => (
                StateView::AwaitingMessages { actor, repo: p.repo, channel, ts },
                EffectView::GetMessages { channel, ts, count: CONTEXT_MESSAGES },
            ),
            (Ok(_), _) => done(),
            (Err(reason), _) => fail(reason),
        },
        (
            StateView::AwaitingMessages { actor, repo, channel, ts },
            OutcomeView::Messages { messages },
        ) => match messages {
            Ok(m) => (
                StateView::AwaitingPermalink { actor, repo, channel, messages: m },
                EffectView::GetPermalink { channel, ts },
            ),
            Err(_) => fail("failed to fetch slack messages"@),
        },
        (
            StateView::AwaitingPermalink { actor, repo, channel, messages },
            OutcomeView::Permalink { permalink },
        ) => (
            StateView::AwaitingAuthors {
                actor,
                repo,
                channel,
                messages,
                permalink: match permalink {
                    Ok(link) => link,
                    Err(_) => Seq::empty(),
                },
            },
            EffectView::GetUsers { users: other_authors(actor.id, messages) },
        ),
        (
            StateView::AwaitingAuthors { actor, repo, channel, messages, permalink },
            OutcomeView::Users { users },
        ) => if users.len() != other_authors(actor.id, messages).len() {
            fail("unexpected outcome"@)
        } else {
            match all_found(users) {
                Ok(u) => (
                    StateView::AwaitingIssue { mention: actor.name, channel },
                    EffectView::CreateIssue {
                        repo,
                        title: issue_title(messages, directory(seq![actor] + u)),
                        body: issue_body(messages, directory(seq![actor] + u), permalink),
                    },
                ),
                Err(e) => fail(e.words()),
            }
        },
        (StateView::AwaitingIssue { mention, channel }, OutcomeView::Issue { url }) => match url {
            Ok(address) => (
                StateView::AwaitingDelivery,
                EffectView::PostMessage { channel, text: confirmation(mention, address) },
            ),
            Err(e) => fail(e.words()),
        },
        (StateView::AwaitingDelivery, OutcomeView::Posted { posted }) => match posted {
            Ok(_) => done(),
            Err(_) => fail(Seq::empty()),
        },
        _ => fail("unexpected outcome"@),
    }
}

/// Ends a delivery with `response`.
fn finish_with(response: Response) -> (step: (State, Effect))
    ensures
        (step.0@, step.1@) == finish(response@),
{
    (State::Finished, Effect::Respond { response })
}

/// Ends a delivery well, with an empty answer.
fn finish_well() -> (step: (State, Effect))
    ensures
        (step.0@, step.1@) == done(),
{
    finish_with(Response::Success { body: String::new() })
}

/// Ends a delivery with an internal error.
fn finish_badly(reason: String) -> (step: (State, Effect))
    ensures
        (step.0@, step.1@) == fail(reason@),
{
    finish_with(Response::InternalError { reason })
}

/// Whether a delivery with this retry reason repeats one that Slack gave up
/// waiting for. Such a delivery is answered and not worked on again.
pub fn is_repeated_delivery(retry_reason: Option<&str>) -> (repeat: bool)
    ensures
        repeat == is_repeat(
            match retry_reason {
                Some(reason) => Some(reason@),
                None => None,
            },
        ),
{
    match retry_reason {
        Some(reason) => same_text(reason, "http_timeout"),
        None => false,
    }
}

/// Takes up a reaction: asks who reacted.
pub fn handle_reaction_added(user: String, reaction: String, item: SlackItem) -> (step: (
    State,
    Effect,
))
    ensures
        (step.0@, step.1@) == reaction_added(user@, reaction@, item@),
{
    (State::AwaitingActor { reaction, item }, Effect::GetUserInfo { user })
}

/// Takes up a mention of the service: posts the reply where the mention was
/// made.
pub fn handle_app_mention(_user: String, channel: String, text: String) -> (step: (State, Effect))
    ensures
        (step.0@, step.1@) == app_mention(channel@, text@),
{
    let reply = render_mention_reply(text.as_str());
    (State::AwaitingDelivery, Effect::PostMessage { channel, text: reply })
}

/// Takes up a delivery: `retry_reason` is what its retry header says, and
/// `request` its body, `None` where the body could not be read.
pub fn create_slack_events(retry_reason: Option<&str>, request: Option<SlackRequest>) -> (step: (
    State,
    Effect,
))
    ensures
        (step.0@, step.1@) == begin(
            match retry_reason {
                Some(reason) => Some(reason@),
                None => None,
            },
            match request {
                Some(r) => Some(r@),
                None => None,
            },
        ),
{
    if is_repeated_delivery(retry_reason) {
        return finish_well();
    }
    match request {
        Some(SlackRequest::UrlVerification { challenge }) => finish_with(
            Response::Success { body: challenge },
        ),
        Some(SlackRequest::EventCallback { event }) => match event {
            SlackEvent::ReactionAdded { user, reaction, item } => handle_reaction_added(
                user,
                reaction,
                item,
            ),
            SlackEvent::AppMention { user, text, channel } => handle_app_mention(
                user,
                channel,
                text,
            ),
            SlackEvent::Other => finish_well(),
        },
        _ => finish_with(Response::BadRequest),
    }
}

/// Takes the service one step on: from `state` and what came of the effect
/// that it asked for, to the next state and the next effect.
pub fn advance(state: State, outcome: Outcome) -> (step: (State, Effect))
    ensures
        (step.0@, step.1@) == next(state@, outcome@),
{
    match (state, outcome) {
        (State::AwaitingActor { reaction, item }, Outcome::UserInfo { user }) => match user {
            Ok(u) => {
                let channel = match &item {
                    SlackItem::Message { channel, ts } => channel.clone(),
                    SlackItem::Other => String::new(),
                };
                let team_id = u.team_id.clone();
                (
                    State::AwaitingPattern { actor: u, item },
                    Effect::FindPattern { team_id, channel, reaction },
                )
            },
            Err(e) => finish_badly(e.message()),
        },
        (State::AwaitingPattern { actor, item }, Outcome::Pattern { pattern }) => match (
            pattern,
            item,
        ) {
            (Ok(Some(p)), SlackItem::Message { channel, ts }) => {
                let effect = Effect::GetMessages {
                    channel: channel.clone(),
                    ts: ts.clone(),
                    count: CONTEXT_MESSAGES,
                };
                (State::AwaitingMessages { actor, repo: p.repo, channel, ts }, effect)
            },
            (Ok(_), _) => finish_well(),
            (Err(reason), _) => finish_badly(reason),
        },
        (
            State::AwaitingMessages { actor, repo, channel, ts },
            Outcome::Messages { messages },
        ) => match messages {
            Ok(m) => {
                let effect = Effect::GetPermalink { channel: channel.clone(), ts };
                (State::AwaitingPermalink { actor, repo, channel, messages: m }, effect)
            },
            Err(_) => finish_badly("failed to fetch slack messages".to_string()),
        },
        (
            State::AwaitingPermalink { actor, repo, channel, messages },
            Outcome::Permalink { permalink },
        ) => {
            let link = match permalink {
                Ok(link) => link,
                Err(_) => String::new(),
            };
            let users = authors_besides(&messages, actor.id.as_str());
            (
                State::AwaitingAuthors { actor, repo, channel, messages, permalink: link },
                Effect::GetUsers { users },
            )
        },
        (
            State::AwaitingAuthors { actor, repo, channel, messages, permalink },
            Outcome::Users { users },
        ) => {
            let asked = authors_besides(&messages, actor.id.as_str());
            if users.len() != asked.len() {
                return finish_badly("unexpected outcome".to_string());
            }
            match join_users(users) {
                Ok(u) => {
                    let ghost found = user_views(u@);
                    let mut known = u;
                    let SlackUser { id, name, team_id } = actor;
                    known.insert(0, SlackUser { id, name: name.clone(), team_id });
                    assert(user_views(known@) == seq![actor@] + found);
                    let names = directory_of(&known);
                    let title = render_title(&messages, &names);
                    let body = render_body(&messages, &names, permalink.as_str());
                    (
                        State::AwaitingIssue { mention: name, channel },
                        Effect::CreateIssue { repo, title, body },
                    )
                },
                Err(e) => finish_badly(e.message()),
            }
        },
        (State::AwaitingIssue { mention, channel }, Outcome::Issue { issue }) => match issue {
            Ok(filed) => {
                let text = render_confirmation(mention.as_str(), filed.html_url.as_str());
                (State::AwaitingDelivery, Effect::PostMessage { channel, text })
            },
            Err(e) => finish_badly(e.message()),
        },
        (State::AwaitingDelivery, Outcome::Posted { posted }) => match posted {
            Ok(_) => finish_well(),
            Err(_) => finish_badly(String::new()),
        },
        _ => finish_badly("unexpected outcome".to_string()),
    }
}

/// How many steps of a reaction lie behind `state`.
pub open spec fn stage(state: StateView) -> int {
    match state {
        StateView::AwaitingActor { .. } => 0,
        StateView::AwaitingPattern { .. } => 1,
        StateView::AwaitingMessages { .. } => 2,
        StateView::AwaitingPermalink { .. } => 3,
        StateView::AwaitingAuthors { .. } => 4,
        StateView::AwaitingIssue { .. } => 5,
        StateView::AwaitingDelivery => 6,
        StateView::Finished => 7,
    }
}

/// The state that the first `n` of `outcomes` lead to from `state`.
pub open spec fn state_after(state: StateView, outcomes: Seq<OutcomeView>, n: int) -> StateView
    decreases n,
{
    if n <= 0 || n > outcomes.len() {
        state
    } else {
        next(state_after(state, outcomes, n - 1), outcomes[n - 1]).0
    }
}

/// Every effect of a delivery whose outcomes come in as `outcomes`: the
/// first is asked for when the delivery is taken up, and each of the others
/// when the outcome before it is known.
pub open spec fn effects_of(
    retry_reason: Option<Seq<char>>,
    request: Option<SlackRequestView>,
    outcomes: Seq<OutcomeView>,
) -> Seq<EffectView> {
    Seq::new(
        outcomes.len() + 1,
        |k: int|
            if k == 0 {
                begin(retry_reason, request).1
            } else {
                next(
                    state_after(begin(retry_reason, request).0, outcomes, k - 1),
                    outcomes[k - 1],
                ).1
            },
    )
}

/// A step leads to the stage that follows, or to the end; an issue is filed
/// only by the step from the fifth stage to the sixth, and a message posted
/// only by the step from the sixth to the seventh.
proof fn lemma_step(state: StateView, outcome: OutcomeView)
    ensures
        stage(next(state, outcome).0) == stage(state) + 1 || next(state, outcome).0
            is Finished,
        next(state, outcome).1 is CreateIssue ==> state is AwaitingAuthors && next(
            state,
            outcome,
        ).0 is AwaitingIssue,
        next(state, outcome).1 is PostMessage ==> state is AwaitingIssue && next(
            state,
            outcome,
        ).0 is AwaitingDelivery,
        next(state, outcome).1 is Respond <==> next(state, outcome).0 is Finished,
        next(state, outcome).1 is FindPattern ==> next(state, outcome).0 is AwaitingPattern,
        next(state, outcome).1 is GetMessages ==> next(state, outcome).0 is AwaitingMessages,
        state is Finished ==> next(state, outcome) == fail("unexpected outcome"@),
{
}

/// After `n` steps a delivery is `n` stages on, or at its end.
proof fn lemma_stage_after(state: StateView, outcomes: Seq<OutcomeView>, n: int)
    requires
        0 <= n <= outcomes.len(),
    ensures
        stage(state_after(state, outcomes, n)) == stage(state) + n || state_after(
            state,
            outcomes,
            n,
        ) is Finished,
    decreases n,
{
    if n > 0 {
        lemma_stage_after(state, outcomes, n - 1);
        lemma_step(state_after(state, outcomes, n - 1), outcomes[n - 1]);
    }
}

/// Once a delivery is at its end it stays there.
proof fn lemma_finished_stays(state: StateView, outcomes: Seq<OutcomeView>, m: int, n: int)
    requires
        0 <= m <= n <= outcomes.len(),
        state_after(state, outcomes, m) is Finished,
    ensures
        state_after(state, outcomes, n) is Finished,
    decreases n - m,
{
    if m < n {
        lemma_step(state_after(state, outcomes, m), outcomes[m]);
        assert(state_after(state, outcomes, m + 1) == next(
            state_after(state, outcomes, m),
            outcomes[m],
        ).0);
        lemma_finished_stays(state, outcomes, m + 1, n);
    }
}

/// The link that an issue carries: what Slack gave, or nothing where it
/// gave none.
pub open spec fn link_or_empty(permalink: Result<Seq<char>, SlackClientError>) -> Seq<char> {
    match permalink {
        Ok(link) => link,
        Err(_) => Seq::empty(),
    }
}

/// Whether a delivery with these outcomes files `effect` as its issue: it
/// is no repeat, it brings a reaction on a message, and the actor, a pattern,
/// the messages and every one of their authors were found, in this order. The issue
/// then goes to the pattern's repository and shows the messages found, with
/// the names of the actor and of the authors.
pub open spec fn files_issue(
    retry_reason: Option<Seq<char>>,
    request: Option<SlackRequestView>,
    outcomes: Seq<OutcomeView>,
    effect: EffectView,
) -> bool {
    &&& !is_repeat(retry_reason)
    &&& request matches Some(
        SlackRequestView::EventCallback {
            event: SlackEventView::ReactionAdded {
                user,
                reaction,
                item: SlackItemView::Message { channel, ts },
            },
        },
    )
    &&& outcomes.len() >= 5
    &&& outcomes[0] matches OutcomeView::UserInfo { user: Ok(actor) }
    &&& outcomes[1] matches OutcomeView::Pattern { pattern: Ok(Some(p)) }
    &&& outcomes[2] matches OutcomeView::Messages { messages: Ok(m) }
    &&& outcomes[3] matches OutcomeView::Permalink { permalink }
    &&& outcomes[4] matches OutcomeView::Users { users }
    &&& users.len() == other_authors(actor.id, m).len()
    &&& all_found(users) matches Ok(u)
    &&& effect == EffectView::CreateIssue {
        repo: p.repo,
        title: issue_title(m, directory(seq![actor] + u)),
        body: issue_body(m, directory(seq![actor] + u), link_or_empty(permalink)),
    }
}

/// An issue is filed only as the sixth effect of a delivery, and only where
/// everything before went well: whatever the outcomes, a delivery that is a
/// repeat, brings no reaction on a message, finds no pattern, or fails to
/// find the actor, the messages or their authors files nothing.
pub proof fn issue_follows_context(
    retry_reason: Option<Seq<char>>,
    request: Option<SlackRequestView>,
    outcomes: Seq<OutcomeView>,
    k: int,
)
    requires
        0 <= k <= outcomes.len(),
        effects_of(retry_reason, request, outcomes)[k] is CreateIssue,
    ensures
        k == 5,
        files_issue(
            retry_reason,
            request,
            outcomes,
            effects_of(retry_reason, request, outcomes)[5],
        ),
{
    let first = begin(retry_reason, request);
    assert(!(first.1 is CreateIssue));
    let before = state_after(first.0, outcomes, k - 1);
    lemma_step(before, outcomes[k - 1]);
    lemma_stage_after(first.0, outcomes, k - 1);
    assert(k == 5);
    reveal_with_fuel(state_after, 5);
    let s1 = state_after(first.0, outcomes, 1);
    let s2 = state_after(first.0, outcomes, 2);
    let s3 = state_after(first.0, outcomes, 3);
    assert(!(s1 is Finished) && !(s2 is Finished) && !(s3 is Finished)) by {
        if s1 is Finished {
            lemma_finished_stays(first.0, outcomes, 1, 4);
        }
        if s2 is Finished {
            lemma_finished_stays(first.0, outcomes, 2, 4);
        }
        if s3 is Finished {
            lemma_finished_stays(first.0, outcomes, 3, 4);
        }
    }
    lemma_stage_after(first.0, outcomes, 1);
    lemma_stage_after(first.0, outcomes, 2);
    lemma_stage_after(first.0, outcomes, 3);
}

/// A delivery files at most one issue, whatever comes of its effects.
pub proof fn files_at_most_one_issue(
    retry_reason: Option<Seq<char>>,
    request: Option<SlackRequestView>,
    outcomes: Seq<OutcomeView>,
    i: int,
    j: int,
)
    requires
        0 <= i <= outcomes.len(),
        0 <= j <= outcomes.len(),
        effects_of(retry_reason, request, outcomes)[i] is CreateIssue,
        effects_of(retry_reason, request, outcomes)[j] is CreateIssue,
    ensures
        i == j,
{
    issue_follows_context(retry_reason, request, outcomes, i);
    issue_follows_context(retry_reason, request, outcomes, j);
}

/// A repeat of a delivery is answered at once and well, and the service
/// asks for nothing else on its account.
pub proof fn repeat_calls_nobody(
    retry_reason: Option<Seq<char>>,
    request: Option<SlackRequestView>,
    outcomes: Seq<OutcomeView>,
    k: int,
)
    requires
        is_repeat(retry_reason),
        0 <= k <= outcomes.len(),
    ensures
        effects_of(retry_reason, request, outcomes)[0] == (EffectView::Respond {
            response: ResponseView::Success { body: Seq::empty() },
        }),
        effects_of(retry_reason, request, outcomes)[k] is Respond,
{
    let first = begin(retry_reason, request);
    if k > 0 {
        lemma_finished_stays(first.0, outcomes, 0, k - 1);
        lemma_step(state_after(first.0, outcomes, k - 1), outcomes[k - 1]);
    }
}

/// The answer to Slack is the last thing a delivery asks for: whatever is
/// handed to the service after it, the service only says that it expected
/// nothing.
pub proof fn answer_is_final(
    retry_reason: Option<Seq<char>>,
    request: Option<SlackRequestView>,
    outcomes: Seq<OutcomeView>,
    k: int,
    later: int,
)
    requires
        0 <= k < later <= outcomes.len(),
        effects_of(retry_reason, request, outcomes)[k] is Respond,
    ensures
        effects_of(retry_reason, request, outcomes)[later] == (EffectView::Respond {
            response: ResponseView::InternalError { reason: "unexpected outcome"@ },
        }),
{
    let first = begin(retry_reason, request);
    if k > 0 {
        lemma_step(state_after(first.0, outcomes, k - 1), outcomes[k - 1]);
    }
    assert(state_after(first.0, outcomes, k) is Finished);
    lemma_finished_stays(first.0, outcomes, k, later - 1);
    lemma_step(state_after(first.0, outcomes, later - 1), outcomes[later - 1]);
}

/// Where the confirmation of an issue cannot be posted, Slack is told of an
/// internal error; the issue stays filed, and no second one follows.
pub proof fn lost_confirmation_is_reported(
    retry_reason: Option<Seq<char>>,
    request: Option<SlackRequestView>,
    outcomes: Seq<OutcomeView>,
)
    requires
        outcomes.len() >= 7,
        effects_of(retry_reason, request, outcomes)[5] is CreateIssue,
        outcomes[5] matches OutcomeView::Issue { url: Ok(_) },
        outcomes[6] == (OutcomeView::Posted { posted: Err(()) }),
    ensures
        effects_of(retry_reason, request, outcomes)[6] is PostMessage,
        effects_of(retry_reason, request, outcomes)[7] == (EffectView::Respond {
            response: ResponseView::InternalError { reason: Seq::empty() },
        }),
        forall|k: int|
            0 <= k <= outcomes.len() && k != 5 ==> !(#[trigger] effects_of(
                retry_reason,
                request,
                outcomes,
            )[k] is CreateIssue),
{
    let first = begin(retry_reason, request);
    lemma_step(state_after(first.0, outcomes, 4), outcomes[4]);
    assert(state_after(first.0, outcomes, 5) is AwaitingIssue);
    assert(state_after(first.0, outcomes, 6) == next(
        state_after(first.0, outcomes, 5),
        outcomes[5],
    ).0);
    assert forall|k: int| 0 <= k <= outcomes.len() && k != 5 implies !(#[trigger] effects_of(
        retry_reason,
        request,
        outcomes,
    )[k] is CreateIssue) by {
        if effects_of(retry_reason, request, outcomes)[k] is CreateIssue {
            issue_follows_context(retry_reason, request, outcomes, k);
        }
    }
}

/// Whether `effect` is the reply to the mention that `request` brings.
pub open spec fn answers_mention(request: Option<SlackRequestView>, effect: EffectView) -> bool {
    &&& request matches Some(
        SlackRequestView::EventCallback {
            event: SlackEventView::AppMention { user, text, channel },
        },
    )
    &&& effect == EffectView::PostMessage { channel, text: mention_reply(text) }
}

/// Whether `effect` confirms the issue that a delivery with these outcomes
/// has filed: it goes to the channel of the message reacted to, names the
/// actor, and gives the address that GitHub gave.
pub open spec fn confirms_issue(
    request: Option<SlackRequestView>,
    outcomes: Seq<OutcomeView>,
    effect: EffectView,
) -> bool {
    &&& request matches Some(
        SlackRequestView::EventCallback {
            event: SlackEventView::ReactionAdded {
                user,
                reaction,
                item: SlackItemView::Message { channel, ts },
            },
        },
    )
    &&& outcomes.len() >= 6
    &&& outcomes[0] matches OutcomeView::UserInfo { user: Ok(actor) }
    &&& outcomes[5] matches OutcomeView::Issue { url: Ok(address) }
    &&& effect == EffectView::PostMessage { channel, text: confirmation(actor.name, address) }
}

/// A delivery posts a message only as its first effect, in answer to a
/// mention, or as its seventh, to confirm the issue that its sixth effect
/// filed.
pub proof fn message_answers_mention_or_confirms_issue(
    retry_reason: Option<Seq<char>>,
    request: Option<SlackRequestView>,
    outcomes: Seq<OutcomeView>,
    k: int,
)
    requires
        0 <= k <= outcomes.len(),
        effects_of(retry_reason, request, outcomes)[k] is PostMessage,
    ensures
        !is_repeat(retry_reason),
        k == 0 || k == 6,
        k == 0 ==> answers_mention(request, effects_of(retry_reason, request, outcomes)[0]),
        k == 6 ==> files_issue(
            retry_reason,
            request,
            outcomes,
            effects_of(retry_reason, request, outcomes)[5],
        ),
        k == 6 ==> confirms_issue(request, outcomes, effects_of(retry_reason, request, outcomes)[6]),
{
    let first = begin(retry_reason, request);
    if k > 0 {
        let before = state_after(first.0, outcomes, k - 1);
        lemma_step(before, outcomes[k - 1]);
        assert(before is AwaitingIssue);
        lemma_stage_after(first.0, outcomes, k - 1);
        assert(k == 6);
        let earlier = state_after(first.0, outcomes, 4);
        assert(before == next(earlier, outcomes[4]).0);
        lemma_step(earlier, outcomes[4]);
        assert(next(earlier, outcomes[4]).1 is CreateIssue);
        issue_follows_context(retry_reason, request, outcomes, 5);
        reveal_with_fuel(state_after, 5);
    }
}

/// A delivery posts at most one message, whatever comes of its effects.
pub proof fn posts_at_most_one_message(
    retry_reason: Option<Seq<char>>,
    request: Option<SlackRequestView>,
    outcomes: Seq<OutcomeView>,
    i: int,
    j: int,
)
    requires
        0 <= i <= outcomes.len(),
        0 <= j <= outcomes.len(),
        effects_of(retry_reason, request, outcomes)[i] is PostMessage,
        effects_of(retry_reason, request, outcomes)[j] is PostMessage,
    ensures
        i == j,
{
    message_answers_mention_or_confirms_issue(retry_reason, request, outcomes, i);
    message_answers_mention_or_confirms_issue(retry_reason, request, outcomes, j);
}

/// A reaction for which nothing is configured files nothing: where the
/// configuration has no pattern, the delivery ends well at once, and no issue
/// is filed on its account, whatever else is handed to the service.
pub proof fn unconfigured_reaction_files_nothing(
    retry_reason: Option<Seq<char>>,
    request: Option<SlackRequestView>,
    outcomes: Seq<OutcomeView>,
)
    requires
        outcomes.len() >= 2,
        effects_of(retry_reason, request, outcomes)[1] is FindPattern,
        outcomes[1] == (OutcomeView::Pattern { pattern: Ok(None) }),
    ensures
        effects_of(retry_reason, request, outcomes)[2] == (EffectView::Respond {
            response: ResponseView::Success { body: Seq::empty() },
        }),
        forall|k: int|
            0 <= k <= outcomes.len() ==> !(#[trigger] effects_of(retry_reason, request, outcomes)[k]
                is CreateIssue),
{
    let first = begin(retry_reason, request);
    lemma_step(state_after(first.0, outcomes, 0), outcomes[0]);
    assert(state_after(first.0, outcomes, 1) == next(first.0, outcomes[0]).0);
    assert forall|k: int| 0 <= k <= outcomes.len() implies !(#[trigger] effects_of(
        retry_reason,
        request,
        outcomes,
    )[k] is CreateIssue) by {
        if effects_of(retry_reason, request, outcomes)[k] is CreateIssue {
            issue_follows_context(retry_reason, request, outcomes, k);
        }
    }
}

/// Where the messages cannot be had, Slack is told of an internal error,
/// and no issue is filed, whatever else is handed to the service.
pub proof fn failed_history_files_nothing(
    retry_reason: Option<Seq<char>>,
    request: Option<SlackRequestView>,
    outcomes: Seq<OutcomeView>,
)
    requires
        outcomes.len() >= 3,
        effects_of(retry_reason, request, outcomes)[2] is GetMessages,
        outcomes[2] == (OutcomeView::Messages { messages: Err(()) }),
    ensures
        effects_of(retry_reason, request, outcomes)[3] == (EffectView::Respond {
            response: ResponseView::InternalError { reason: "failed to fetch slack messages"@ },
        }),
        forall|k: int|
            0 <= k <= outcomes.len() ==> !(#[trigger] effects_of(retry_reason, request, outcomes)[k]
                is CreateIssue),
{
    let first = begin(retry_reason, request);
    lemma_step(state_after(first.0, outcomes, 1), outcomes[1]);
    assert(state_after(first.0, outcomes, 2) == next(
        state_after(first.0, outcomes, 1),
        outcomes[1],
    ).0);
    assert forall|k: int| 0 <= k <= outcomes.len() implies !(#[trigger] effects_of(
        retry_reason,
        request,
        outcomes,
    )[k] is CreateIssue) by {
        if effects_of(retry_reason, request, outcomes)[k] is CreateIssue {
            issue_follows_context(retry_reason, request, outcomes, k);
        }
    }
}

} // verus!
