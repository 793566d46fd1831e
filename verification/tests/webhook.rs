use emoji_to_do::github::{GithubClientError, Issue};
use emoji_to_do::models::{ReactionPattern, TeamConfig, TeamConfigMap};
use emoji_to_do::slack::{
    SlackClientError, SlackEvent, SlackItem, SlackMessage, SlackRequest, SlackUser,
};
use emoji_to_do::webhook::{
    advance, create_slack_events, handle_app_mention, handle_reaction_added,
    is_repeated_delivery, Effect, Outcome, Response, State, CONTEXT_MESSAGES, RETRY_REASON_HEADER,
};

fn s(text: &str) -> String {
    text.to_string()
}

fn user(id: &str, name: &str, team_id: &str) -> SlackUser {
    SlackUser { id: s(id), name: s(name), team_id: s(team_id) }
}

fn message(author: &str, text: &str, ts: &str) -> SlackMessage {
    SlackMessage { user: s(author), text: s(text), ts: s(ts) }
}

fn ok() -> Response {
    Response::Success { body: String::new() }
}

fn internal(reason: &str) -> Response {
    Response::InternalError { reason: s(reason) }
}

/// Everything that the service talks to, played from a script.
struct World {
    config: TeamConfigMap,
    users: Vec<SlackUser>,
    messages: Result<Vec<SlackMessage>, ()>,
    permalink: Result<String, SlackClientError>,
    issue: Result<String, GithubClientError>,
    posting: Result<(), ()>,
    calls: Vec<String>,
    issues: Vec<(String, String, String)>,
    posts: Vec<(String, String)>,
}

impl World {
    fn new() -> World {
        let mut config = TeamConfigMap::empty();
        config.insert(TeamConfig {
            team_id: s("T1"),
            repo: s("org/repo"),
            reaction_patterns: vec![ReactionPattern {
                name: s("eyes"),
                repo: s("org/repo"),
                assignees: Vec::new(),
            }],
        });
        World {
            config,
            users: vec![user("U1", "ann", "T1"), user("U2", "bob", "T1")],
            messages: Ok(vec![message("U2", "it breaks", "99"), message("U1", "see <@U2>", "100")]),
            permalink: Ok(s("https://example.slack.com/archives/C1/p100")),
            issue: Ok(s("https://github.com/org/repo/issues/7")),
            posting: Ok(()),
            calls: Vec::new(),
            issues: Vec::new(),
            posts: Vec::new(),
        }
    }

    fn lookup(&self, id: &str) -> Result<SlackUser, SlackClientError> {
        match self.users.iter().find(|u| u.id == id) {
            Some(u) => Ok(user(&u.id, &u.name, &u.team_id)),
            None => Err(SlackClientError::ApiError),
        }
    }

    fn perform(&mut self, effect: Effect) -> Result<Outcome, Response> {
        match effect {
            Effect::Respond { response } => Err(response),
            Effect::GetUserInfo { user } => {
                self.calls.push(format!("users.info {}", user));
                Ok(Outcome::UserInfo { user: self.lookup(&user) })
            }
            Effect::FindPattern { team_id, channel, reaction } => {
                self.calls.push(format!("pattern {} {}", team_id, reaction));
                Ok(Outcome::Pattern { pattern: Ok(self.config.find(&team_id, &channel, &reaction)) })
            }
            Effect::GetMessages { channel, ts, count } => {
                self.calls.push(format!("history {} {} {}", channel, ts, count));
                let messages = match &self.messages {
                    Ok(list) => Ok(list.iter().map(|m| message(&m.user, &m.text, &m.ts)).collect()),
                    Err(_) => Err(()),
                };
                Ok(Outcome::Messages { messages })
            }
            Effect::GetPermalink { channel, ts } => {
                self.calls.push(format!("permalink {} {}", channel, ts));
                Ok(Outcome::Permalink { permalink: self.permalink.clone() })
            }
            Effect::GetUsers { users } => {
                let mut found = Vec::new();
                for id in &users {
                    self.calls.push(format!("users.info {}", id));
                    found.push(self.lookup(id));
                }
                Ok(Outcome::Users { users: found })
            }
            Effect::CreateIssue { repo, title, body } => {
                self.calls.push(format!("issue {}", repo));
                if self.issue.is_ok() {
                    self.issues.push((repo, title, body));
                }
                Ok(Outcome::Issue {
                    issue: match &self.issue {
                        Ok(url) => Ok(Issue { html_url: url.clone() }),
                        Err(e) => Err(*e),
                    },
                })
            }
            Effect::PostMessage { channel, text } => {
                self.calls.push(format!("post {}", channel));
                if self.posting.is_ok() {
                    self.posts.push((channel, text));
                }
                Ok(Outcome::Posted { posted: self.posting })
            }
        }
    }

    fn deliver(&mut self, retry_reason: Option<&str>, request: Option<SlackRequest>) -> Response {
        let (mut state, mut effect) = create_slack_events(retry_reason, request);
        for _ in 0..20 {
            match self.perform(effect) {
                Err(response) => {
                    assert_eq!(state, State::Finished);
                    return response;
                }
                Ok(outcome) => {
                    let step = advance(state, outcome);
                    state = step.0;
                    effect = step.1;
                }
            }
        }
        panic!("the delivery did not end");
    }
}

fn reaction(user: &str, name: &str, channel: &str, ts: &str) -> Option<SlackRequest> {
    Some(SlackRequest::EventCallback {
        event: SlackEvent::ReactionAdded {
            user: s(user),
            reaction: s(name),
            item: SlackItem::Message { channel: s(channel), ts: s(ts) },
        },
    })
}

#[test]
fn reaction_files_one_issue_and_confirms_it() {
    let mut world = World::new();
    let response = world.deliver(None, reaction("U1", "eyes", "C1", "100"));
    assert_eq!(response, ok());
    assert_eq!(
        world.issues,
        vec![(
            s("org/repo"),
            s("it breaks"),
            s("```\nbob: it breaks\nann: see @bob\n```\nhttps://example.slack.com/archives/C1/p100"),
        )]
    );
    assert_eq!(world.posts, vec![(s("C1"), s("<@ann> https://github.com/org/repo/issues/7"))]);
    assert_eq!(
        world.calls,
        vec![
            "users.info U1",
            "pattern T1 eyes",
            "history C1 100 3",
            "permalink C1 100",
            "users.info U2",
            "issue org/repo",
            "post C1",
        ]
    );
}

#[test]
fn reaction_without_pattern_files_nothing() {
    let mut world = World::new();
    world.config = TeamConfigMap::empty();
    let response = world.deliver(None, reaction("U1", "eyes", "C1", "100"));
    assert_eq!(response, ok());
    assert!(world.issues.is_empty());
    assert!(world.posts.is_empty());
    assert_eq!(world.calls, vec!["users.info U1", "pattern T1 eyes"]);
}

#[test]
fn reaction_of_another_name_files_nothing() {
    let mut world = World::new();
    let response = world.deliver(None, reaction("U1", "memo", "C1", "100"));
    assert_eq!(response, ok());
    assert!(world.issues.is_empty());
    assert_eq!(world.calls, vec!["users.info U1", "pattern T1 memo"]);
}

#[test]
fn failed_history_files_nothing_and_is_an_internal_error() {
    let mut world = World::new();
    world.messages = Err(());
    let response = world.deliver(None, reaction("U1", "eyes", "C1", "100"));
    assert_eq!(response, internal("failed to fetch slack messages"));
    assert!(world.issues.is_empty());
    assert!(world.posts.is_empty());
    assert!(!world.calls.iter().any(|c| c.starts_with("issue")));
}

#[test]
fn lost_confirmation_is_an_internal_error_and_leaves_one_issue() {
    let mut world = World::new();
    world.posting = Err(());
    let response = world.deliver(None, reaction("U1", "eyes", "C1", "100"));
    assert_eq!(response, internal(""));
    assert_eq!(world.issues.len(), 1);
    assert_eq!(world.calls.iter().filter(|c| c.starts_with("issue")).count(), 1);
    assert!(world.posts.is_empty());
}

#[test]
fn repeated_delivery_is_answered_without_any_call() {
    let mut world = World::new();
    let first = world.deliver(None, reaction("U1", "eyes", "C1", "100"));
    assert_eq!(first, ok());
    let calls = world.calls.len();
    let second = world.deliver(Some("http_timeout"), reaction("U1", "eyes", "C1", "100"));
    assert_eq!(second, ok());
    assert_eq!(world.calls.len(), calls);
    assert_eq!(world.issues.len(), 1);
    assert_eq!(world.posts.len(), 1);
}

#[test]
fn delivery_repeated_for_another_reason_is_worked_on() {
    let mut world = World::new();
    let response = world.deliver(Some("http_error"), reaction("U1", "eyes", "C1", "100"));
    assert_eq!(response, ok());
    assert_eq!(world.issues.len(), 1);
}

#[test]
fn only_a_timeout_marks_a_repeat() {
    assert!(is_repeated_delivery(Some("http_timeout")));
    assert!(!is_repeated_delivery(Some("http_error")));
    assert!(!is_repeated_delivery(Some("HTTP_TIMEOUT")));
    assert!(!is_repeated_delivery(Some("")));
    assert!(!is_repeated_delivery(None));
}

#[test]
fn repeat_with_unreadable_body_is_answered_well() {
    assert_eq!(World::new().deliver(Some("http_timeout"), None), ok());
    assert_eq!(World::new().deliver(Some("http_timeout"), Some(SlackRequest::Other)), ok());
}

#[test]
fn challenge_is_answered_with_itself() {
    let mut world = World::new();
    let request = Some(SlackRequest::UrlVerification { challenge: s("3eZbrw1aB") });
    assert_eq!(world.deliver(None, request), Response::Success { body: s("3eZbrw1aB") });
    assert!(world.calls.is_empty());
}

#[test]
fn anything_that_is_no_event_is_a_bad_request() {
    let mut world = World::new();
    assert_eq!(world.deliver(None, Some(SlackRequest::Other)), Response::BadRequest);
    assert_eq!(world.deliver(None, None), Response::BadRequest);
    assert!(world.calls.is_empty());
}

#[test]
fn unknown_event_is_let_pass() {
    let mut world = World::new();
    let request = Some(SlackRequest::EventCallback { event: SlackEvent::Other });
    assert_eq!(world.deliver(None, request), ok());
    assert!(world.calls.is_empty());
}

#[test]
fn mention_with_ping_is_answered_with_pong() {
    let mut world = World::new();
    let request = Some(SlackRequest::EventCallback {
        event: SlackEvent::AppMention { user: s("U1"), text: s("<@U9> ping"), channel: s("C1") },
    });
    assert_eq!(world.deliver(None, request), ok());
    assert_eq!(world.posts, vec![(s("C1"), s("pong"))]);
    assert_eq!(world.calls, vec!["post C1"]);
}

#[test]
fn mention_with_other_text_is_echoed() {
    let mut world = World::new();
    let request = Some(SlackRequest::EventCallback {
        event: SlackEvent::AppMention { user: s("U1"), text: s("<@U9> status?"), channel: s("C2") },
    });
    assert_eq!(world.deliver(None, request), ok());
    assert_eq!(world.posts, vec![(s("C2"), s("```\nstatus?\n```"))]);
}

#[test]
fn mention_whose_reply_is_lost_is_an_internal_error() {
    let mut world = World::new();
    world.posting = Err(());
    let request = Some(SlackRequest::EventCallback {
        event: SlackEvent::AppMention { user: s("U1"), text: s("ping"), channel: s("C1") },
    });
    assert_eq!(world.deliver(None, request), internal(""));
}

#[test]
fn unknown_actor_is_an_internal_error() {
    let mut world = World::new();
    let response = world.deliver(None, reaction("U404", "eyes", "C1", "100"));
    assert_eq!(response, internal("api error"));
    assert_eq!(world.calls, vec!["users.info U404"]);
}

#[test]
fn unknown_author_fails_the_whole_delivery() {
    let mut world = World::new();
    world.messages = Ok(vec![message("U404", "who am I", "99"), message("U1", "hm", "100")]);
    let response = world.deliver(None, reaction("U1", "eyes", "C1", "100"));
    assert_eq!(response, internal("api error"));
    assert!(world.issues.is_empty());
}

#[test]
fn missing_link_is_left_empty() {
    let mut world = World::new();
    world.permalink = Err(SlackClientError::JsonError);
    let response = world.deliver(None, reaction("U1", "eyes", "C1", "100"));
    assert_eq!(response, ok());
    assert_eq!(world.issues.len(), 1);
    assert_eq!(world.issues[0].2, "```\nbob: it breaks\nann: see @bob\n```\n");
}

#[test]
fn refused_issue_is_an_internal_error_without_confirmation() {
    let mut world = World::new();
    world.issue = Err(GithubClientError::ApiError);
    let response = world.deliver(None, reaction("U1", "eyes", "C1", "100"));
    assert_eq!(response, internal("github returned api error"));
    assert!(world.posts.is_empty());

    let mut world = World::new();
    world.issue = Err(GithubClientError::JsonError);
    let response = world.deliver(None, reaction("U1", "eyes", "C1", "100"));
    assert_eq!(response, internal("github returned json error"));
}

#[test]
fn each_author_is_looked_up_once() {
    let mut world = World::new();
    world.messages = Ok(vec![
        message("U2", "one", "98"),
        message("U2", "two", "99"),
        message("U1", "three", "100"),
    ]);
    let response = world.deliver(None, reaction("U1", "eyes", "C1", "100"));
    assert_eq!(response, ok());
    let lookups: Vec<&String> = world.calls.iter().filter(|c| c.starts_with("users.info")).collect();
    assert_eq!(lookups, vec!["users.info U1", "users.info U2"]);
    assert_eq!(world.issues[0].1, "one");
}

#[test]
fn reaction_on_something_else_than_a_message_files_nothing() {
    let mut world = World::new();
    let request = Some(SlackRequest::EventCallback {
        event: SlackEvent::ReactionAdded { user: s("U1"), reaction: s("eyes"), item: SlackItem::Other },
    });
    assert_eq!(world.deliver(None, request), ok());
    assert!(world.issues.is_empty());
    assert_eq!(world.calls, vec!["users.info U1", "pattern T1 eyes"]);
}

#[test]
fn unreadable_configuration_is_an_internal_error() {
    let (state, _) = handle_reaction_added(s("U1"), s("eyes"), SlackItem::Other);
    let (state, _) = advance(state, Outcome::UserInfo { user: Ok(user("U1", "ann", "T1")) });
    let step = advance(state, Outcome::Pattern { pattern: Err(s("database is locked")) });
    assert_eq!(step, (State::Finished, Effect::Respond { response: internal("database is locked") }));
}

#[test]
fn reaction_begins_by_asking_who_reacted() {
    let item = || SlackItem::Message { channel: s("C1"), ts: s("100") };
    assert_eq!(
        handle_reaction_added(s("U1"), s("eyes"), item()),
        (
            State::AwaitingActor { reaction: s("eyes"), item: item() },
            Effect::GetUserInfo { user: s("U1") },
        )
    );
}

#[test]
fn mention_begins_by_posting_the_reply() {
    assert_eq!(
        handle_app_mention(s("U1"), s("C1"), s("<@U9>  ping")),
        (State::AwaitingDelivery, Effect::PostMessage { channel: s("C1"), text: s("pong") })
    );
}

#[test]
fn pattern_is_asked_for_the_actors_team() {
    let item = || SlackItem::Message { channel: s("C1"), ts: s("100") };
    let state = State::AwaitingActor { reaction: s("eyes"), item: item() };
    assert_eq!(
        advance(state, Outcome::UserInfo { user: Ok(user("U1", "ann", "T9")) }),
        (
            State::AwaitingPattern { actor: user("U1", "ann", "T9"), item: item() },
            Effect::FindPattern { team_id: s("T9"), channel: s("C1"), reaction: s("eyes") },
        )
    );
}

#[test]
fn three_messages_are_asked_for() {
    assert_eq!(CONTEXT_MESSAGES, 3);
    let state = State::AwaitingPattern {
        actor: user("U1", "ann", "T1"),
        item: SlackItem::Message { channel: s("C1"), ts: s("100") },
    };
    let pattern = ReactionPattern { name: s("eyes"), repo: s("org/repo"), assignees: vec![s("ann")] };
    assert_eq!(
        advance(state, Outcome::Pattern { pattern: Ok(Some(pattern)) }),
        (
            State::AwaitingMessages {
                actor: user("U1", "ann", "T1"),
                repo: s("org/repo"),
                channel: s("C1"),
                ts: s("100"),
            },
            Effect::GetMessages { channel: s("C1"), ts: s("100"), count: 3 },
        )
    );
}

#[test]
fn outcome_that_was_not_asked_for_is_an_internal_error() {
    let state = State::AwaitingActor { reaction: s("eyes"), item: SlackItem::Other };
    assert_eq!(
        advance(state, Outcome::Posted { posted: Ok(()) }),
        (State::Finished, Effect::Respond { response: internal("unexpected outcome") })
    );
    assert_eq!(
        advance(State::Finished, Outcome::Issue { issue: Ok(Issue { html_url: s("x") }) }),
        (State::Finished, Effect::Respond { response: internal("unexpected outcome") })
    );
    assert_eq!(
        advance(State::AwaitingDelivery, Outcome::Messages { messages: Ok(Vec::new()) }),
        (State::Finished, Effect::Respond { response: internal("unexpected outcome") })
    );
}

#[test]
fn reaction_without_messages_files_an_empty_issue() {
    let mut world = World::new();
    world.messages = Ok(Vec::new());
    let response = world.deliver(None, reaction("U1", "eyes", "C1", "100"));
    assert_eq!(response, ok());
    assert_eq!(
        world.issues,
        vec![(s("org/repo"), s(""), s("```\n\n```\nhttps://example.slack.com/archives/C1/p100"))]
    );
}

#[test]
fn actor_who_wrote_nothing_is_named_in_the_confirmation_only() {
    let mut world = World::new();
    world.users.push(user("U3", "cy", "T1"));
    let response = world.deliver(None, reaction("U3", "eyes", "C1", "100"));
    assert_eq!(response, ok());
    assert_eq!(world.posts, vec![(s("C1"), s("<@cy> https://github.com/org/repo/issues/7"))]);
    let lookups: Vec<&String> = world.calls.iter().filter(|c| c.starts_with("users.info")).collect();
    assert_eq!(lookups, vec!["users.info U3", "users.info U2", "users.info U1"]);
}

#[test]
fn more_answers_than_users_asked_for_fail_the_delivery() {
    let state = State::AwaitingAuthors {
        actor: user("U1", "ann", "T1"),
        repo: s("org/repo"),
        channel: s("C1"),
        messages: vec![message("U1", "mine", "100")],
        permalink: s("link"),
    };
    let step = advance(state, Outcome::Users { users: vec![Ok(user("U1", "anna", "T1"))] });
    assert_eq!(step, (State::Finished, Effect::Respond { response: internal("unexpected outcome") }));
}

fn awaiting_authors() -> State {
    State::AwaitingAuthors {
        actor: user("U1", "ann", "T1"),
        repo: s("org/repo"),
        channel: s("C1"),
        messages: vec![message("U2", "one", "98"), message("U3", "two", "99"), message("U1", "three", "100")],
        permalink: s("link"),
    }
}

#[test]
fn fewer_answers_than_users_asked_for_fail_the_delivery() {
    let step = advance(awaiting_authors(), Outcome::Users { users: vec![Ok(user("U2", "bob", "T1"))] });
    assert_eq!(step, (State::Finished, Effect::Respond { response: internal("unexpected outcome") }));
}

#[test]
fn one_failed_lookup_fails_them_all() {
    let users = vec![Ok(user("U2", "bob", "T1")), Err(SlackClientError::JsonError)];
    let step = advance(awaiting_authors(), Outcome::Users { users });
    assert_eq!(step, (State::Finished, Effect::Respond { response: internal("json parse error") }));
}

#[test]
fn first_failed_lookup_is_the_one_reported() {
    let users = vec![Err(SlackClientError::ApiError), Err(SlackClientError::JsonError)];
    let step = advance(awaiting_authors(), Outcome::Users { users });
    assert_eq!(step, (State::Finished, Effect::Respond { response: internal("api error") }));
}

#[test]
fn answer_about_an_author_under_the_actors_id_counts() {
    let users = vec![Ok(user("U2", "bob", "T1")), Ok(user("U1", "anna", "T1"))];
    let step = advance(awaiting_authors(), Outcome::Users { users });
    assert_eq!(
        step,
        (
            State::AwaitingIssue { mention: s("ann"), channel: s("C1") },
            Effect::CreateIssue {
                repo: s("org/repo"),
                title: s("one"),
                body: s("```\nbob: one\n: two\nanna: three\n```\nlink"),
            },
        )
    );
}

#[test]
fn answers_have_their_statuses() {
    assert_eq!(ok().status(), 200);
    assert_eq!(Response::Success { body: s("challenge") }.status(), 200);
    assert_eq!(Response::BadRequest.status(), 400);
    assert_eq!(internal("api error").status(), 500);
}

#[test]
fn answers_have_their_bodies() {
    assert_eq!(Response::Success { body: s("challenge") }.into_body(), "challenge");
    assert_eq!(ok().into_body(), "");
    assert_eq!(Response::BadRequest.into_body(), "");
    assert_eq!(internal("api error").into_body(), "api error");
}

#[test]
fn retry_reason_comes_in_its_header() {
    assert_eq!(RETRY_REASON_HEADER, "X-Slack-Retry-Reason");
}
