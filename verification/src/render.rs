//! What goes into an issue, and what the service says in Slack.
use vstd::prelude::*;
use vstd::string::StringExecFns;
use crate::humanize::{
    backticks_escaped, humanize, humanize_slack_formatted_text, humanized_backticks_are_escaped,
    lemma_escaped_concat, names_escaped, remove_head_mention, without_head_mention, UserDirectory,
};
use crate::slack::{SlackClientError, SlackMessage, SlackMessageView, SlackUser, SlackUserView};
use crate::text::same_text;

verus! {

/// The strings of `v` as sequences of characters.
pub open spec fn texts(v: Seq<String>) -> Seq<Seq<char>> {
    Seq::new(v.len(), |i: int| v[i]@)
}

/// The messages of `v` as plain values.
pub open spec fn message_views(v: Seq<SlackMessage>) -> Seq<SlackMessageView> {
    Seq::new(v.len(), |i: int| v[i]@)
}

/// The users of `v` as plain values.
pub open spec fn user_views(v: Seq<SlackUser>) -> Seq<SlackUserView> {
    Seq::new(v.len(), |i: int| v[i]@)
}

/// `ids` without repetitions: each id stands where it first occurs.
pub open spec fn distinct(ids: Seq<Seq<char>>) -> Seq<Seq<char>>
    decreases ids.len(),
{
    if ids.len() == 0 {
        Seq::empty()
    } else if distinct(ids.drop_last()).contains(ids.last()) {
        distinct(ids.drop_last())
    } else {
        distinct(ids.drop_last()).push(ids.last())
    }
}

/// Whom to look up before `messages` can be shown when `known` is known
/// already: the authors of the messages but for `known`, each author once,
/// in the order of their first messages.
pub open spec fn other_authors(known: Seq<char>, messages: Seq<SlackMessageView>) -> Seq<Seq<char>> {
    distinct(seq![known] + Seq::new(messages.len(), |i: int| messages[i].user)).skip(1)
}

/// `distinct` holds nothing twice, and holds exactly what `ids` holds.
proof fn lemma_distinct(ids: Seq<Seq<char>>)
    ensures
        distinct(ids).no_duplicates(),
        forall|id: Seq<char>| distinct(ids).contains(id) <==> ids.contains(id),
        distinct(ids).len() <= ids.len(),
    decreases ids.len(),
{
    if ids.len() > 0 {
        let head = ids.drop_last();
        lemma_distinct(head);
        let d = distinct(head);
        assert forall|id: Seq<char>| distinct(ids).contains(id) <==> ids.contains(id) by {
            if ids.contains(id) {
                let k = choose|k: int| 0 <= k < ids.len() && ids[k] == id;
                if k < head.len() {
                    assert(head[k] == id);
                    assert(head.contains(id));
                    assert(d.contains(id));
                    let j = choose|j: int| 0 <= j < d.len() && d[j] == id;
                    assert(distinct(ids)[j] == id);
                } else if !d.contains(ids.last()) {
                    assert(distinct(ids)[d.len() as int] == id);
                }
            }
            if distinct(ids).contains(id) {
                let j = choose|j: int| 0 <= j < distinct(ids).len() && distinct(ids)[j] == id;
                if j < d.len() {
                    assert(d[j] == id);
                    assert(d.contains(id));
                    assert(head.contains(id));
                    let k = choose|k: int| 0 <= k < head.len() && head[k] == id;
                    assert(ids[k] == id);
                } else {
                    assert(ids[ids.len() - 1] == id);
                }
            }
        }
    }
}

/// Whether `list` holds `id`.
pub fn holds(list: &Vec<String>, id: &str) -> (found: bool)
    ensures
        found == texts(list@).contains(id@),
{
    let mut i: usize = 0;
    while i < list.len()
        invariant
            i <= list.len(),
            forall|k: int| 0 <= k < i ==> texts(list@)[k] != id@,
        decreases list.len() - i,
    {
        if same_text(list[i].as_str(), id) {
            assert(texts(list@)[i as int] == id@);
            return true;
        }
        i += 1;
    }
    false
}

/// Whoever is met in a run is looked up once: `other_authors` names nobody
/// twice, does not name `known`, and names every other author of `messages`.
pub proof fn other_authors_are_new(known: Seq<char>, messages: Seq<SlackMessageView>)
    ensures
        other_authors(known, messages).no_duplicates(),
        !other_authors(known, messages).contains(known),
        forall|i: int|
            0 <= i < messages.len() && messages[i].user != known ==> other_authors(
                known,
                messages,
            ).contains(#[trigger] messages[i].user),
        forall|id: Seq<char>|
            other_authors(known, messages).contains(id) ==> exists|i: int|
                0 <= i < messages.len() && messages[i].user == id,
{
    let authors = Seq::new(messages.len(), |i: int| messages[i].user);
    let met = seq![known] + authors;
    let once = distinct(met);
    let others = other_authors(known, messages);
    lemma_distinct(met);
    lemma_distinct_head(met);
    assert forall|id: Seq<char>| others.contains(id) implies id != known && once.contains(id) by {
        let j = choose|j: int| 0 <= j < others.len() && others[j] == id;
        assert(once[j + 1] == id);
    }
    assert forall|i: int|
        0 <= i < messages.len() && messages[i].user != known implies others.contains(
        #[trigger] messages[i].user,
    ) by {
        assert(met[i + 1] == messages[i].user);
        assert(met.contains(messages[i].user));
        assert(once.contains(messages[i].user));
        let j = choose|j: int| 0 <= j < once.len() && once[j] == messages[i].user;
        assert(others[j - 1] == messages[i].user);
    }
    assert forall|id: Seq<char>| others.contains(id) implies exists|i: int|
        0 <= i < messages.len() && messages[i].user == id by {
        assert(once.contains(id));
        assert(met.contains(id));
        let k = choose|k: int| 0 <= k < met.len() && met[k] == id;
        assert(messages[k - 1].user == id);
    }
}

/// `distinct` begins with what `ids` begins with.
proof fn lemma_distinct_head(ids: Seq<Seq<char>>)
    requires
        ids.len() > 0,
    ensures
        distinct(ids).len() > 0,
        distinct(ids)[0] == ids[0],
    decreases ids.len(),
{
    if ids.len() > 1 {
        lemma_distinct_head(ids.drop_last());
    } else {
        assert(distinct(ids.drop_last()).len() == 0);
    }
}

/// Lists whom to look up before `messages` can be shown when `known` is
/// known already.
pub fn authors_besides(messages: &Vec<SlackMessage>, known: &str) -> (ids: Vec<String>)
    ensures
        texts(ids@) == other_authors(known@, message_views(messages@)),
{
    let ghost all = seq![known@] + Seq::new(
        messages@.len(),
        |i: int| message_views(messages@)[i].user,
    );
    let mut ids: Vec<String> = Vec::new();
    ids.push(known.to_string());
    assert(texts(ids@) == distinct(all.take(1))) by {
        reveal_with_fuel(distinct, 2);
        assert(all.take(1).drop_last() == Seq::<Seq<char>>::empty());
        assert(texts(ids@) == Seq::<Seq<char>>::empty().push(known@));
    }
    let mut i: usize = 0;
    while i < messages.len()
        invariant
            i <= messages.len(),
            all == seq![known@] + Seq::new(
                messages@.len(),
                |i: int| message_views(messages@)[i].user,
            ),
            texts(ids@) == distinct(all.take(i + 1)),
        decreases messages.len() - i,
    {
        assert(all.take(i + 2).drop_last() == all.take(i + 1));
        if !holds(&ids, messages[i].user.as_str()) {
            ids.push(messages[i].user.clone());
        }
        i += 1;
    }
    assert(all.take(messages.len() + 1) == all);
    proof {
        lemma_distinct_head(all);
    }
    ids.remove(0);
    ids
}

/// What came of looking users up, as plain values.
pub open spec fn lookup_views(v: Seq<Result<SlackUser, SlackClientError>>) -> Seq<
    Result<SlackUserView, SlackClientError>,
> {
    Seq::new(
        v.len(),
        |i: int|
            match v[i] {
                Ok(u) => Ok(u@),
                Err(e) => Err(e),
            },
    )
}

/// The least index at or behind `from` at which a lookup failed, or the
/// number of lookups where none did.
pub open spec fn first_failure(
    lookups: Seq<Result<SlackUserView, SlackClientError>>,
    from: int,
) -> int
    decreases lookups.len() - from,
{
    if from < 0 || from >= lookups.len() {
        lookups.len() as int
    } else if lookups[from] is Err {
        from
    } else {
        first_failure(lookups, from + 1)
    }
}

/// All the users looked up, or nothing: where a lookup failed, the first
/// failure stands for them all, and no user that was found is used.
pub open spec fn all_found(lookups: Seq<Result<SlackUserView, SlackClientError>>) -> Result<
    Seq<SlackUserView>,
    SlackClientError,
> {
    if first_failure(lookups, 0) < lookups.len() {
        Err(lookups[first_failure(lookups, 0)]->Err_0)
    } else {
        Ok(Seq::new(lookups.len(), |i: int| lookups[i]->Ok_0))
    }
}

/// `first_failure` finds a failure, and none lies before it.
proof fn lemma_first_failure(lookups: Seq<Result<SlackUserView, SlackClientError>>, from: int)
    requires
        0 <= from <= lookups.len(),
    ensures
        from <= first_failure(lookups, from) <= lookups.len(),
        first_failure(lookups, from) < lookups.len() ==> lookups[first_failure(lookups, from)]
            is Err,
        forall|k: int| from <= k < first_failure(lookups, from) ==> lookups[k] is Ok,
    decreases lookups.len() - from,
{
    if from < lookups.len() && lookups[from] is Ok {
        lemma_first_failure(lookups, from + 1);
    }
}

/// The users are all found exactly where every lookup went well.
pub proof fn all_or_nothing(lookups: Seq<Result<SlackUserView, SlackClientError>>)
    ensures
        all_found(lookups) is Ok <==> forall|k: int| 0 <= k < lookups.len() ==> lookups[k] is Ok,
        all_found(lookups) matches Ok(users) ==> users.len() == lookups.len() && forall|k: int|
            0 <= k < lookups.len() ==> lookups[k] == Ok::<SlackUserView, SlackClientError>(
                users[k],
            ),
{
    lemma_first_failure(lookups, 0);
}

/// Joins what came of looking users up: all of them, or the first failure.
pub fn join_users(lookups: Vec<Result<SlackUser, SlackClientError>>) -> (users: Result<
    Vec<SlackUser>,
    SlackClientError,
>)
    ensures
        match users {
            Ok(u) => all_found(lookup_views(lookups@)) == Ok::<Seq<SlackUserView>, SlackClientError>(
                user_views(u@),
            ),
            Err(e) => all_found(lookup_views(lookups@)) == Err::<Seq<SlackUserView>, SlackClientError>(
                e,
            ),
        },
{
    let ghost all = lookup_views(lookups@);
    let mut found: Vec<SlackUser> = Vec::new();
    for lookup in it: lookups
        invariant
            all == lookup_views(it.seq()),
            first_failure(all, 0) == first_failure(all, it.index() as int),
            found@.len() == it.index(),
            forall|k: int| 0 <= k < it.index() ==> all[k] == Ok::<SlackUserView, SlackClientError>(
                #[trigger] found@[k]@,
            ),
    {
        match lookup {
            Ok(user) => {
                found.push(user);
            },
            Err(e) => {
                return Err(e);
            },
        }
    }
    assert(user_views(found@) == Seq::new(all.len(), |i: int| all[i]->Ok_0));
    Ok(found)
}

/// The names of `users` by their ids; of two users with one id the later
/// one counts.
pub open spec fn directory(users: Seq<SlackUserView>) -> Map<Seq<char>, Seq<char>>
    decreases users.len(),
{
    if users.len() == 0 {
        Map::empty()
    } else {
        directory(users.drop_last()).insert(users.last().id, users.last().name)
    }
}

/// Makes the directory of `users`.
pub fn directory_of(users: &Vec<SlackUser>) -> (names: UserDirectory)
    ensures
        names@ == directory(user_views(users@)),
{
    let ghost all = user_views(users@);
    let mut names = UserDirectory::new();
    let mut i: usize = 0;
    while i < users.len()
        invariant
            i <= users.len(),
            all == user_views(users@),
            names@ == directory(all.take(i as int)),
        decreases users.len() - i,
    {
        assert(all.take(i + 1).drop_last() == all.take(i as int));
        names.insert(users[i].id.clone(), users[i].name.clone());
        i += 1;
    }
    assert(all.take(users.len() as int) == all);
    names
}

/// One message as a line of an issue: the author's name, or nothing where
/// `names` has none, then a colon, a space and the message's text in plain
/// form.
pub open spec fn line(message: SlackMessageView, names: Map<Seq<char>, Seq<char>>) -> Seq<char> {
    (if names.contains_key(message.user) {
        names[message.user]
    } else {
        Seq::empty()
    }) + ": "@ + humanize(message.text, names)
}

/// The lines of `messages` in the order given, with a line feed between two
/// of them.
pub open spec fn transcript(
    messages: Seq<SlackMessageView>,
    names: Map<Seq<char>, Seq<char>>,
) -> Seq<char>
    decreases messages.len(),
{
    if messages.len() == 0 {
        Seq::empty()
    } else if messages.len() == 1 {
        line(messages[0], names)
    } else {
        transcript(messages.drop_last(), names) + "\n"@ + line(messages.last(), names)
    }
}

/// The title of the issue for `messages`: the first message's text in plain
/// form, and nothing where there is no message.
pub open spec fn issue_title(
    messages: Seq<SlackMessageView>,
    names: Map<Seq<char>, Seq<char>>,
) -> Seq<char> {
    if messages.len() == 0 {
        Seq::empty()
    } else {
        humanize(messages[0].text, names)
    }
}

/// The body of the issue for `messages`: their transcript in a fenced code
/// block, and the link to the conversation on a line of its own.
pub open spec fn issue_body(
    messages: Seq<SlackMessageView>,
    names: Map<Seq<char>, Seq<char>>,
    permalink: Seq<char>,
) -> Seq<char> {
    "```\n"@ + transcript(messages, names) + "\n```\n"@ + permalink
}

/// What the service posts once an issue is filed: a mention of `actor` and
/// the address of the issue.
pub open spec fn confirmation(actor: Seq<char>, url: Seq<char>) -> Seq<char> {
    "<@"@ + actor + "> "@ + url
}

/// What the service answers to a mention: `pong` to `ping`, and to anything
/// else the same text in a fenced code block. A mention of the service at the
/// head of `text` does not count.
pub open spec fn mention_reply(text: Seq<char>) -> Seq<char> {
    if without_head_mention(text) == "ping"@ {
        "pong"@
    } else {
        "```\n"@ + without_head_mention(text) + "\n```"@
    }
}

/// Writes `message` as a line of an issue.
pub fn render_line(message: &SlackMessage, names: &UserDirectory) -> (out: String)
    ensures
        out@ == line(message@, names@),
{
    let mut out = match names.get(message.user.as_str()) {
        Some(name) => name.clone(),
        None => String::new(),
    };
    out.append(": ");
    let text = humanize_slack_formatted_text(message.text.as_str(), names);
    out.append(text.as_str());
    out
}

/// Writes the title of the issue for `messages`.
pub fn render_title(messages: &Vec<SlackMessage>, names: &UserDirectory) -> (title: String)
    ensures
        title@ == issue_title(message_views(messages@), names@),
{
    if messages.len() == 0 {
        String::new()
    } else {
        humanize_slack_formatted_text(messages[0].text.as_str(), names)
    }
}

/// Writes the body of the issue for `messages`.
pub fn render_body(messages: &Vec<SlackMessage>, names: &UserDirectory, permalink: &str) -> (body:
    String)
    ensures
        body@ == issue_body(message_views(messages@), names@, permalink@),
{
    let ghost all = message_views(messages@);
    let mut body = "```\n".to_string();
    let mut i: usize = 0;
    while i < messages.len()
        invariant
            i <= messages.len(),
            all == message_views(messages@),
            body@ == "```\n"@ + transcript(all.take(i as int), names@),
        decreases messages.len() - i,
    {
        assert(all.take(i + 1).drop_last() == all.take(i as int));
        if i > 0 {
            body.append("\n");
        }
        let shown = render_line(&messages[i], names);
        body.append(shown.as_str());
        i += 1;
    }
    assert(all.take(messages.len() as int) == all);
    body.append("\n```\n");
    body.append(permalink);
    body
}

/// Writes what the service posts once an issue is filed.
pub fn render_confirmation(actor: &str, url: &str) -> (text: String)
    ensures
        text@ == confirmation(actor@, url@),
{
    let mut text = "<@".to_string();
    text.append(actor);
    text.append("> ");
    text.append(url);
    text
}

/// Writes what the service answers to a mention.
pub fn render_mention_reply(text: &str) -> (reply: String)
    ensures
        reply@ == mention_reply(text@),
{
    let content = remove_head_mention(text);
    if same_text(content.as_str(), "ping") {
        "pong".to_string()
    } else {
        let mut reply = "```\n".to_string();
        reply.append(content.as_str());
        reply.append("\n```");
        reply
    }
}

/// The fence of an issue holds: in the transcript every backtick stands
/// behind a backslash, whatever the messages say, as long as the names of
/// their authors have their backticks escaped.
pub proof fn transcript_backticks_are_escaped(
    messages: Seq<SlackMessageView>,
    names: Map<Seq<char>, Seq<char>>,
)
    requires
        names_escaped(names),
    ensures
        backticks_escaped(transcript(messages, names)),
    decreases messages.len(),
{
    reveal_strlit(": ");
    reveal_strlit("\n");
    if messages.len() > 0 {
        let last = messages.last();
        let name = if names.contains_key(last.user) {
            names[last.user]
        } else {
            Seq::empty()
        };
        humanized_backticks_are_escaped(last.text, names);
        assert(backticks_escaped(": "@)) by {
            assert(": "@[0] != '`' && ": "@[1] != '`');
        }
        lemma_escaped_concat(name, ": "@);
        lemma_escaped_concat(name + ": "@, humanize(last.text, names));
        if messages.len() > 1 {
            transcript_backticks_are_escaped(messages.drop_last(), names);
            assert(backticks_escaped("\n"@)) by {
                assert("\n"@[0] != '`');
            }
            lemma_escaped_concat(transcript(messages.drop_last(), names), "\n"@);
            lemma_escaped_concat(
                transcript(messages.drop_last(), names) + "\n"@,
                line(last, names),
            );
        }
    }
}

} // verus!
