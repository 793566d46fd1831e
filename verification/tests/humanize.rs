use emoji_to_do::humanize::{humanize_slack_formatted_text, remove_head_mention, UserDirectory};
use regex::{Captures, Regex};

fn directory(entries: &[(&str, &str)]) -> UserDirectory {
    let mut names = UserDirectory::new();
    for (id, name) in entries {
        names.insert(id.to_string(), name.to_string());
    }
    names
}

fn humanize(text: &str, entries: &[(&str, &str)]) -> String {
    humanize_slack_formatted_text(text, &directory(entries))
}

#[test]
fn test_remove_head_mention() {
    let text = remove_head_mention("<@U1234> ping");
    assert_eq!(text, "ping")
}

#[test]
fn test_humanize_slack_formatted_text() {
    let mut slack_user_map = UserDirectory::new();
    slack_user_map.insert("U1234".to_string(), "uiur".to_string());

    let text = humanize_slack_formatted_text(
        "<@U1234> foo bar <https://github.com/uiur/sandbox/issues/1>",
        &slack_user_map,
    );
    assert_eq!(
        text,
        "@uiur foo bar https://github.com/uiur/sandbox/issues/1"
    );

    let text = humanize_slack_formatted_text("```\nfoo bar\n```", &slack_user_map);
    assert_eq!(text, "\\`\\`\\` foo bar \\`\\`\\`");

    let text = humanize_slack_formatted_text("<!here>", &slack_user_map);
    assert_eq!(text, "@here");

    let text = humanize_slack_formatted_text("<!subteam^SAZ94GDB8>", &slack_user_map);
    assert_eq!(text, "@subteam^SAZ94GDB8");

    let text = humanize_slack_formatted_text("<#C024BE7LR>", &slack_user_map);
    assert_eq!(text, "#C024BE7LR");
}

#[test]
fn user_mention_shows_the_name() {
    assert_eq!(humanize("<@U1>", &[("U1", "uiur")]), "@uiur");
}

#[test]
fn user_mention_falls_back_to_the_id() {
    assert_eq!(humanize("<@U2>", &[]), "@U2");
    assert_eq!(humanize("<@U2>", &[("U1", "uiur")]), "@U2");
}

#[test]
fn user_mention_ignores_its_label() {
    assert_eq!(humanize("<@U1|someone>", &[("U1", "uiur")]), "@uiur");
    assert_eq!(humanize("<@U1|someone>", &[]), "@U1");
}

#[test]
fn special_mention_shows_what_it_names() {
    assert_eq!(humanize("<!here>", &[]), "@here");
    assert_eq!(humanize("<!channel>", &[]), "@channel");
}

#[test]
fn special_mention_ignores_its_label() {
    assert_eq!(humanize("<!subteam^S1|@team>", &[]), "@subteam^S1");
}

#[test]
fn special_mention_does_not_use_the_directory() {
    assert_eq!(humanize("<!here>", &[("here", "nobody")]), "@here");
}

#[test]
fn channel_shows_its_label() {
    assert_eq!(humanize("<#C1|general>", &[]), "#general");
}

#[test]
fn channel_without_label_shows_its_id() {
    assert_eq!(humanize("<#C1>", &[]), "#C1");
}

#[test]
fn link_shows_its_target() {
    assert_eq!(humanize("<https://example.com>", &[]), "https://example.com");
    assert_eq!(humanize("<https://example.com|example>", &[]), "https://example.com");
}

#[test]
fn code_fence_is_escaped_and_flattened() {
    assert_eq!(humanize("```\nfoo\n```", &[]), "\\`\\`\\` foo \\`\\`\\`");
}

#[test]
fn line_feeds_become_spaces() {
    assert_eq!(humanize("a\nb\n\nc", &[]), "a b  c");
}

#[test]
fn humanizing_twice_escapes_twice() {
    let once = humanize("a`b", &[]);
    assert_eq!(once, "a\\`b");
    let twice = humanize(&once, &[]);
    assert_eq!(twice, "a\\\\`b");
    assert_ne!(once, twice);
}

#[test]
fn humanizing_twice_changes_nothing_without_backticks() {
    let once = humanize("a\nb", &[]);
    assert_eq!(humanize(&once, &[]), once);
}

#[test]
fn a_dropped_label_takes_its_backtick_along() {
    let once = humanize("<@U1|`>", &[]);
    assert_eq!(once, "@U1");
    assert_eq!(humanize(&once, &[]), once);
}

#[test]
fn empty_text_stays_empty() {
    assert_eq!(humanize("", &[]), "");
}

#[test]
fn text_without_references_is_kept() {
    assert_eq!(humanize("a < b", &[]), "a < b");
    assert_eq!(humanize("a > b", &[]), "a > b");
    assert_eq!(humanize("plain text", &[]), "plain text");
}

#[test]
fn several_references_are_all_rendered() {
    assert_eq!(
        humanize("<@U1> and <@U2> in <#C1|dev>", &[("U1", "ann"), ("U2", "bob")]),
        "@ann and @bob in #dev"
    );
}

#[test]
fn unclosed_bracket_is_kept() {
    assert_eq!(humanize("a <@U1 b", &[("U1", "ann")]), "a <@U1 b");
    assert_eq!(humanize("<", &[]), "<");
    assert_eq!(humanize("<>", &[]), "<>");
}

#[test]
fn lone_mark_is_its_own_target() {
    assert_eq!(humanize("<@>", &[]), "@");
    assert_eq!(humanize("<#>", &[]), "#");
    assert_eq!(humanize("<!>", &[]), "!");
}

#[test]
fn label_runs_to_the_closing_bracket() {
    assert_eq!(humanize("<#a|b|c>", &[]), "#b|c");
    assert_eq!(humanize("<#a|>x>", &[]), "#>x");
    assert_eq!(humanize("<#a|>", &[]), "#a|");
}

#[test]
fn target_may_begin_with_any_character() {
    assert_eq!(humanize("<>>", &[]), ">");
    assert_eq!(humanize("<|>", &[]), "|");
    assert_eq!(humanize("<<a>", &[]), "<a");
    assert_eq!(humanize("<@>x>", &[]), "@>x");
}

#[test]
fn directory_names_are_taken_as_they_are() {
    assert_eq!(humanize("<@U1>", &[("U1", "a`b\nc")]), "@a`b\nc");
}

#[test]
fn later_name_replaces_earlier_one() {
    assert_eq!(humanize("<@U1>", &[("U1", "ann"), ("U1", "bob")]), "@bob");
}

#[test]
fn characters_beyond_ascii_are_kept() {
    assert_eq!(humanize("<@U1> \u{3053}\u{3093}`", &[("U1", "\u{e9}")]), "@\u{e9} \u{3053}\u{3093}\\`");
}

fn reference_pattern() -> Regex {
    Regex::new(r"<(?P<mark>[@#!])?(?P<a>.+?)(\|(?P<b>.+?))?>").unwrap()
}

fn by_pattern(re: &Regex, text: &str, entries: &[(&str, &str)]) -> String {
    let text = text.replace('\n', " ");
    let text = text.replace('`', "\\`");
    re.replace_all(&text, |caps: &Captures| {
        let inner = caps.name("a").map(|m| m.as_str()).unwrap_or_default();
        let label = caps.name("b").map(|m| m.as_str());
        match caps.name("mark").map(|m| m.as_str()).unwrap_or_default() {
            "@" => {
                let known = entries.iter().rev().find(|(id, _)| *id == inner);
                format!("@{}", known.map(|(_, name)| *name).unwrap_or(inner))
            }
            "!" => format!("@{}", inner),
            "#" => format!("#{}", label.unwrap_or(inner)),
            mark => format!("{}{}", mark, inner),
        }
    })
    .into_owned()
}

fn words(alphabet: &[char], longest: usize) -> Vec<String> {
    let mut all = vec![String::new()];
    let mut last = vec![String::new()];
    for _ in 0..longest {
        let mut grown = Vec::new();
        for word in &last {
            for c in alphabet {
                let mut longer = word.clone();
                longer.push(*c);
                grown.push(longer);
            }
        }
        all.extend(grown.iter().cloned());
        last = grown;
    }
    all
}

#[test]
fn references_are_the_matches_of_the_pattern() {
    let entries = [("a", "ann"), ("a|", "bar"), (">", "gt")];
    let re = reference_pattern();
    let names = directory(&entries);
    for word in words(&['<', '>', '|', '@', 'a'], 6) {
        let shown = humanize_slack_formatted_text(&word, &names);
        assert_eq!(shown, by_pattern(&re, &word, &entries), "{:?}", word);
    }
}

#[test]
fn marks_and_escapes_agree_with_the_pattern() {
    let entries = [("`", "tick"), ("\\`", "escaped")];
    let re = reference_pattern();
    let names = directory(&entries);
    for word in words(&['<', '>', '|', '#', '!', '@', '`', '\n'], 4) {
        let shown = humanize_slack_formatted_text(&word, &names);
        assert_eq!(shown, by_pattern(&re, &word, &entries), "{:?}", word);
    }
}

#[test]
fn head_mention_with_id_of_digits_and_capitals() {
    assert_eq!(remove_head_mention("<@U0AZ9>hello"), "hello");
}

#[test]
fn head_mention_takes_all_white_space_behind_it() {
    assert_eq!(remove_head_mention("<@U1> \t\n\u{a0}\u{3000}ping"), "ping");
    assert_eq!(remove_head_mention("<@U1>   "), "");
}

#[test]
fn only_one_head_mention_is_taken() {
    assert_eq!(remove_head_mention("<@U1> <@U2> ping"), "<@U2> ping");
}

#[test]
fn mention_elsewhere_is_kept() {
    assert_eq!(remove_head_mention("ping <@U1>"), "ping <@U1>");
    assert_eq!(remove_head_mention(" <@U1> ping"), " <@U1> ping");
}

#[test]
fn head_that_is_no_mention_is_kept() {
    assert_eq!(remove_head_mention("<@u1> ping"), "<@u1> ping");
    assert_eq!(remove_head_mention("<@> ping"), "<@> ping");
    assert_eq!(remove_head_mention("<@U1 ping"), "<@U1 ping");
    assert_eq!(remove_head_mention("<@U1|ann> ping"), "<@U1|ann> ping");
    assert_eq!(remove_head_mention("<#C1> ping"), "<#C1> ping");
    assert_eq!(remove_head_mention(""), "");
    assert_eq!(remove_head_mention("<@"), "<@");
}

#[test]
fn head_mention_is_the_match_of_the_pattern() {
    let re = Regex::new(r"^<@[0-9A-Z]+>\s*").unwrap();
    for word in words(&['<', '@', 'U', '7', '>', ' ', 'a', '\u{2003}'], 5) {
        assert_eq!(remove_head_mention(&word), re.replace(&word, "").into_owned(), "{:?}", word);
    }
}

#[test]
fn white_space_is_what_the_pattern_calls_so() {
    let re = Regex::new(r"^<@[0-9A-Z]+>\s*").unwrap();
    for code in 0u32..0x3100 {
        if let Some(c) = char::from_u32(code) {
            let text = format!("<@U1>{}x", c);
            assert_eq!(remove_head_mention(&text), re.replace(&text, "").into_owned(), "{:?}", c);
        }
    }
}
