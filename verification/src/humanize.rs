//! Rendering of Slack's message markup as plain text.
//!
//! Slack writes a mention of a user as `<@U024BE7LH>`, a channel as
//! `<#C024BE7LR|general>`, a special mention as `<!here>` and a link as
//! `<https://example.com>`. An issue tracker shows none of these the way
//! Slack does, so a message is put into plain text before it goes into an
//! issue.
use vstd::prelude::*;
use vstd::hash_map::StringHashMap;
use crate::text::{from_chars, push_range, to_chars};

verus! {

/// Display names of Slack users, by user id.
pub struct UserDirectory {
    names: StringHashMap<String>,
}

impl View for UserDirectory {
    type V = Map<Seq<char>, Seq<char>>;

    closed spec fn view(&self) -> Map<Seq<char>, Seq<char>> {
        Map::new(|id: Seq<char>| self.names@.contains_key(id), |id: Seq<char>| self.names@[id]@)
    }
}

impl UserDirectory {
    /// A directory that knows nobody.
    pub fn new() -> (dir: UserDirectory)
        ensures
            dir@ == Map::<Seq<char>, Seq<char>>::empty(),
    {
        UserDirectory { names: StringHashMap::new() }
    }

    /// Records `name` for `id`; a name recorded earlier for `id` is replaced.
    pub fn insert(&mut self, id: String, name: String)
        ensures
            final(self)@ == old(self)@.insert(id@, name@),
    {
        self.names.insert(id, name);
    }

    /// The name recorded for `id`, if there is one.
    pub fn get(&self, id: &str) -> (name: Option<&String>)
        ensures
            name is Some <==> self@.contains_key(id@),
            name matches Some(n) ==> n@ == self@[id@],
    {
        self.names.get(id)
    }
}

/// `s` with every line feed turned into a space.
pub open spec fn replace_newlines(s: Seq<char>) -> Seq<char> {
    Seq::new(s.len(), |i: int| if s[i] == '\n' { ' ' } else { s[i] })
}

/// `s` with a backslash put before every backtick.
pub open spec fn escape_backticks(s: Seq<char>) -> Seq<char>
    decreases s.len(),
{
    if s.len() == 0 {
        Seq::empty()
    } else if s.last() == '`' {
        escape_backticks(s.drop_last()).push('\\').push('`')
    } else {
        escape_backticks(s.drop_last()).push(s.last())
    }
}

/// The least index in `from..until` at which `s` holds `c`, or `until` where
/// there is none.
pub open spec fn first_at(s: Seq<char>, c: char, from: int, until: int) -> int
    decreases until - from,
{
    if from >= until {
        until
    } else if s[from] == c {
        from
    } else {
        first_at(s, c, from + 1, until)
    }
}

/// What `first_at` finds lies in the range searched, holds `c` unless it is
/// `until`, and nothing before it in the range holds `c`.
proof fn lemma_first_at(s: Seq<char>, c: char, from: int, until: int)
    requires
        from <= until,
    ensures
        from <= first_at(s, c, from, until) <= until,
        first_at(s, c, from, until) < until ==> s[first_at(s, c, from, until)] == c,
        forall|k: int| from <= k < first_at(s, c, from, until) ==> s[k] != c,
    decreases until - from,
{
    if from < until && s[from] != c {
        lemma_first_at(s, c, from + 1, until);
    }
}

/// The least index in `from..until` at which `chars` holds `c`, or `until`.
fn find_first(chars: &Vec<char>, c: char, from: usize, until: usize) -> (at: usize)
    requires
        from <= until <= chars.len(),
    ensures
        at == first_at(chars@, c, from as int, until as int),
        from <= at <= until,
{
    let mut i: usize = from;
    while i < until && chars[i] != c
        invariant
            from <= i <= until <= chars.len(),
            first_at(chars@, c, from as int, until as int) == first_at(
                chars@,
                c,
                i as int,
                until as int,
            ),
        decreases until - i,
    {
        i += 1;
    }
    i
}

/// One reference in a text: the sign behind the opening bracket, what the
/// reference points at, the label behind a bar, and the index just behind the
/// closing bracket.
pub struct Reference {
    pub mark: Option<char>,
    pub target: Seq<char>,
    pub label: Option<Seq<char>>,
    pub end: int,
}

/// Whether `c` is one of the signs that tell the kinds of reference apart:
/// `@` for a user, `#` for a channel, `!` for a special mention.
pub open spec fn is_mark(c: char) -> bool {
    c == '@' || c == '#' || c == '!'
}

/// The reference whose target begins at `start`, read as far as its closing
/// bracket; `mark` is handed through.
///
/// The target has at least one character, whatever that character is, and
/// ends at the first bar that a label can follow, else at the first closing
/// bracket. A label has at least one character too and ends at the first
/// closing bracket behind that character. So `a|b|c>` has the label `b|c`,
/// `a|>x>` has the label `>x`, and in `a|>` with no bracket to follow the bar
/// belongs to the target.
pub open spec fn reference_from(s: Seq<char>, mark: Option<char>, start: int) -> Option<Reference> {
    let close = first_at(s, '>', start + 1, s.len() as int);
    let bar = first_at(s, '|', start + 1, close);
    let far = first_at(s, '>', close + 1, s.len() as int);
    if start < 0 || start >= s.len() || close >= s.len() {
        None
    } else if bar + 1 < close {
        Some(
            Reference {
                mark,
                target: s.subrange(start, bar),
                label: Some(s.subrange(bar + 1, close)),
                end: close + 1,
            },
        )
    } else if bar < close && far < s.len() {
        Some(
            Reference {
                mark,
                target: s.subrange(start, bar),
                label: Some(s.subrange(close, far)),
                end: far + 1,
            },
        )
    } else {
        Some(Reference { mark, target: s.subrange(start, close), label: None, end: close + 1 })
    }
}

/// The reference that opens at index `at`, if one does.
///
/// A sign behind the bracket is the reference's mark wherever a target can
/// follow it; in `<@>` nothing can, and the sign is the target.
pub open spec fn reference_at(s: Seq<char>, at: int) -> Option<Reference> {
    if 0 <= at && at + 1 < s.len() && s[at] == '<' {
        if is_mark(s[at + 1]) && reference_from(s, Some(s[at + 1]), at + 2) is Some {
            reference_from(s, Some(s[at + 1]), at + 2)
        } else {
            reference_from(s, None, at + 1)
        }
    } else {
        None
    }
}

/// How a reference reads in plain text.
///
/// A user is shown by the name that `names` has for the id, else by the id;
/// a special mention by what it names, whatever label it carries; a channel
/// by its label, else by its id; anything else by its target alone.
pub open spec fn render_reference(r: Reference, names: Map<Seq<char>, Seq<char>>) -> Seq<char> {
    match r.mark {
        Some(c) => if c == '@' {
            seq!['@'] + (if names.contains_key(r.target) {
                names[r.target]
            } else {
                r.target
            })
        } else if c == '!' {
            seq!['@'] + r.target
        } else if c == '#' {
            seq!['#'] + (match r.label {
                Some(label) => label,
                None => r.target,
            })
        } else {
            seq![c] + r.target
        },
        None => r.target,
    }
}

/// A reference ends behind the index at which it opens, and within the text.
pub proof fn reference_ends_within_text(s: Seq<char>, at: int)
    ensures
        reference_at(s, at) matches Some(r) ==> at + 2 < r.end <= s.len(),
{
    let len = s.len() as int;
    if 0 <= at && at + 1 < len {
        reference_from_ends_within_text(s, at + 1);
        reference_from_ends_within_text(s, at + 2);
    }
}

/// A reference read from `start` ends behind `start + 1`, and within the text.
pub proof fn reference_from_ends_within_text(s: Seq<char>, start: int)
    ensures
        forall|mark: Option<char>| #[trigger]
            reference_from(s, mark, start) matches Some(r) ==> start + 1 < r.end <= s.len(),
{
    let len = s.len() as int;
    if 0 <= start < len {
        lemma_first_at(s, '>', start + 1, len);
        let close = first_at(s, '>', start + 1, len);
        if close < len {
            lemma_first_at(s, '>', close + 1, len);
        }
    }
}

/// The text from index `at` on, with every reference in it rendered. The
/// text is read from left to right; where a reference opens it is taken
/// whole, and reading goes on behind it.
pub open spec fn expand_from(s: Seq<char>, names: Map<Seq<char>, Seq<char>>, at: int) -> Seq<char>
    decreases s.len() - at,
{
    if at < 0 || at >= s.len() {
        Seq::empty()
    } else {
        match reference_at(s, at) {
            Some(r) => {
                proof {
                    reference_ends_within_text(s, at);
                }
                render_reference(r, names) + expand_from(s, names, r.end)
            },
            None => seq![s[at]] + expand_from(s, names, at + 1),
        }
    }
}

/// `s` with every reference in it rendered.
pub open spec fn expand_references(s: Seq<char>, names: Map<Seq<char>, Seq<char>>) -> Seq<char> {
    expand_from(s, names, 0)
}

/// A message as it goes into an issue: line feeds become spaces, backticks
/// are escaped, and then every reference is rendered.
pub open spec fn humanize(text: Seq<char>, names: Map<Seq<char>, Seq<char>>) -> Seq<char> {
    expand_references(escape_backticks(replace_newlines(text)), names)
}

/// Where a reference lies in a text: its mark, the bounds of its target and
/// of its label, and the index just behind its closing bracket.
pub struct ReferenceSpan {
    pub mark: Option<char>,
    pub target: (usize, usize),
    pub label: Option<(usize, usize)>,
    pub end: usize,
}

impl ReferenceSpan {
    /// Whether the bounds lie within a text of `len` characters.
    pub open spec fn fits(&self, len: int) -> bool {
        &&& self.target.0 <= self.target.1 <= len
        &&& self.label matches Some(l) ==> l.0 <= l.1 <= len
        &&& self.end <= len
    }

    /// The reference that the span cuts out of `s`.
    pub open spec fn of(&self, s: Seq<char>) -> Reference {
        Reference {
            mark: self.mark,
            target: s.subrange(self.target.0 as int, self.target.1 as int),
            label: match self.label {
                Some(l) => Some(s.subrange(l.0 as int, l.1 as int)),
                None => None,
            },
            end: self.end as int,
        }
    }
}

/// Reads the reference whose target begins at `start`.
fn read_reference_from(chars: &Vec<char>, mark: Option<char>, start: usize) -> (span: Option<
    ReferenceSpan,
>)
    ensures
        span is Some <==> reference_from(chars@, mark, start as int) is Some,
        span matches Some(sp) ==> sp.fits(chars.len() as int) && Some(sp.of(chars@))
            == reference_from(chars@, mark, start as int),
{
    let len = chars.len();
    if start >= len {
        return None;
    }
    let close = find_first(chars, '>', start + 1, len);
    if close >= len {
        return None;
    }
    let bar = find_first(chars, '|', start + 1, close);
    if bar + 1 < close {
        return Some(
            ReferenceSpan { mark, target: (start, bar), label: Some((bar + 1, close)), end: close + 1 },
        );
    }
    if bar < close {
        let far = find_first(chars, '>', close + 1, len);
        if far < len {
            return Some(
                ReferenceSpan { mark, target: (start, bar), label: Some((close, far)), end: far + 1 },
            );
        }
    }
    Some(ReferenceSpan { mark, target: (start, close), label: None, end: close + 1 })
}

/// Reads the reference that opens at index `at`, if one does.
pub fn read_reference(chars: &Vec<char>, at: usize) -> (span: Option<ReferenceSpan>)
    ensures
        span is Some <==> reference_at(chars@, at as int) is Some,
        span matches Some(sp) ==> sp.fits(chars.len() as int) && Some(sp.of(chars@))
            == reference_at(chars@, at as int),
{
    let len = chars.len();
    if len < 2 || at >= len - 1 || chars[at] != '<' {
        return None;
    }
    let sign = chars[at + 1];
    if sign == '@' || sign == '#' || sign == '!' {
        let marked = read_reference_from(chars, Some(sign), at + 2);
        if marked.is_some() {
            return marked;
        }
    }
    read_reference_from(chars, None, at + 1)
}

/// Appends to `out` how the reference at `span` in `chars` reads in plain
/// text.
fn push_reference(
    out: &mut Vec<char>,
    chars: &Vec<char>,
    span: &ReferenceSpan,
    names: &UserDirectory,
)
    requires
        span.fits(chars.len() as int),
    ensures
        final(out)@ == old(out)@ + render_reference(span.of(chars@), names@),
{
    match span.mark {
        Some(c) => {
            if c == '@' {
                out.push('@');
                let mut id: Vec<char> = Vec::new();
                push_range(&mut id, chars, span.target.0, span.target.1);
                let key = from_chars(&id);
                match names.get(key.as_str()) {
                    Some(name) => {
                        let shown = to_chars(name.as_str());
                        push_range(out, &shown, 0, shown.len());
                    },
                    None => {
                        push_range(out, chars, span.target.0, span.target.1);
                    },
                }
            } else if c == '!' {
                out.push('@');
                push_range(out, chars, span.target.0, span.target.1);
            } else if c == '#' {
                out.push('#');
                match span.label {
                    Some(l) => {
                        push_range(out, chars, l.0, l.1);
                    },
                    None => {
                        push_range(out, chars, span.target.0, span.target.1);
                    },
                }
            } else {
                out.push(c);
                push_range(out, chars, span.target.0, span.target.1);
            }
        },
        None => {
            push_range(out, chars, span.target.0, span.target.1);
        },
    }
}

/// Renders every reference in `chars`.
pub fn expand(chars: &Vec<char>, names: &UserDirectory) -> (out: Vec<char>)
    ensures
        out@ == expand_references(chars@, names@),
{
    let mut out: Vec<char> = Vec::new();
    let mut at: usize = 0;
    while at < chars.len()
        invariant
            at <= chars.len(),
            out@ + expand_from(chars@, names@, at as int) == expand_references(chars@, names@),
        decreases chars.len() - at,
    {
        match read_reference(chars, at) {
            Some(span) => {
                proof {
                    reference_ends_within_text(chars@, at as int);
                }
                push_reference(&mut out, chars, &span, names);
                at = span.end;
            },
            None => {
                out.push(chars[at]);
                at += 1;
            },
        }
    }
    out
}

/// Turns every line feed in `chars` into a space and puts a backslash before
/// every backtick.
pub fn flatten_and_escape(chars: &Vec<char>) -> (out: Vec<char>)
    ensures
        out@ == escape_backticks(replace_newlines(chars@)),
{
    let ghost flat = replace_newlines(chars@);
    let mut out: Vec<char> = Vec::new();
    let mut i: usize = 0;
    while i < chars.len()
        invariant
            i <= chars.len(),
            flat == replace_newlines(chars@),
            out@ == escape_backticks(flat.take(i as int)),
        decreases chars.len() - i,
    {
        let c = chars[i];
        assert(flat.take(i + 1).drop_last() == flat.take(i as int));
        if c == '\n' {
            out.push(' ');
        } else if c == '`' {
            out.push('\\');
            out.push('`');
        } else {
            out.push(c);
        }
        i += 1;
    }
    assert(flat.take(chars.len() as int) == flat);
    out
}

/// Puts a Slack message into plain text for an issue: line feeds become
/// spaces, backticks are escaped, and every reference is rendered, a user by
/// the name that `slack_user_map` has for the id.
pub fn humanize_slack_formatted_text(text: &str, slack_user_map: &UserDirectory) -> (out: String)
    ensures
        out@ == humanize(text@, slack_user_map@),
{
    let chars = to_chars(text);
    let escaped = flatten_and_escape(&chars);
    let expanded = expand(&escaped, slack_user_map);
    from_chars(&expanded)
}

/// Whether `c` can stand in a user id: a digit or a capital letter of ASCII.
pub open spec fn is_id_char(c: char) -> bool {
    ('0' <= c && c <= '9') || ('A' <= c && c <= 'Z')
}

/// Whether `c` is white space, by Unicode's property of that name.
pub open spec fn is_space(c: char) -> bool {
    let n = c as u32;
    (0x09 <= n && n <= 0x0d) || n == 0x20 || n == 0x85 || n == 0xa0 || n == 0x1680 || (0x2000 <= n
        && n <= 0x200a) || n == 0x2028 || n == 0x2029 || n == 0x202f || n == 0x205f || n == 0x3000
}

/// The index behind the longest run of id characters that begins at `from`.
pub open spec fn id_end(s: Seq<char>, from: int) -> int
    decreases s.len() - from,
{
    if 0 <= from < s.len() && is_id_char(s[from]) {
        id_end(s, from + 1)
    } else {
        from
    }
}

/// The index behind the longest run of white space that begins at `from`.
pub open spec fn space_end(s: Seq<char>, from: int) -> int
    decreases s.len() - from,
{
    if 0 <= from < s.len() && is_space(s[from]) {
        space_end(s, from + 1)
    } else {
        from
    }
}

/// How many characters a mention at the head of `s` takes, the white space
/// behind it included: `<@`, an id of at least one character, `>`, and all
/// the white space that follows. It is 0 where `s` begins otherwise.
pub open spec fn head_mention_len(s: Seq<char>) -> int {
    let close = id_end(s, 2);
    if s.len() > 2 && s[0] == '<' && s[1] == '@' && 2 < close < s.len() && s[close] == '>' {
        space_end(s, close + 1)
    } else {
        0
    }
}

/// `s` without a mention at its head.
pub open spec fn without_head_mention(s: Seq<char>) -> Seq<char> {
    s.skip(head_mention_len(s))
}

/// Whether `c` can stand in a user id.
pub fn id_char(c: char) -> (yes: bool)
    ensures
        yes == is_id_char(c),
{
    ('0' <= c && c <= '9') || ('A' <= c && c <= 'Z')
}

/// Whether `c` is white space.
pub fn space(c: char) -> (yes: bool)
    ensures
        yes == is_space(c),
{
    let n: u32 = c as u32;
    (0x09 <= n && n <= 0x0d) || n == 0x20 || n == 0x85 || n == 0xa0 || n == 0x1680 || (0x2000 <= n
        && n <= 0x200a) || n == 0x2028 || n == 0x2029 || n == 0x202f || n == 0x205f || n == 0x3000
}

/// Counts the characters that a mention at the head of `chars` takes.
pub fn measure_head_mention(chars: &Vec<char>) -> (n: usize)
    ensures
        n == head_mention_len(chars@),
        n <= chars.len(),
{
    let len = chars.len();
    if len <= 2 || chars[0] != '<' || chars[1] != '@' {
        return 0;
    }
    let mut close: usize = 2;
    while close < len && id_char(chars[close])
        invariant
            2 <= close <= len == chars.len(),
            id_end(chars@, 2) == id_end(chars@, close as int),
        decreases len - close,
    {
        close += 1;
    }
    if close == 2 || close >= len || chars[close] != '>' {
        return 0;
    }
    let mut end: usize = close + 1;
    while end < len && space(chars[end])
        invariant
            close < end <= len == chars.len(),
            space_end(chars@, close + 1) == space_end(chars@, end as int),
        decreases len - end,
    {
        end += 1;
    }
    end
}

/// Takes a mention of a user, and the white space behind it, off the head of
/// `text`. A text that begins otherwise comes back unchanged.
pub fn remove_head_mention(text: &str) -> (out: String)
    ensures
        out@ == without_head_mention(text@),
{
    let chars = to_chars(text);
    let n = measure_head_mention(&chars);
    let mut rest: Vec<char> = Vec::new();
    push_range(&mut rest, &chars, n, chars.len());
    from_chars(&rest)
}

/// How many backticks `s` holds.
pub open spec fn backticks(s: Seq<char>) -> nat
    decreases s.len(),
{
    if s.len() == 0 {
        0
    } else if s.last() == '`' {
        backticks(s.drop_last()) + 1
    } else {
        backticks(s.drop_last())
    }
}

/// Escaping lengthens a text by one character for each backtick, keeps the
/// backticks and keeps every other character that is no backslash: such a
/// character occurs in the escaped text exactly if it occurs in the text. A
/// text without backticks is left as it is.
pub proof fn escaping_adds_one_per_backtick(s: Seq<char>)
    ensures
        escape_backticks(s).len() == s.len() + backticks(s),
        backticks(escape_backticks(s)) == backticks(s),
        backticks(s) == 0 ==> escape_backticks(s) == s,
        forall|c: char|
            c != '\\' && c != '`' ==> (escape_backticks(s).contains(c) <==> s.contains(c)),
    decreases s.len(),
{
    if s.len() > 0 {
        let head = s.drop_last();
        let e = escape_backticks(head);
        escaping_adds_one_per_backtick(head);
        if s.last() == '`' {
            assert(e.push('\\').push('`').drop_last() == e.push('\\'));
            assert(e.push('\\').drop_last() == e);
            assert(backticks(e.push('\\')) == backticks(e));
            assert(backticks(e.push('\\').push('`')) == backticks(e.push('\\')) + 1);
        } else {
            assert(e.push(s.last()).drop_last() == e);
            assert(backticks(e.push(s.last())) == backticks(e));
            if backticks(s) == 0 {
                assert(e.push(s.last()) == s);
            }
        }
        assert forall|c: char| c != '\\' && c != '`' implies (escape_backticks(s).contains(c)
            <==> s.contains(c)) by {
            let out = escape_backticks(s);
            if s.contains(c) {
                let k = choose|k: int| 0 <= k < s.len() && s[k] == c;
                if k < head.len() {
                    assert(head[k] == c);
                    assert(head.contains(c));
                    assert(e.contains(c));
                    let j = choose|j: int| 0 <= j < e.len() && e[j] == c;
                    assert(out[j] == c);
                } else {
                    assert(out[out.len() - 1] == c);
                }
            }
            if out.contains(c) {
                let j = choose|j: int| 0 <= j < out.len() && out[j] == c;
                if j < e.len() {
                    assert(e[j] == c);
                    assert(e.contains(c));
                    assert(head.contains(c));
                    let k = choose|k: int| 0 <= k < head.len() && head[k] == c;
                    assert(s[k] == c);
                } else {
                    assert(s.last() != '`');
                    assert(s[s.len() - 1] == c);
                }
            }
        }
    }
}

/// In an escaped text every backtick stands behind a backslash.
pub proof fn escaped_backtick_follows_backslash(s: Seq<char>, at: int)
    requires
        0 <= at < escape_backticks(s).len(),
        escape_backticks(s)[at] == '`',
    ensures
        at > 0,
        escape_backticks(s)[at - 1] == '\\',
    decreases s.len(),
{
    let head = s.drop_last();
    let e = escape_backticks(head);
    if at < e.len() {
        escaped_backtick_follows_backslash(head, at);
    }
}

/// Escaping is meant to be done once. Done twice it escapes twice: the text
/// grows by one more character for each backtick, and only a text without
/// backticks stays as the first escaping left it.
pub proof fn escaping_twice_escapes_twice(s: Seq<char>)
    ensures
        escape_backticks(escape_backticks(s)).len() == escape_backticks(s).len() + backticks(s),
        escape_backticks(escape_backticks(s)) == escape_backticks(s) <==> backticks(s) == 0,
{
    escaping_adds_one_per_backtick(s);
    escaping_adds_one_per_backtick(escape_backticks(s));
}

/// A text without an opening bracket holds no reference, so rendering its
/// references leaves it as it is.
pub proof fn text_without_bracket_stays(s: Seq<char>, names: Map<Seq<char>, Seq<char>>, at: int)
    requires
        !s.contains('<'),
        0 <= at <= s.len(),
    ensures
        expand_from(s, names, at) == s.skip(at),
    decreases s.len() - at,
{
    if at < s.len() {
        assert(s.contains(s[at]));
        text_without_bracket_stays(s, names, at + 1);
        assert(seq![s[at]] + s.skip(at + 1) == s.skip(at));
    } else {
        assert(s.skip(at) == Seq::<char>::empty());
    }
}

/// Turning line feeds into spaces keeps the length and the backticks, leaves
/// no line feed, brings no bracket in, and changes nothing in a text without
/// line feeds.
pub proof fn flattening_keeps_the_rest(s: Seq<char>)
    ensures
        replace_newlines(s).len() == s.len(),
        backticks(replace_newlines(s)) == backticks(s),
        !replace_newlines(s).contains('\n'),
        s.contains('<') <==> replace_newlines(s).contains('<'),
        !s.contains('\n') ==> replace_newlines(s) == s,
    decreases s.len(),
{
    let flat = replace_newlines(s);
    if s.len() > 0 {
        flattening_keeps_the_rest(s.drop_last());
        assert(flat.drop_last() == replace_newlines(s.drop_last()));
    }
    if flat.contains('\n') {
        let k = choose|k: int| 0 <= k < flat.len() && flat[k] == '\n';
        assert(false);
    }
    if s.contains('<') {
        let k = choose|k: int| 0 <= k < s.len() && s[k] == '<';
        assert(flat[k] == '<');
    }
    if flat.contains('<') {
        let k = choose|k: int| 0 <= k < flat.len() && flat[k] == '<';
        assert(s[k] == '<');
    }
    if !s.contains('\n') {
        assert forall|k: int| 0 <= k < s.len() implies flat[k] == s[k] by {
            assert(s.contains(s[k]));
        }
        assert(flat == s);
    }
}

/// A message is to be humanized once. A text without an opening bracket
/// that is humanized twice has its backticks escaped twice: it grows by one
/// more character for each of them, and only a text without backticks stays
/// as the first pass left it.
pub proof fn humanizing_twice_escapes_twice(text: Seq<char>, names: Map<Seq<char>, Seq<char>>)
    requires
        !text.contains('<'),
    ensures
        humanize(text, names) == escape_backticks(replace_newlines(text)),
        humanize(humanize(text, names), names).len() == humanize(text, names).len() + backticks(
            text,
        ),
        humanize(humanize(text, names), names) == humanize(text, names) <==> backticks(text) == 0,
{
    let flat = replace_newlines(text);
    let once = escape_backticks(flat);
    flattening_keeps_the_rest(text);
    escaping_adds_one_per_backtick(flat);
    text_without_bracket_stays(once, names, 0);
    assert(once.skip(0) == once);
    assert(humanize(text, names) == once);
    flattening_keeps_the_rest(once);
    escaping_adds_one_per_backtick(once);
    escaping_twice_escapes_twice(flat);
    let twice = escape_backticks(once);
    text_without_bracket_stays(twice, names, 0);
    assert(twice.skip(0) == twice);
    assert(humanize(once, names) == twice);
}

/// Whether every backtick of `s` stands behind a backslash.
pub open spec fn backticks_escaped(s: Seq<char>) -> bool {
    forall|k: int| 0 <= k < s.len() && #[trigger] s[k] == '`' ==> k > 0 && s[k - 1] == '\\'
}

/// Whether every backtick of `s` but one at its head stands behind a
/// backslash.
pub open spec fn backticks_escaped_behind_head(s: Seq<char>) -> bool {
    forall|k: int| 0 < k < s.len() && #[trigger] s[k] == '`' ==> s[k - 1] == '\\'
}

/// Whether every name that `names` holds has its backticks escaped.
pub open spec fn names_escaped(names: Map<Seq<char>, Seq<char>>) -> bool {
    forall|id: Seq<char>| names.contains_key(id) ==> backticks_escaped(#[trigger] names[id])
}

/// Escaping escapes every backtick.
pub proof fn escaping_escapes(s: Seq<char>)
    ensures
        backticks_escaped(escape_backticks(s)),
{
    assert forall|k: int|
        0 <= k < escape_backticks(s).len() && #[trigger] escape_backticks(s)[k] == '`' implies k > 0
        && escape_backticks(s)[k - 1] == '\\' by {
        escaped_backtick_follows_backslash(s, k);
    }
}

/// Two texts with escaped backticks, one behind the other, make such a text.
pub(crate) proof fn lemma_escaped_concat(a: Seq<char>, b: Seq<char>)
    requires
        backticks_escaped(a),
        backticks_escaped(b),
    ensures
        backticks_escaped(a + b),
{
    assert forall|k: int| 0 <= k < (a + b).len() && #[trigger] (a + b)[k] == '`' implies k > 0 && (a
        + b)[k - 1] == '\\' by {
        if k < a.len() {
            assert(a[k] == '`');
        } else {
            assert(b[k - a.len()] == '`');
        }
    }
}

/// A part of a text with escaped backticks is such a text, unless it begins
/// with a backtick.
proof fn lemma_escaped_part(s: Seq<char>, from: int, to: int)
    requires
        backticks_escaped(s),
        0 <= from <= to <= s.len(),
        from < to ==> s[from] != '`',
    ensures
        backticks_escaped(s.subrange(from, to)),
{
    let part = s.subrange(from, to);
    assert forall|k: int| 0 <= k < part.len() && #[trigger] part[k] == '`' implies k > 0 && part[k
        - 1] == '\\' by {
        assert(s[from + k] == '`');
    }
}

/// In a text with escaped backticks, a reference read from `start` behind a
/// character that is no backslash has a target and a label with escaped
/// backticks, and ends behind a closing bracket.
proof fn lemma_reference_escaped(s: Seq<char>, mark: Option<char>, start: int)
    requires
        backticks_escaped(s),
        0 < start,
        s[start - 1] != '\\',
        reference_from(s, mark, start) is Some,
    ensures
        ({
            let r = reference_from(s, mark, start)->0;
            &&& r.mark == mark
            &&& backticks_escaped(r.target)
            &&& r.label matches Some(label) ==> backticks_escaped(label)
            &&& start + 1 < r.end <= s.len()
            &&& s[r.end - 1] == '>'
        }),
{
    let len = s.len() as int;
    let close = first_at(s, '>', start + 1, len);
    lemma_first_at(s, '>', start + 1, len);
    let bar = first_at(s, '|', start + 1, close);
    lemma_first_at(s, '|', start + 1, close);
    let far = first_at(s, '>', close + 1, len);
    lemma_first_at(s, '>', close + 1, len);
    assert(s[start] != '`') by {
        if s[start] == '`' {
            assert(s[start - 1] == '\\');
        }
    }
    lemma_escaped_part(s, start, bar);
    lemma_escaped_part(s, start, close);
    if bar < close {
        assert(s[bar + 1] != '`') by {
            if s[bar + 1] == '`' {
                assert(s[bar] == '\\');
            }
        }
        if bar + 1 < close {
            lemma_escaped_part(s, bar + 1, close);
        } else if far < len {
            lemma_escaped_part(s, close, far);
        }
    }
}

/// In a text with escaped backticks, a reference renders to a text with
/// escaped backticks, given names of that kind, and ends behind a closing
/// bracket.
proof fn lemma_rendered_escaped(s: Seq<char>, names: Map<Seq<char>, Seq<char>>, at: int)
    requires
        backticks_escaped(s),
        names_escaped(names),
        reference_at(s, at) is Some,
    ensures
        backticks_escaped(render_reference(reference_at(s, at)->0, names)),
        at < reference_at(s, at)->0.end <= s.len(),
        s[reference_at(s, at)->0.end - 1] == '>',
{
    let r = reference_at(s, at)->0;
    if is_mark(s[at + 1]) && reference_from(s, Some(s[at + 1]), at + 2) is Some {
        lemma_reference_escaped(s, Some(s[at + 1]), at + 2);
    } else {
        lemma_reference_escaped(s, None, at + 1);
    }
    match r.mark {
        Some(c) => {
            let sign = if c == '!' {
                seq!['@']
            } else {
                seq![c]
            };
            assert(backticks_escaped(sign)) by {
                assert(sign[0] != '`');
            }
            if c == '@' && names.contains_key(r.target) {
                assert(backticks_escaped(names[r.target]));
                lemma_escaped_concat(sign, names[r.target]);
            } else if c == '#' && r.label is Some {
                lemma_escaped_concat(sign, r.label->0);
            } else {
                lemma_escaped_concat(sign, r.target);
            }
        },
        None => {},
    }
}

/// In a text with escaped backticks, what is rendered from `at` on has its
/// backticks escaped but for one at its head, and has one at its head only
/// where the text has one at `at`.
proof fn lemma_expanded_escaped(s: Seq<char>, names: Map<Seq<char>, Seq<char>>, at: int)
    requires
        backticks_escaped(s),
        names_escaped(names),
        0 <= at <= s.len(),
    ensures
        backticks_escaped_behind_head(expand_from(s, names, at)),
        expand_from(s, names, at).len() > 0 && expand_from(s, names, at)[0] == '`' ==> at < s.len()
            && s[at] == '`',
    decreases s.len() - at,
{
    let out = expand_from(s, names, at);
    if at < s.len() {
        match reference_at(s, at) {
            Some(r) => {
                lemma_rendered_escaped(s, names, at);
                lemma_expanded_escaped(s, names, r.end);
                let shown = render_reference(r, names);
                let rest = expand_from(s, names, r.end);
                assert(out == shown + rest);
                assert(rest.len() > 0 ==> rest[0] != '`') by {
                    if rest.len() > 0 && rest[0] == '`' {
                        assert(s[r.end] == '`');
                        assert(s[r.end - 1] == '\\');
                    }
                }
                assert forall|k: int| 0 <= k < out.len() && #[trigger] out[k] == '`' implies k > 0
                    && out[k - 1] == '\\' by {
                    if k < shown.len() {
                        assert(shown[k] == '`');
                    } else {
                        assert(rest[k - shown.len()] == '`');
                    }
                }
            },
            None => {
                lemma_expanded_escaped(s, names, at + 1);
                let rest = expand_from(s, names, at + 1);
                assert(out == seq![s[at]] + rest);
                assert forall|k: int| 0 < k < out.len() && #[trigger] out[k] == '`' implies out[k
                    - 1] == '\\' by {
                    assert(rest[k - 1] == '`');
                    if k == 1 {
                        assert(s[at + 1] == '`');
                        assert(s[at] == '\\');
                    }
                }
            },
        }
    }
}

/// What the escaping is for: in a humanized message every backtick stands
/// behind a backslash, whatever the message holds, as long as the names put
/// in for its mentions have their backticks escaped too. Rendering the
/// references takes text away and puts names in, and parts no backtick from
/// its backslash.
pub proof fn humanized_backticks_are_escaped(text: Seq<char>, names: Map<Seq<char>, Seq<char>>)
    requires
        names_escaped(names),
    ensures
        backticks_escaped(humanize(text, names)),
{
    let escaped = escape_backticks(replace_newlines(text));
    escaping_escapes(replace_newlines(text));
    lemma_expanded_escaped(escaped, names, 0);
    let out = humanize(text, names);
    assert forall|k: int| 0 <= k < out.len() && #[trigger] out[k] == '`' implies k > 0 && out[k
        - 1] == '\\' by {
        if k == 0 {
            assert(escaped[0] == '`');
        }
    }
}

/// How a reference is written: an opening bracket, the mark if there is
/// one, the target, a bar and the label if there is one, and a closing
/// bracket.
pub open spec fn spelled(r: Reference) -> Seq<char> {
    seq!['<'] + (match r.mark {
        Some(c) => seq![c],
        None => Seq::empty(),
    }) + r.target + (match r.label {
        Some(label) => seq!['|'] + label,
        None => Seq::empty(),
    }) + seq!['>']
}

/// A reference that opens at `at` is written out in the text from `at` to
/// its end. Its mark is one of the three signs, its target and its label
/// hold at least one character each, and neither holds a closing bracket
/// behind its first character: a reference ends as early as it can.
pub proof fn reference_is_spelled_in_text(s: Seq<char>, at: int)
    requires
        reference_at(s, at) is Some,
    ensures
        ({
            let r = reference_at(s, at)->0;
            &&& at < r.end <= s.len()
            &&& s.subrange(at, r.end) == spelled(r)
            &&& r.mark matches Some(c) ==> is_mark(c)
            &&& r.target.len() > 0
            &&& forall|k: int| 0 < k < r.target.len() ==> r.target[k] != '>'
            &&& r.label matches Some(label) ==> label.len() > 0 && forall|k: int|
                0 < k < label.len() ==> label[k] != '>'
        }),
{
    let r = reference_at(s, at)->0;
    let len = s.len() as int;
    let start = if is_mark(s[at + 1]) && reference_from(s, Some(s[at + 1]), at + 2) is Some {
        at + 2
    } else {
        at + 1
    };
    let close = first_at(s, '>', start + 1, len);
    lemma_first_at(s, '>', start + 1, len);
    let bar = first_at(s, '|', start + 1, close);
    lemma_first_at(s, '|', start + 1, close);
    let far = first_at(s, '>', close + 1, len);
    lemma_first_at(s, '>', close + 1, len);
    assert(s.subrange(at, r.end) =~= spelled(r));
}

/// A mention at the head of a text is taken off with all the white space
/// behind it: a text made of `<@`, an id of digits and capital letters, `>`,
/// white space, and a rest that does not begin with white space, comes back
/// as the rest.
pub proof fn head_mention_is_removed(id: Seq<char>, gap: Seq<char>, rest: Seq<char>)
    requires
        id.len() > 0,
        forall|k: int| 0 <= k < id.len() ==> is_id_char(#[trigger] id[k]),
        forall|k: int| 0 <= k < gap.len() ==> is_space(#[trigger] gap[k]),
        rest.len() > 0 ==> !is_space(rest[0]),
    ensures
        without_head_mention(seq!['<', '@'] + id + seq!['>'] + gap + rest) == rest,
{
    let s = seq!['<', '@'] + id + seq!['>'] + gap + rest;
    let close: int = 2 + id.len() as int;
    lemma_id_run(s, 2, close);
    assert(s[close] == '>');
    let end: int = close + 1 + gap.len() as int;
    assert forall|k: int| close + 1 <= k < end implies is_space(#[trigger] s[k]) by {
        assert(s[k] == gap[k - close - 1]);
    }
    if end < s.len() {
        assert(s[end] == rest[0]);
    }
    lemma_space_run(s, close + 1, end);
    assert(s.skip(end) =~= rest);
}

/// A run of id characters from `from` to `to` that ends there ends at `to`.
proof fn lemma_id_run(s: Seq<char>, from: int, to: int)
    requires
        0 <= from <= to <= s.len(),
        forall|k: int| from <= k < to ==> is_id_char(#[trigger] s[k]),
        to < s.len() ==> !is_id_char(s[to]),
    ensures
        id_end(s, from) == to,
    decreases to - from,
{
    if from < to {
        lemma_id_run(s, from + 1, to);
    }
}

/// A run of white space from `from` to `to` that ends there ends at `to`.
proof fn lemma_space_run(s: Seq<char>, from: int, to: int)
    requires
        0 <= from <= to <= s.len(),
        forall|k: int| from <= k < to ==> is_space(#[trigger] s[k]),
        to < s.len() ==> !is_space(s[to]),
    ensures
        space_end(s, from) == to,
    decreases to - from,
{
    if from < to {
        lemma_space_run(s, from + 1, to);
    }
}

/// Whether `c` is one of the characters that end a part of a reference or
/// that a message does not keep as it is: a closing bracket, a bar, a
/// backtick or a line feed.
pub open spec fn is_special(c: char) -> bool {
    c == '>' || c == '|' || c == '`' || c == '\n'
}

/// A reference that stands alone reads as it is rendered: a message that
/// holds one reference and nothing else, with a target and a label free of
/// closing brackets, bars, backticks and line feeds, comes out as the
/// reference's plain form. So a mention of a user reads as `@` and the
/// user's name, or the id where the name is not known; a special mention
/// as `@` and what it names; a channel as `#` and its label, or its id
/// where it has none; a link as its address.
pub proof fn lone_reference_reads_as_rendered(r: Reference, names: Map<Seq<char>, Seq<char>>)
    requires
        r.mark matches Some(c) ==> is_mark(c),
        r.target.len() > 0,
        r.mark is None ==> !is_mark(r.target[0]),
        forall|k: int| 0 <= k < r.target.len() ==> !is_special(#[trigger] r.target[k]),
        r.label matches Some(label) ==> label.len() > 0 && forall|k: int|
            0 <= k < label.len() ==> !is_special(#[trigger] label[k]),
    ensures
        humanize(spelled(r), names) == render_reference(r, names),
{
    let s = spelled(r);
    let len = s.len() as int;
    let sign: Seq<char> = match r.mark {
        Some(c) => seq![c],
        None => Seq::empty(),
    };
    let tail: Seq<char> = match r.label {
        Some(label) => seq!['|'] + label,
        None => Seq::empty(),
    };
    let start: int = 1 + sign.len() as int;
    let bar: int = start + r.target.len() as int;
    let close: int = bar + tail.len() as int;
    assert(len == close + 1);
    assert forall|k: int| 0 <= k < len implies #[trigger] s[k] != '`' && s[k] != '\n' && (k
        < close ==> s[k] != '>') && (start <= k < bar ==> s[k] != '|') by {
        if start <= k < bar {
            assert(s[k] == r.target[k - start]);
        } else if bar < k < close {
            assert(s[k] == r.label->0[k - bar - 1]);
        }
    }
    assert(!s.contains('\n'));
    assert(!s.contains('`'));
    flattening_keeps_the_rest(s);
    lemma_no_backticks(s);
    escaping_adds_one_per_backtick(s);
    assert(escape_backticks(replace_newlines(s)) == s);
    lemma_first_at_none(s, '>', start + 1, close);
    lemma_first_at_none(s, '|', start + 1, bar);
    assert(first_at(s, '>', start + 1, len) == close) by {
        lemma_first_at_split(s, '>', start + 1, close, len);
    }
    assert(first_at(s, '|', start + 1, close) == bar) by {
        lemma_first_at_split(s, '|', start + 1, bar, close);
    }
    let found = reference_from(s, r.mark, start);
    assert(found is Some);
    assert(found->0.target =~= r.target);
    if r.label is Some {
        assert(found->0.label->0 =~= r.label->0);
    }
    assert(found == Some(Reference { end: len, ..r }));
    assert(reference_at(s, 0) == found);
    assert(expand_from(s, names, len) == Seq::<char>::empty());
    assert(expand_from(s, names, 0) == render_reference(found->0, names) + expand_from(
        s,
        names,
        len,
    ));
    assert(render_reference(found->0, names) == render_reference(r, names));
}

/// A text that holds no backtick counts none.
proof fn lemma_no_backticks(s: Seq<char>)
    requires
        !s.contains('`'),
    ensures
        backticks(s) == 0,
    decreases s.len(),
{
    if s.len() > 0 {
        assert(s.contains(s.last()));
        assert forall|k: int| 0 <= k < s.drop_last().len() implies s.drop_last()[k] != '`' by {
            assert(s.contains(s[k]));
        }
        lemma_no_backticks(s.drop_last());
    }
}

/// Where no index of `from..until` holds `c`, `first_at` finds `until`.
proof fn lemma_first_at_none(s: Seq<char>, c: char, from: int, until: int)
    requires
        from <= until,
        forall|k: int| from <= k < until ==> s[k] != c,
    ensures
        first_at(s, c, from, until) == until,
    decreases until - from,
{
    if from < until {
        lemma_first_at_none(s, c, from + 1, until);
    }
}

/// Where `first_at` finds nothing before `mid`, and `mid` holds `c` or is
/// the end of the range, it finds `mid` in the longer range too.
proof fn lemma_first_at_split(s: Seq<char>, c: char, from: int, mid: int, until: int)
    requires
        from <= mid <= until,
        first_at(s, c, from, mid) == mid,
        mid < until ==> s[mid] == c,
    ensures
        first_at(s, c, from, until) == mid,
    decreases mid - from,
{
    if from < mid {
        lemma_first_at(s, c, from, mid);
        lemma_first_at_none(s, c, from + 1, mid);
        lemma_first_at_split(s, c, from + 1, mid, until);
    }
}

} // verus!
