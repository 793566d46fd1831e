//! Which repository a reaction files its issues in, team by team.
use vstd::prelude::*;
use vstd::hash_map::StringHashMap;
use crate::text::same_text;

verus! {

/// One reaction that files issues: the emoji's name, the repository that
/// receives the issue, and who is assigned to it.
#[derive(Debug, PartialEq, Eq)]
pub struct ReactionPattern {
    pub name: String,
    pub repo: String,
    pub assignees: Vec<String>,
}

/// A `ReactionPattern` as plain sequences of characters.
pub struct ReactionPatternView {
    pub name: Seq<char>,
    pub repo: Seq<char>,
    pub assignees: Seq<Seq<char>>,
}

impl View for ReactionPattern {
    type V = ReactionPatternView;

    open spec fn view(&self) -> ReactionPatternView {
        ReactionPatternView {
            name: self.name@,
            repo: self.repo@,
            assignees: Seq::new(self.assignees@.len(), |i: int| self.assignees@[i]@),
        }
    }
}

impl Clone for ReactionPattern {
    fn clone(&self) -> (copy: ReactionPattern)
        ensures
            copy@ == self@,
    {
        let mut assignees: Vec<String> = Vec::new();
        let mut i: usize = 0;
        while i < self.assignees.len()
            invariant
                i <= self.assignees.len(),
                assignees@.len() == i,
                forall|k: int| 0 <= k < i ==> assignees@[k]@ == self.assignees@[k]@,
            decreases self.assignees.len() - i,
        {
            assignees.push(self.assignees[i].clone());
            i += 1;
        }
        let copy = ReactionPattern { name: self.name.clone(), repo: self.repo.clone(), assignees };
        assert(copy@.assignees =~= self@.assignees);
        copy
    }
}

/// What one Slack team has configured: its id, its default repository, and
/// its patterns in the order in which they were configured.
#[derive(Debug, PartialEq, Eq)]
pub struct TeamConfig {
    pub team_id: String,
    pub repo: String,
    pub reaction_patterns: Vec<ReactionPattern>,
}

/// A `TeamConfig` as plain sequences.
pub struct TeamConfigView {
    pub team_id: Seq<char>,
    pub repo: Seq<char>,
    pub reaction_patterns: Seq<ReactionPatternView>,
}

impl View for TeamConfig {
    type V = TeamConfigView;

    open spec fn view(&self) -> TeamConfigView {
        TeamConfigView {
            team_id: self.team_id@,
            repo: self.repo@,
            reaction_patterns: Seq::new(
                self.reaction_patterns@.len(),
                |i: int| self.reaction_patterns@[i]@,
            ),
        }
    }
}

/// The least index at or behind `from` at which `patterns` holds a pattern
/// for `reaction`, or the length of `patterns` where none does.
pub open spec fn position_named(
    patterns: Seq<ReactionPatternView>,
    reaction: Seq<char>,
    from: int,
) -> int
    decreases patterns.len() - from,
{
    if from < 0 || from >= patterns.len() {
        patterns.len() as int
    } else if patterns[from].name == reaction {
        from
    } else {
        position_named(patterns, reaction, from + 1)
    }
}

/// The first of `patterns` that is for `reaction`.
pub open spec fn first_named(patterns: Seq<ReactionPatternView>, reaction: Seq<char>) -> Option<
    ReactionPatternView,
> {
    let at = position_named(patterns, reaction, 0);
    if at < patterns.len() {
        Some(patterns[at])
    } else {
        None
    }
}

/// The pattern that `teams` holds for `reaction` in the team `team_id`: the
/// first one of that name among the team's patterns. There is none where the
/// team is unknown or has no pattern of that name.
pub open spec fn pattern_for(
    teams: Map<Seq<char>, TeamConfigView>,
    team_id: Seq<char>,
    reaction: Seq<char>,
) -> Option<ReactionPatternView> {
    if teams.contains_key(team_id) {
        first_named(teams[team_id].reaction_patterns, reaction)
    } else {
        None
    }
}

/// The pattern found for a reaction is the first of that name, in the order
/// in which the patterns were configured; none is found exactly where no
/// pattern has that name.
pub proof fn found_pattern_is_first_of_its_name(
    patterns: Seq<ReactionPatternView>,
    reaction: Seq<char>,
)
    ensures
        match first_named(patterns, reaction) {
            Some(p) => exists|i: int|
                0 <= i < patterns.len() && #[trigger] patterns[i] == p && p.name == reaction
                    && forall|j: int| 0 <= j < i ==> patterns[j].name != reaction,
            None => forall|i: int| 0 <= i < patterns.len() ==> patterns[i].name != reaction,
        },
{
    lemma_position_named(patterns, reaction, 0);
    let at = position_named(patterns, reaction, 0);
    if at < patterns.len() {
        assert(patterns[at] == patterns[at]);
    }
}

/// `position_named` finds a pattern of the name asked for, and none of that
/// name stands before it.
proof fn lemma_position_named(patterns: Seq<ReactionPatternView>, reaction: Seq<char>, from: int)
    requires
        0 <= from <= patterns.len(),
    ensures
        from <= position_named(patterns, reaction, from) <= patterns.len(),
        position_named(patterns, reaction, from) < patterns.len() ==> patterns[position_named(
            patterns,
            reaction,
            from,
        )].name == reaction,
        forall|k: int|
            from <= k < position_named(patterns, reaction, from) ==> patterns[k].name != reaction,
    decreases patterns.len() - from,
{
    if from < patterns.len() && patterns[from].name != reaction {
        lemma_position_named(patterns, reaction, from + 1);
    }
}

/// The teams that a configuration made by `TeamConfigMap::new` knows.
pub open spec fn built_in_teams() -> Map<Seq<char>, TeamConfigView> {
    Map::<Seq<char>, TeamConfigView>::empty().insert(
        "T1NRWJ5QT"@,
        TeamConfigView {
            team_id: "T1NRWJ5QT"@,
            repo: "uiur/private-sandbox"@,
            reaction_patterns: seq![
                ReactionPatternView {
                    name: "memo"@,
                    repo: "uiur/private-sandbox"@,
                    assignees: Seq::empty(),
                },
            ],
        },
    )
}

/// The configuration of every team, by team id.
pub struct TeamConfigMap {
    data: StringHashMap<TeamConfig>,
}

impl View for TeamConfigMap {
    type V = Map<Seq<char>, TeamConfigView>;

    closed spec fn view(&self) -> Map<Seq<char>, TeamConfigView> {
        Map::new(|id: Seq<char>| self.data@.contains_key(id), |id: Seq<char>| self.data@[id]@)
    }
}

impl TeamConfigMap {
    /// The configuration that the service starts with: one team, whose `memo`
    /// reaction files into its sandbox repository.
    pub fn new() -> (map: TeamConfigMap)
        ensures
            map@ == built_in_teams(),
    {
        let mut map = TeamConfigMap::empty();
        let memo = ReactionPattern {
            name: "memo".to_string(),
            repo: "uiur/private-sandbox".to_string(),
            assignees: Vec::new(),
        };
        let mut reaction_patterns: Vec<ReactionPattern> = Vec::new();
        reaction_patterns.push(memo);
        let config = TeamConfig {
            team_id: "T1NRWJ5QT".to_string(),
            repo: "uiur/private-sandbox".to_string(),
            reaction_patterns,
        };
        assert(config@.reaction_patterns =~= built_in_teams()["T1NRWJ5QT"@].reaction_patterns) by {
            assert(memo@.assignees =~= Seq::<Seq<char>>::empty());
        }
        map.insert(config);
        map
    }

    /// A configuration without any team.
    pub fn empty() -> (map: TeamConfigMap)
        ensures
            map@ == Map::<Seq<char>, TeamConfigView>::empty(),
    {
        TeamConfigMap { data: StringHashMap::new() }
    }

    /// Records `config` under its team id, in place of what the team had.
    pub fn insert(&mut self, config: TeamConfig)
        ensures
            final(self)@ == old(self)@.insert(config.team_id@, config@),
    {
        let key = config.team_id.clone();
        self.data.insert(key, config);
    }

    /// The pattern for `reaction` in the team `team_id`. The channel plays no
    /// part yet.
    pub fn find(&self, team_id: &str, _channel: &str, reaction: &str) -> (found: Option<
        ReactionPattern,
    >)
        ensures
            found is Some <==> pattern_for(self@, team_id@, reaction@) is Some,
            found matches Some(p) ==> Some(p@) == pattern_for(self@, team_id@, reaction@),
    {
        match self.data.get(team_id) {
            Some(config) => {
                let ghost patterns = config@.reaction_patterns;
                let mut i: usize = 0;
                while i < config.reaction_patterns.len()
                    invariant
                        i <= config.reaction_patterns.len(),
                        patterns == config@.reaction_patterns,
                        self@.contains_key(team_id@) && self@[team_id@] == config@,
                        position_named(patterns, reaction@, 0) == position_named(
                            patterns,
                            reaction@,
                            i as int,
                        ),
                    decreases config.reaction_patterns.len() - i,
                {
                    if same_text(config.reaction_patterns[i].name.as_str(), reaction) {
                        return Some(config.reaction_patterns[i].clone());
                    }
                    i += 1;
                }
                None
            },
            None => None,
        }
    }
}

} // verus!
