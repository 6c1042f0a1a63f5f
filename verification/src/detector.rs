//! Game process detection: a state machine that, given the running
//! processes and the rule table, reports when a game starts (apply its
//! profile) and when it exits (restore the defaults).

use vstd::prelude::*;
use crate::config::{rule_matches, GameRule};
use crate::text::to_lowercase;

verus! {

/// A detection event.
#[derive(Debug, Clone, PartialEq, Eq)]
pub enum DetectorEvent {
    /// A matching game process appeared: apply its profile.
    Entered {
        /// Id of the matching rule.
        rule_id: String,
        /// Profile to apply.
        profile_id: String,
    },
    /// The game processes are gone: restore the defaults.
    Exited {
        /// Id of the rule that was active.
        rule_id: String,
    },
}

/// Abstract form of a detection event.
pub enum EventView {
    Entered(Seq<char>, Seq<char>),
    Exited(Seq<char>),
}

impl View for DetectorEvent {
    type V = EventView;

    open spec fn view(&self) -> EventView {
        match self {
            DetectorEvent::Entered { rule_id, profile_id } => EventView::Entered(
                rule_id@,
                profile_id@,
            ),
            DetectorEvent::Exited { rule_id } => EventView::Exited(rule_id@),
        }
    }
}

/// Abstract form of an optional event.
pub open spec fn event_opt_view(e: Option<DetectorEvent>) -> Option<EventView> {
    match e {
        Some(ev) => Some(ev@),
        None => None,
    }
}

/// Source of the running process names (injected so that it can be
/// replaced in tests).
pub trait ProcessLister: Send + Sync {
    /// The executable names of all running processes, lower-cased; an
    /// empty list when listing fails.
    fn running_exes(&self) -> Vec<String>;
}

/// The texts of a list of strings.
pub open spec fn names(v: Seq<String>) -> Seq<Seq<char>> {
    v.map_values(|s: String| s@)
}

/// A process list kept in memory.
#[derive(Debug, Clone)]
pub struct MockLister {
    exes: Vec<String>,
}

impl View for MockLister {
    type V = Seq<Seq<char>>;

    closed spec fn view(&self) -> Seq<Seq<char>> {
        names(self.exes@)
    }
}

/// Lower-cases every name of a list.
fn lower_all_names(exes: Vec<String>) -> (r: Vec<String>)
    ensures
        r@.len() == exes@.len(),
        forall|i: int| 0 <= i < exes@.len() ==> r@[i]@ == crate::text::lowercase(#[trigger] exes@[i]@),
{
    let mut out: Vec<String> = Vec::new();
    let mut i: usize = 0;
    while i < exes.len()
        invariant
            i <= exes@.len(),
            out@.len() == i,
            forall|j: int| 0 <= j < i ==> out@[j]@ == crate::text::lowercase(#[trigger] exes@[j]@),
        decreases exes@.len() - i,
    {
        out.push(to_lowercase(exes[i].as_str()));
        i = i + 1;
    }
    out
}

/// The names of a list, each lower-cased.
pub open spec fn lowered(exes: Seq<String>) -> Seq<Seq<char>> {
    exes.map_values(|s: String| crate::text::lowercase(s@))
}

impl MockLister {
    /// A process list holding the given names, lower-cased.
    pub fn new(exes: Vec<String>) -> (r: MockLister)
        ensures
            r@ == lowered(exes@),
    {
        let out = lower_all_names(exes);
        let r = MockLister { exes: out };
        assert(r@ =~= lowered(exes@));
        r
    }

    /// Replaces the process list (a game starting or exiting).
    pub fn set_processes(&mut self, exes: Vec<String>)
        ensures
            final(self)@ == lowered(exes@),
    {
        let out = lower_all_names(exes);
        self.exes = out;
        assert(self@ =~= lowered(exes@));
    }
}

impl Default for MockLister {
    fn default() -> (r: MockLister)
        ensures
            r@ == Seq::<Seq<char>>::empty(),
    {
        let r = MockLister { exes: Vec::new() };
        assert(r@ =~= Seq::<Seq<char>>::empty());
        r
    }
}

impl ProcessLister for MockLister {
    fn running_exes(&self) -> (r: Vec<String>)
        ensures
            names(r@) == self@,
    {
        let mut out: Vec<String> = Vec::new();
        let mut i: usize = 0;
        while i < self.exes.len()
            invariant
                i <= self.exes@.len(),
                out@.len() == i,
                names(out@) == names(self.exes@).take(i as int),
            decreases self.exes@.len() - i,
        {
            let c = self.exes[i].clone();
            let ghost before = out@;
            out.push(c);
            assert(out@ == before.push(c));
            assert(c@ == self.exes@[i as int]@);
            assert forall|j: int| 0 <= j < i + 1 implies #[trigger] names(out@)[j] == names(
                self.exes@,
            ).take(i + 1)[j] by {
                if j < i {
                    assert(names(out@)[j] == names(before)[j]);
                    assert(names(before)[j] == names(self.exes@).take(i as int)[j]);
                }
            }
            assert(names(out@) =~= names(self.exes@).take(i + 1));
            i = i + 1;
        }
        assert(names(self.exes@).take(self.exes@.len() as int) =~= names(self.exes@));
        out
    }
}

/// Some running process matches the rule.
pub open spec fn any_matches(r: GameRule, exes: Seq<Seq<char>>) -> bool {
    exists|k: int| 0 <= k < exes.len() && rule_matches(r, exes[k])
}

/// The first rule of the table (table order is priority) that matches a
/// running process.
pub open spec fn first_matching(rules: Seq<GameRule>, exes: Seq<Seq<char>>) -> Option<GameRule>
    decreases rules.len(),
{
    if rules.len() == 0 {
        None
    } else if any_matches(rules[0], exes) {
        Some(rules[0])
    } else {
        first_matching(rules.drop_first(), exes)
    }
}

/// The active rule: its id and the profile it applied.
pub type ActiveView = Option<(Seq<char>, Seq<char>)>;

/// One step of the detector: from the active rule and the matching rule of
/// this poll, the next active rule and the event to report.
pub open spec fn step(active: ActiveView, matched: Option<GameRule>) -> (ActiveView, Option<EventView>) {
    match matched {
        Some(rule) => match active {
            Some(a) => if a.0 == rule.id@ {
                (active, None)
            } else {
                (
                    Some((rule.id@, rule.profile_id@)),
                    Some(EventView::Entered(rule.id@, rule.profile_id@)),
                )
            },
            None => (
                Some((rule.id@, rule.profile_id@)),
                Some(EventView::Entered(rule.id@, rule.profile_id@)),
            ),
        },
        None => match active {
            Some(a) => (None, Some(EventView::Exited(a.0))),
            None => (None, None),
        },
    }
}

/// The game detector.
pub struct GameDetector {
    lister: Box<dyn ProcessLister>,
    rules: Vec<GameRule>,
    active: Option<(String, String)>,
}

/// Abstract form of an optional (rule id, profile id) pair.
pub open spec fn active_view(a: Option<(String, String)>) -> ActiveView {
    match a {
        Some(p) => Some((p.0@, p.1@)),
        None => None,
    }
}

impl GameDetector {
    /// The rule table, in priority order.
    pub closed spec fn rules(&self) -> Seq<GameRule> {
        self.rules@
    }

    /// The active rule.
    pub closed spec fn active(&self) -> ActiveView {
        active_view(self.active)
    }

    /// A detector with no active rule.
    pub fn new(lister: Box<dyn ProcessLister>, rules: Vec<GameRule>) -> (r: GameDetector)
        ensures
            r.rules() == rules@,
            r.active() is None,
    {
        GameDetector { lister, rules, active: None }
    }

    /// Replaces the process source.
    pub fn set_lister(&mut self, lister: Box<dyn ProcessLister>)
        ensures
            final(self).rules() == old(self).rules(),
            final(self).active() == old(self).active(),
    {
        self.lister = lister;
    }

    /// Replaces the rule table (after a configuration change); the active
    /// rule is kept.
    pub fn set_rules(&mut self, rules: Vec<GameRule>)
        ensures
            final(self).rules() == rules@,
            final(self).active() == old(self).active(),
    {
        self.rules = rules;
    }

    /// The active rule: (rule id, profile id).
    pub fn active_rule(&self) -> (r: Option<(String, String)>)
        ensures
            active_view(r) == self.active(),
    {
        match &self.active {
            Some(p) => Some((p.0.clone(), p.1.clone())),
            None => None,
        }
    }

    /// The first rule of the table that matches one of the processes.
    pub fn find_match(&self, exes: &Vec<String>) -> (r: Option<GameRule>)
        ensures
            r == first_matching(self.rules(), names(exes@)),
    {
        let ghost ex = names(exes@);
        let mut i: usize = 0;
        assert(self.rules@.subrange(0, self.rules@.len() as int) =~= self.rules@);
        while i < self.rules.len()
            invariant
                i <= self.rules@.len(),
                ex == names(exes@),
                first_matching(self.rules@, ex) == first_matching(
                    self.rules@.subrange(i as int, self.rules@.len() as int),
                    ex,
                ),
            decreases self.rules@.len() - i,
        {
            let ghost rest = self.rules@.subrange(i as int, self.rules@.len() as int);
            assert(rest[0] == self.rules@[i as int]);
            let mut j: usize = 0;
            let mut hit = false;
            while j < exes.len()
                invariant
                    j <= exes@.len(),
                    i < self.rules@.len(),
                    ex == names(exes@),
                    !hit ==> forall|k: int| 0 <= k < j ==> !rule_matches(self.rules@[i as int], #[trigger] ex[k]),
                    hit ==> any_matches(self.rules@[i as int], ex),
                decreases exes@.len() - j,
            {
                if !hit && self.rules[i].matches(exes[j].as_str()) {
                    hit = true;
                    assert(rule_matches(self.rules@[i as int], ex[j as int]));
                }
                j = j + 1;
            }
            if hit {
                return Some(self.rules[i].clone());
            }
            assert(rest.drop_first() =~= self.rules@.subrange(i + 1, self.rules@.len() as int));
            i = i + 1;
        }
        None
    }

    /// One detection step on the given process list: reports a game that
    /// started (first matching rule, not already active), a switch to
    /// another rule, or the exit of the active game.
    pub fn detect(&mut self, exes: &Vec<String>) -> (r: Option<DetectorEvent>)
        ensures
            final(self).rules() == old(self).rules(),
            (final(self).active(), event_opt_view(r)) == step(
                old(self).active(),
                first_matching(old(self).rules(), names(exes@)),
            ),
    {
        let matched = self.find_match(exes);
        self.advance(matched)
    }

    /// Polls the process source once and runs one detection step on what
    /// it returned.
    pub fn tick(&mut self) -> (r: Option<DetectorEvent>)
        ensures
            final(self).rules() == old(self).rules(),
            exists|exes: Seq<Seq<char>>|
                (final(self).active(), event_opt_view(r)) == step(
                    old(self).active(),
                    #[trigger] first_matching(old(self).rules(), exes),
                ),
    {
        let exes = self.lister.running_exes();
        if exes.len() == 0 {
            assert(first_matching(self.rules@, names(exes@)) == first_matching(
                self.rules@,
                Seq::<Seq<char>>::empty(),
            )) by {
                assert(names(exes@) =~= Seq::<Seq<char>>::empty());
            }
            proof {
                lemma_no_process_no_match(self.rules@);
            }
            return self.advance(None);
        }
        self.detect(&exes)
    }

    /// Moves the state machine with the rule matched in this poll.
    fn advance(&mut self, matched: Option<GameRule>) -> (r: Option<DetectorEvent>)
        ensures
            final(self).rules() == old(self).rules(),
            (final(self).active(), event_opt_view(r)) == step(old(self).active(), matched),
    {
        match matched {
            Some(rule) => {
                let same = match &self.active {
                    Some(a) => a.0.eq(&rule.id),
                    None => false,
                };
                if same {
                    None
                } else {
                    self.active = Some((rule.id.clone(), rule.profile_id.clone()));
                    Some(DetectorEvent::Entered { rule_id: rule.id, profile_id: rule.profile_id })
                }
            },
            None => {
                let old_active = self.active.take();
                match old_active {
                    Some(a) => Some(DetectorEvent::Exited { rule_id: a.0 }),
                    None => None,
                }
            },
        }
    }
}

/// Table order is priority: detection finds no rule exactly when no rule
/// of the table matches any running process, and otherwise finds the
/// earliest rule of the table that matches some running process.
pub proof fn law_first_match_is_earliest(rules: Seq<GameRule>, exes: Seq<Seq<char>>)
    ensures
        first_matching(rules, exes) is None <==> forall|i: int, k: int|
            0 <= i < rules.len() && 0 <= k < exes.len() ==> !rule_matches(#[trigger] rules[i], #[trigger] exes[k]),
        first_matching(rules, exes) matches Some(r) ==> exists|i: int|
            0 <= i < rules.len() && #[trigger] rules[i] == r && (exists|k: int|
                0 <= k < exes.len() && rule_matches(r, #[trigger] exes[k])) && forall|j: int, k: int|
                0 <= j < i && 0 <= k < exes.len() ==> !rule_matches(#[trigger] rules[j], #[trigger] exes[k]),
    decreases rules.len(),
{
    if rules.len() > 0 {
        let u = rules.drop_first();
        law_first_match_is_earliest(u, exes);
        if !any_matches(rules[0], exes) {
            if first_matching(u, exes) is None {
                assert forall|i: int, k: int|
                    0 <= i < rules.len() && 0 <= k < exes.len() implies !rule_matches(#[trigger] rules[i], #[trigger] exes[k]) by {
                    if i > 0 {
                        assert(rules[i] == u[i - 1]);
                    }
                }
            } else {
                let r = first_matching(u, exes)->Some_0;
                let i = choose|i: int|
                    0 <= i < u.len() && #[trigger] u[i] == r && (exists|k: int|
                        0 <= k < exes.len() && rule_matches(r, #[trigger] exes[k])) && forall|j: int, k: int|
                        0 <= j < i && 0 <= k < exes.len() ==> !rule_matches(#[trigger] u[j], #[trigger] exes[k]);
                assert(rules[i + 1] == r);
                assert forall|j: int, k: int|
                    0 <= j < i + 1 && 0 <= k < exes.len() implies !rule_matches(#[trigger] rules[j], #[trigger] exes[k]) by {
                    if j > 0 {
                        assert(rules[j] == u[j - 1]);
                    }
                }
                assert(exists|i: int| 0 <= i < rules.len() && #[trigger] rules[i] == r && (exists|k: int|
                    0 <= k < exes.len() && rule_matches(r, #[trigger] exes[k])) && forall|j: int, k: int|
                    0 <= j < i && 0 <= k < exes.len() ==> !rule_matches(#[trigger] rules[j], #[trigger] exes[k]));
                let k = choose|k: int| 0 <= k < exes.len() && rule_matches(r, #[trigger] exes[k]);
                assert(!(forall|i: int, k: int|
                    0 <= i < rules.len() && 0 <= k < exes.len() ==> !rule_matches(#[trigger] rules[i], #[trigger] exes[k])));
            }
        }
    }
}

/// With no process running, no rule matches.
pub proof fn lemma_no_process_no_match(rules: Seq<GameRule>)
    ensures
        first_matching(rules, Seq::<Seq<char>>::empty()) is None,
    decreases rules.len(),
{
    if rules.len() > 0 {
        lemma_no_process_no_match(rules.drop_first());
    }
}

/// The id of the active rule, if any.
pub open spec fn active_id(a: ActiveView) -> Option<Seq<char>> {
    match a {
        Some(p) => Some(p.0),
        None => None,
    }
}

/// A step reports an event exactly when the active rule changes; an entry
/// names the matched rule and the profile it applies.
pub proof fn law_event_iff_change(active: ActiveView, matched: Option<GameRule>)
    ensures
        step(active, matched).1 is Some <==> active_id(step(active, matched).0) != active_id(active),
        step(active, matched).1 matches Some(EventView::Entered(id, p)) ==> matched matches Some(r) && r.id@ == id
            && r.profile_id@ == p,
{
}

/// Polling twice with the same processes and rules reports nothing the
/// second time: an event is reported once, when the state changes.
pub proof fn law_no_repeated_event(active: ActiveView, matched: Option<GameRule>)
    ensures
        step(step(active, matched).0, matched).1 is None,
        step(step(active, matched).0, matched).0 == step(active, matched).0,
{
}

/// After a step, the active rule is the matched rule (or, when the matched
/// rule was already active, the unchanged active entry); with no match
/// nothing is active.
pub proof fn law_active_follows_match(active: ActiveView, matched: Option<GameRule>)
    ensures
        matched is None ==> step(active, matched).0 is None,
        matched matches Some(rule) ==> step(active, matched).0 matches Some(a) && a.0 == rule.id@,
{
}

/// An exit is reported only for the rule that was active, and an entry
/// always names the rule that becomes active.
pub proof fn law_events_name_rules(active: ActiveView, matched: Option<GameRule>)
    ensures
        step(active, matched).1 matches Some(EventView::Exited(id)) ==> active matches Some(a)
            && a.0 == id && matched is None,
        step(active, matched).1 matches Some(EventView::Entered(id, p)) ==> step(
            active,
            matched,
        ).0 == Some((id, p)),
{
}

} // verus!
