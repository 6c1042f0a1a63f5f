//! Registration of global hotkeys: which bindings took effect, which did not
//! and why, and which action a pressed hotkey triggers.
//!
//! The operating system's hotkey service is reached through a
//! [`HotkeyPlatform`]; this module decides everything around it.

use vstd::prelude::*;
use std::collections::HashMap;
use crate::config::HotkeyAction;
use crate::hotkey::{parse_error_message, parse_result_view, parse_spec, HotkeyParseError, HotkeySpec, KeyCode, Modifier, ParseFailure};
use crate::hotkey::calls::{answer_view, PlatformCall, PlatformLog};
use crate::text::str_eq;

verus! {

broadcast use vstd::std_specs::hash::group_hash_axioms;

/// A binding that can be registered: id, hotkey text and action.
#[derive(Debug, PartialEq, Eq)]
pub struct HotkeyBinding {
    /// Unique binding identifier.
    pub id: String,
    /// Hotkey text.
    pub spec: String,
    /// Action triggered.
    pub action: HotkeyAction,
}

impl Clone for HotkeyBinding {
    fn clone(&self) -> (r: HotkeyBinding)
        ensures
            r == *self,
    {
        HotkeyBinding { id: self.id.clone(), spec: self.spec.clone(), action: self.action.clone() }
    }
}

/// The result of one registration round: the ids that took effect, and
/// the ids that did not with the reason (taken by another program, or not
/// a valid hotkey).
#[derive(Debug)]
pub struct RegisterOutcome {
    /// Ids of the bindings registered.
    pub ok: Vec<String>,
    /// Ids of the bindings refused, with the reason.
    pub conflicts: Vec<(String, String)>,
}

impl Default for RegisterOutcome {
    fn default() -> (r: RegisterOutcome)
        ensures
            r.ok@.len() == 0,
            r.conflicts@.len() == 0,
    {
        RegisterOutcome { ok: Vec::new(), conflicts: Vec::new() }
    }
}

/// The operating system's global hotkey service. Nothing is assumed of
/// what its methods return.
pub trait HotkeyPlatform {
    /// Releases every hotkey registered so far.
    fn unregister_all(&mut self);

    /// Registers a hotkey; on success, the platform's id of the hotkey, on
    /// failure, the platform's message.
    fn register(&mut self, spec: &HotkeySpec) -> Result<u32, String>;
}

/// What became of one binding.
pub enum Registration {
    /// Its hotkey text is not a valid hotkey.
    Unparsable(HotkeyParseError),
    /// The platform registered it under this id.
    Registered(u32),
    /// The platform refused it with this message.
    Refused(String),
}

/// What became of one binding, as a value.
pub enum Settled {
    Unparsable(ParseFailure),
    Registered(u32),
    Refused(Seq<char>),
}

impl View for Registration {
    type V = Settled;

    open spec fn view(&self) -> Settled {
        match self {
            Registration::Unparsable(e) => Settled::Unparsable(e@),
            Registration::Registered(id) => Settled::Registered(*id),
            Registration::Refused(m) => Settled::Refused(m@),
        }
    }
}

/// The registered ids, the refused ids with their reasons, and the map
/// from platform id to binding id, as values.
pub type RoundState = (Seq<Seq<char>>, Seq<(Seq<char>, Seq<char>)>, Map<u32, Seq<char>>);

/// The reason recorded for a binding that was not registered.
pub open spec fn conflict_reason(s: Settled) -> Seq<char> {
    match s {
        Settled::Unparsable(f) => "解析失败: "@ + parse_error_message(f),
        Settled::Refused(m) => "已被占用: "@ + m,
        Settled::Registered(_) => Seq::empty(),
    }
}

/// One binding settled: a registered one joins the ids that took effect
/// and the map; any other joins the refused ones with its reason.
pub open spec fn settle(st: RoundState, id: Seq<char>, s: Settled) -> RoundState {
    match s {
        Settled::Registered(pid) => (st.0.push(id), st.1, st.2.insert(pid, id)),
        _ => (st.0, st.1.push((id, conflict_reason(s))), st.2),
    }
}

/// A whole round: each binding settled in order, from nothing.
pub open spec fn settle_all(ids: Seq<Seq<char>>, ss: Seq<Settled>) -> RoundState
    decreases ss.len(),
{
    if ss.len() == 0 || ids.len() == 0 {
        (Seq::empty(), Seq::empty(), Map::empty())
    } else {
        settle(settle_all(ids.drop_last(), ss.drop_last()), ids.last(), ss.last())
    }
}

/// What became of each binding agrees with its text: an invalid text is
/// refused with the parse failure, a valid one went to the platform.
pub open spec fn agrees(bs: Seq<HotkeyBinding>, ss: Seq<Settled>) -> bool {
    &&& ss.len() == bs.len()
    &&& forall|i: int|
        0 <= i < bs.len() ==> match parse_spec((#[trigger] bs[i]).spec@) {
            Err(f) => ss[i] == Settled::Unparsable(f),
            Ok(_) => ss[i] is Registered || ss[i] is Refused,
        }
}

/// The ids of the bindings, in order.
pub open spec fn binding_ids(bs: Seq<HotkeyBinding>) -> Seq<Seq<char>> {
    bs.map_values(|b: HotkeyBinding| b.id@)
}

/// The texts of a list of strings.
pub open spec fn strings(v: Seq<String>) -> Seq<Seq<char>> {
    v.map_values(|s: String| s@)
}

/// The texts of a list of string pairs.
pub open spec fn string_pairs(v: Seq<(String, String)>) -> Seq<(Seq<char>, Seq<char>)> {
    v.map_values(|p: (String, String)| (p.0@, p.1@))
}

impl RegisterOutcome {
    /// The registered ids and refused ids with reasons, as values.
    pub open spec fn lists(&self) -> (Seq<Seq<char>>, Seq<(Seq<char>, Seq<char>)>) {
        (strings(self.ok@), string_pairs(self.conflicts@))
    }
}

/// The platform's answer that a settled binding records.
pub open spec fn answer_of(s: Settled) -> Result<u32, Seq<char>> {
    match s {
        Settled::Registered(pid) => Ok(pid),
        Settled::Refused(m) => Err(m),
        Settled::Unparsable(_) => Err(Seq::empty()),
    }
}

/// The registrations a round asks of the platform: one for each binding
/// whose text parses, in order, with the hotkey parsed from the text and
/// the answer that binding recorded.
pub open spec fn round_calls(bs: Seq<HotkeyBinding>, ss: Seq<Settled>) -> Seq<PlatformCall>
    decreases bs.len(),
{
    if bs.len() == 0 || ss.len() == 0 {
        Seq::empty()
    } else {
        round_calls(bs.drop_last(), ss.drop_last()) + match parse_spec(bs.last().spec@) {
            Ok(h) => seq![PlatformCall::Register(h, answer_of(ss.last()))],
            Err(_) => Seq::empty(),
        }
    }
}

/// The registered bindings of the current round.
pub struct HotkeyRegistry {
    binding_of: HashMap<u32, String>,
    bindings: Vec<HotkeyBinding>,
    calls: PlatformLog,
}

impl HotkeyRegistry {
    /// Platform id to binding id, as values.
    pub closed spec fn id_map(&self) -> Map<u32, Seq<char>> {
        self.binding_of@.map_values(|s: String| s@)
    }

    /// The bindings of the current round.
    pub closed spec fn current(&self) -> Seq<HotkeyBinding> {
        self.bindings@
    }

    /// The calls made on the platform so far, in order.
    pub closed spec fn platform_calls(&self) -> Seq<PlatformCall> {
        self.calls.calls()
    }

    /// No hotkey registered.
    pub fn new() -> (r: HotkeyRegistry)
        ensures
            r.id_map() == Map::<u32, Seq<char>>::empty(),
            r.current().len() == 0,
            r.platform_calls() == Seq::<PlatformCall>::empty(),
    {
        let r = HotkeyRegistry { binding_of: HashMap::new(), bindings: Vec::new(), calls: PlatformLog::new() };
        assert(r.id_map() =~= Map::<u32, Seq<char>>::empty());
        r
    }

    /// Records what became of one binding.
    pub fn record(&mut self, outcome: &mut RegisterOutcome, id: &str, reg: Registration)
        ensures
            (final(outcome).lists().0, final(outcome).lists().1, final(self).id_map()) == settle(
                (old(outcome).lists().0, old(outcome).lists().1, old(self).id_map()),
                id@,
                reg@,
            ),
            final(self).current() == old(self).current(),
            final(self).platform_calls() == old(self).platform_calls(),
    {
        let ghost old_map = self.id_map();
        match reg {
            Registration::Registered(pid) => {
                self.binding_of.insert(pid, String::from_str(id));
                outcome.ok.push(String::from_str(id));
                assert(self.id_map() =~= old_map.insert(pid, id@));
                assert(strings(outcome.ok@) =~= old(outcome).lists().0.push(id@));
            },
            Registration::Unparsable(e) => {
                let mut reason = String::from_str("解析失败: ");
                let msg = e.message();
                reason.append(msg.as_str());
                outcome.conflicts.push((String::from_str(id), reason));
                assert(string_pairs(outcome.conflicts@) =~= old(outcome).lists().1.push(
                    (id@, conflict_reason(reg@)),
                ));
            },
            Registration::Refused(m) => {
                let mut reason = String::from_str("已被占用: ");
                reason.append(m.as_str());
                outcome.conflicts.push((String::from_str(id), reason));
                assert(string_pairs(outcome.conflicts@) =~= old(outcome).lists().1.push(
                    (id@, conflict_reason(reg@)),
                ));
            },
        }
    }

    /// Replaces every registration by the given bindings: all hotkeys are
    /// released, then each binding in turn is parsed and, when valid,
    /// registered. A binding that was not registered is reported with its
    /// reason and stays inactive. Whatever the platform answered, the
    /// outcome and the registrations are the round of `settle_all` over
    /// those answers, and the platform was asked exactly for the release
    /// followed by the registrations of `round_calls`, each binding
    /// recording the answer to its own registration.
    pub fn rebuild<P: HotkeyPlatform>(
        &mut self,
        platform: &mut P,
        bindings: Vec<HotkeyBinding>,
    ) -> (r: RegisterOutcome)
        ensures
            final(self).current() == bindings@,
            exists|ss: Seq<Settled>|
                agrees(bindings@, ss) && (r.lists().0, r.lists().1, final(self).id_map())
                    == settle_all(binding_ids(bindings@), ss) && final(self).platform_calls() == old(self).platform_calls().push(PlatformCall::UnregisterAll) + round_calls(bindings@, ss),
    {
        self.calls.unregister_all(platform);
        let ghost start = self.calls.calls();
        self.binding_of.clear();
        self.bindings.clear();
        let mut outcome = RegisterOutcome::default();
        let ghost mut ss: Seq<Settled> = Seq::empty();
        assert(self.id_map() =~= Map::<u32, Seq<char>>::empty());
        assert(outcome.lists().0 =~= Seq::<Seq<char>>::empty());
        assert(outcome.lists().1 =~= Seq::<(Seq<char>, Seq<char>)>::empty());
        let mut i: usize = 0;
        while i < bindings.len()
            invariant
                i <= bindings@.len(),
                ss.len() == i,
                agrees(bindings@.subrange(0, i as int), ss),
                (outcome.lists().0, outcome.lists().1, self.id_map()) == settle_all(
                    binding_ids(bindings@.subrange(0, i as int)),
                    ss,
                ),
                self.calls.calls() == start + round_calls(bindings@.subrange(0, i as int), ss),
            decreases bindings@.len() - i,
        {
            let b = &bindings[i];
            let ghost before_calls = self.calls.calls();
            let reg = match HotkeySpec::parse(b.spec.as_str()) {
                Err(e) => Registration::Unparsable(e),
                Ok(spec) => {
                    let answer = self.calls.register(platform, &spec);
                    let reg = match answer {
                        Ok(pid) => Registration::Registered(pid),
                        Err(m) => Registration::Refused(m),
                    };
                    assert(answer_view(answer) == answer_of(reg@));
                    reg
                },
            };
            let ghost s = reg@;
            let ghost prev = ss;
            self.record(&mut outcome, b.id.as_str(), reg);
            proof {
                ss = prev.push(s);
                let done = bindings@.subrange(0, i as int + 1);
                assert(done.drop_last() =~= bindings@.subrange(0, i as int));
                assert(binding_ids(done).drop_last() =~= binding_ids(bindings@.subrange(0, i as int)));
                assert(binding_ids(done).last() == bindings@[i as int].id@);
                assert(ss.drop_last() =~= prev);
                assert(self.calls.calls() =~= start + round_calls(done, ss)) by {
                    assert(done.last() == bindings@[i as int]);
                    assert(ss.last() == s);
                }
                assert forall|j: int| 0 <= j < done.len() implies match parse_spec(
                    (#[trigger] done[j]).spec@,
                ) {
                    Err(f) => ss[j] == Settled::Unparsable(f),
                    Ok(_) => ss[j] is Registered || ss[j] is Refused,
                } by {
                    if j < i {
                        assert(done[j] == bindings@.subrange(0, i as int)[j]);
                    }
                }
            }
            i = i + 1;
        }
        assert(bindings@.subrange(0, bindings@.len() as int) =~= bindings@);
        self.bindings = bindings;
        outcome
    }

    /// The action of a pressed hotkey: the binding registered under the
    /// platform id, looked up among the current bindings (the first with
    /// that binding id).
    pub fn action_for(&self, platform_id: u32) -> (r: Option<HotkeyAction>)
        ensures
            !self.id_map().contains_key(platform_id) ==> r is None,
            self.id_map().contains_key(platform_id) ==> {
                let bid = self.id_map()[platform_id];
                match r {
                    None => forall|k: int|
                        0 <= k < self.current().len() ==> (#[trigger] self.current()[k]).id@ != bid,
                    Some(a) => exists|k: int|
                        0 <= k < self.current().len() && (#[trigger] self.current()[k]).id@ == bid
                            && a == self.current()[k].action && forall|j: int|
                            0 <= j < k ==> self.current()[j].id@ != bid,
                }
            },
    {
        match self.binding_of.get(&platform_id) {
            None => {
                assert(!self.id_map().contains_key(platform_id));
                None
            },
            Some(bid) => {
                assert(self.id_map()[platform_id] == bid@);
                let mut k: usize = 0;
                while k < self.bindings.len()
                    invariant
                        k <= self.bindings@.len(),
                        self.id_map().contains_key(platform_id),
                        self.id_map()[platform_id] == bid@,
                        forall|j: int| 0 <= j < k ==> (#[trigger] self.bindings@[j]).id@ != bid@,
                    decreases self.bindings@.len() - k,
                {
                    if str_eq(self.bindings[k].id.as_str(), bid.as_str()) {
                        let a = self.bindings[k].action.clone();
                        assert(self.current()[k as int].id@ == bid@);
                        return Some(a);
                    }
                    k = k + 1;
                }
                None
            },
        }
    }
}

/// Every binding of a round is accounted for exactly once: it is either
/// registered or refused, in order; and a binding whose text does not
/// parse is refused with the parse failure as its reason.
pub proof fn law_round_accounts_for_every_binding(ids: Seq<Seq<char>>, ss: Seq<Settled>)
    requires
        ss.len() == ids.len(),
    ensures
        settle_all(ids, ss).0.len() + settle_all(ids, ss).1.len() == ids.len(),
        forall|i: int|
            0 <= i < ss.len() ==> (#[trigger] ss[i] matches Settled::Unparsable(f)
                ==> settle_all(ids, ss).1.contains((ids[i], "解析失败: "@ + parse_error_message(f)))),
    decreases ss.len(),
{
    if ss.len() > 0 {
        let (u, v) = (ids.drop_last(), ss.drop_last());
        law_round_accounts_for_every_binding(u, v);
        let prev = settle_all(u, v);
        let cur = settle_all(ids, ss);
        assert forall|i: int|
            0 <= i < ss.len() implies (#[trigger] ss[i] matches Settled::Unparsable(f) ==> cur.1.contains(
            (ids[i], "解析失败: "@ + parse_error_message(f)),
        )) by {
            if i < ss.len() - 1 {
                assert(v[i] == ss[i] && u[i] == ids[i]);
                if let Settled::Unparsable(f) = ss[i] {
                    let e = (ids[i], "解析失败: "@ + parse_error_message(f));
                    assert(prev.1.contains(e));
                    let j = choose|j: int| 0 <= j < prev.1.len() && prev.1[j] == e;
                    assert(cur.1[j] == e);
                }
            } else {
                if let Settled::Unparsable(f) = ss[i] {
                    assert(cur.1.last() == (ids[i], "解析失败: "@ + parse_error_message(f)));
                    assert(cur.1[cur.1.len() - 1] == (ids[i], "解析失败: "@ + parse_error_message(f)));
                }
            }
        }
    }
}

/// The ids of the bindings that the platform registered, in order.
pub open spec fn registered_ids(ids: Seq<Seq<char>>, ss: Seq<Settled>) -> Seq<Seq<char>>
    decreases ss.len(),
{
    if ss.len() == 0 || ids.len() == 0 {
        Seq::empty()
    } else if ss.last() is Registered {
        registered_ids(ids.drop_last(), ss.drop_last()).push(ids.last())
    } else {
        registered_ids(ids.drop_last(), ss.drop_last())
    }
}

/// The ids of the bindings that were not registered (their text does not
/// parse, or the platform refused them), in order.
pub open spec fn refused_ids(ids: Seq<Seq<char>>, ss: Seq<Settled>) -> Seq<Seq<char>>
    decreases ss.len(),
{
    if ss.len() == 0 || ids.len() == 0 {
        Seq::empty()
    } else if ss.last() is Registered {
        refused_ids(ids.drop_last(), ss.drop_last())
    } else {
        refused_ids(ids.drop_last(), ss.drop_last()).push(ids.last())
    }
}

/// A round splits the bindings in two, keeping their order: the registered
/// ones are exactly those the platform registered, and the refused ones
/// exactly the others (a text that does not parse, or a refusal), each
/// with its reason.
pub proof fn law_round_partitions_bindings(ids: Seq<Seq<char>>, ss: Seq<Settled>)
    ensures
        settle_all(ids, ss).0 == registered_ids(ids, ss),
        settle_all(ids, ss).1.map_values(|c: (Seq<char>, Seq<char>)| c.0) == refused_ids(ids, ss),
    decreases ss.len(),
{
    if ss.len() > 0 && ids.len() > 0 {
        law_round_partitions_bindings(ids.drop_last(), ss.drop_last());
        let prev = settle_all(ids.drop_last(), ss.drop_last());
        let cur = settle_all(ids, ss);
        if ss.last() is Registered {
            assert(cur.1 == prev.1);
        } else {
            assert(cur.1 == prev.1.push((ids.last(), conflict_reason(ss.last()))));
            assert(cur.1.map_values(|c: (Seq<char>, Seq<char>)| c.0) =~= prev.1.map_values(
                |c: (Seq<char>, Seq<char>)| c.0,
            ).push(ids.last()));
        }
    } else {
        assert(settle_all(ids, ss).1.map_values(|c: (Seq<char>, Seq<char>)| c.0) =~= Seq::<Seq<char>>::empty());
    }
}

} // verus!
