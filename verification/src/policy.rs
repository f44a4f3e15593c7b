//! Routing policy: which notification channels an event goes to.
use vstd::prelude::*;
use crate::model::{Event, EventState, Severity};
use crate::text::{byte_len, is_blank, text_byte_len, text_is_blank};

verus! {

/// One routing rule: an event that matches every given selector goes to the
/// rule's channels.
#[derive(Clone, Debug, PartialEq, Eq)]
pub struct PolicyRule {
    pub name: String,
    pub enabled: bool,
    pub event_type: Option<String>,
    pub source: Option<String>,
    pub host_id: Option<String>,
    pub state: Option<EventState>,
    pub severity: Option<Severity>,
    pub channels: Vec<String>,
}

/// The ordered list of routing rules.
#[derive(Clone, Debug, PartialEq, Eq)]
pub struct PolicyCatalog {
    pub rules: Vec<PolicyRule>,
}

/// Why a policy catalog is refused.
#[derive(Clone, Debug, PartialEq, Eq)]
pub enum PolicyError {
    TooManyRules,
    InvalidName,
    InvalidChannelCount(String),
    InvalidChannel,
}

/// Most rules a catalog may hold.
pub const MAX_RULES: usize = 256;

/// Most channels one rule may name.
pub const MAX_RULE_CHANNELS: usize = 16;

/// A rule is enabled unless the catalog says otherwise.
pub fn enabled_by_default() -> (r: bool)
    ensures
        r,
{
    true
}

impl Default for PolicyCatalog {
    fn default() -> (r: Self)
        ensures
            r.rules@.len() == 0,
    {
        PolicyCatalog { rules: Vec::new() }
    }
}

/// A channel name is 1 to 64 bytes and not blank.
pub open spec fn channel_name_ok(c: Seq<char>) -> bool {
    !is_blank(c) && byte_len(c) <= 64
}

/// The problem, if any, with one rule.
pub open spec fn rule_issue(rule: PolicyRule) -> Option<PolicyError> {
    if is_blank(rule.name@) || byte_len(rule.name@) > 128 {
        Some(PolicyError::InvalidName)
    } else if rule.channels@.len() == 0 || rule.channels@.len() > MAX_RULE_CHANNELS {
        Some(PolicyError::InvalidChannelCount(rule.name))
    } else if exists|j: int|
        0 <= j < rule.channels@.len() && !channel_name_ok(#[trigger] rule.channels@[j]@) {
        Some(PolicyError::InvalidChannel)
    } else {
        None
    }
}

/// The problem of the first rule, in order, that has one.
pub open spec fn rules_issue(rules: Seq<PolicyRule>) -> Option<PolicyError>
    decreases rules.len(),
{
    if rules.len() == 0 {
        None
    } else {
        match rule_issue(rules[0]) {
            Some(e) => Some(e),
            None => rules_issue(rules.drop_first()),
        }
    }
}

/// The first problem a catalog has.
pub open spec fn catalog_issue(rules: Seq<PolicyRule>) -> Option<PolicyError> {
    if rules.len() > MAX_RULES {
        Some(PolicyError::TooManyRules)
    } else {
        rules_issue(rules)
    }
}

/// An optional text selector matches when absent or equal.
pub open spec fn text_selector_matches(selector: Option<String>, value: Seq<char>) -> bool {
    match selector {
        None => true,
        Some(s) => s@ == value,
    }
}

/// A rule matches an event when each of its selectors does.
pub open spec fn rule_matches(rule: PolicyRule, event: Event) -> bool {
    &&& text_selector_matches(rule.event_type, event.event_type@)
    &&& text_selector_matches(rule.source, event.source@)
    &&& text_selector_matches(rule.host_id, event.host_id@)
    &&& match rule.state {
        None => true,
        Some(s) => s == event.state,
    }
    &&& match rule.severity {
        None => true,
        Some(s) => s == event.severity,
    }
}

/// A rule routes an event when it is enabled and matches it.
pub open spec fn rule_routes(rule: PolicyRule, event: Event) -> bool {
    rule.enabled && rule_matches(rule, event)
}

/// Appends a channel unless it is already listed.
pub open spec fn add_channel(acc: Seq<Seq<char>>, ch: Seq<char>) -> Seq<Seq<char>> {
    if acc.contains(ch) {
        acc
    } else {
        acc.push(ch)
    }
}

/// Appends each channel, in order, unless already listed.
pub open spec fn add_channels(acc: Seq<Seq<char>>, chs: Seq<String>) -> Seq<Seq<char>>
    decreases chs.len(),
{
    if chs.len() == 0 {
        acc
    } else {
        add_channel(add_channels(acc, chs.drop_last()), chs.last()@)
    }
}

/// The channels of the rules that route the event, in rule order and then
/// channel order, each listed once at its first appearance.
pub open spec fn routed_channels(rules: Seq<PolicyRule>, event: Event) -> Seq<Seq<char>>
    decreases rules.len(),
{
    if rules.len() == 0 {
        Seq::empty()
    } else {
        let prev = routed_channels(rules.drop_last(), event);
        if rule_routes(rules.last(), event) {
            add_channels(prev, rules.last().channels@)
        } else {
            prev
        }
    }
}

/// The texts of a list of strings.
pub open spec fn texts(v: Seq<String>) -> Seq<Seq<char>> {
    v.map_values(|s: String| s@)
}

proof fn lemma_rules_issue_skip(rules: Seq<PolicyRule>, i: int)
    requires
        0 <= i <= rules.len(),
        forall|k: int| 0 <= k < i ==> #[trigger] rule_issue(rules[k]) is None,
    ensures
        rules_issue(rules) == rules_issue(rules.skip(i)),
    decreases i,
{
    if i > 0 {
        let t = rules.drop_first();
        assert forall|k: int| 0 <= k < i - 1 implies #[trigger] rule_issue(t[k]) is None by {
            assert(t[k] == rules[k + 1]);
        }
        lemma_rules_issue_skip(t, i - 1);
        assert(t.skip(i - 1) =~= rules.skip(i));
    } else {
        assert(rules.skip(0) =~= rules);
    }
}


proof fn lemma_add_channels(acc: Seq<Seq<char>>, chs: Seq<String>, ch: Seq<char>)
    ensures
        acc.no_duplicates() ==> add_channels(acc, chs).no_duplicates(),
        add_channels(acc, chs).contains(ch) <==> (acc.contains(ch) || exists|j: int|
            0 <= j < chs.len() && #[trigger] chs[j]@ == ch),
    decreases chs.len(),
{
    if chs.len() > 0 {
        let init = chs.drop_last();
        lemma_add_channels(acc, init, ch);
        let prev = add_channels(acc, init);
        let last = chs.last()@;
        if acc.no_duplicates() && !prev.contains(last) {
            assert forall|a: int, b: int|
                0 <= a < prev.push(last).len() && 0 <= b < prev.push(last).len() && a != b
                implies prev.push(last)[a] != prev.push(last)[b] by {
                if a < prev.len() && b < prev.len() {
                } else if a < prev.len() {
                    assert(prev.contains(prev[a]));
                } else {
                    assert(prev.contains(prev[b]));
                }
            }
        }
        if add_channels(acc, chs).contains(ch) {
            if !prev.contains(ch) {
                assert(ch == last);
                assert(chs[chs.len() - 1]@ == ch);
            }
        }
        if exists|j: int| 0 <= j < chs.len() && #[trigger] chs[j]@ == ch {
            let j = choose|j: int| 0 <= j < chs.len() && #[trigger] chs[j]@ == ch;
            if j < chs.len() - 1 {
                assert(init[j]@ == ch);
                assert(prev.contains(ch));
            } else {
                assert(ch == last);
            }
            if prev.contains(ch) {
                if !prev.contains(last) {
                    let k = choose|k: int| 0 <= k < prev.len() && prev[k] == ch;
                    assert(prev.push(last)[k] == ch);
                }
            } else {
                assert(prev.push(last)[prev.len() as int] == ch);
            }
        }
        if acc.contains(ch) {
            if !prev.contains(last) {
                let k = choose|k: int| 0 <= k < prev.len() && prev[k] == ch;
                assert(prev.push(last)[k] == ch);
            }
        }
    }
}

/// Law: the channels an event is routed to are listed without repetition.
pub proof fn law_routed_channels_distinct(rules: Seq<PolicyRule>, event: Event)
    ensures
        routed_channels(rules, event).no_duplicates(),
    decreases rules.len(),
{
    if rules.len() > 0 {
        law_routed_channels_distinct(rules.drop_last(), event);
        let prev = routed_channels(rules.drop_last(), event);
        lemma_add_channels(prev, rules.last().channels@, Seq::empty());
    }
}

/// The selectors of a rule agree with the event: each selector that is given
/// equals the event's value.
pub open spec fn selectors_agree(rule: PolicyRule, event: Event) -> bool {
    &&& (rule.event_type is Some ==> rule.event_type->0@ == event.event_type@)
    &&& (rule.source is Some ==> rule.source->0@ == event.source@)
    &&& (rule.host_id is Some ==> rule.host_id->0@ == event.host_id@)
    &&& (rule.state is Some ==> rule.state->0 == event.state)
    &&& (rule.severity is Some ==> rule.severity->0 == event.severity)
}

/// Law: a rule with a selector that differs from the event's value does not
/// match it: a given event type, source, host, state or severity must equal
/// the event's.
pub proof fn law_rule_needs_every_selector(rule: PolicyRule, event: Event)
    ensures
        rule_matches(rule, event) ==> selectors_agree(rule, event),
        rule.source is Some && rule.source->0@ != event.source@ ==> !rule_matches(rule, event),
{
}

/// Law: every channel an event is routed to is named by an enabled rule whose
/// given selectors all equal the event's values; so a rule with a differing
/// selector routes nothing.
pub proof fn law_routed_channel_has_agreeing_rule(rules: Seq<PolicyRule>, event: Event, ch: Seq<char>)
    ensures
        routed_channels(rules, event).contains(ch) ==> exists|i: int, j: int|
            0 <= i < rules.len() && rules[i].enabled && selectors_agree(rules[i], event) && 0 <= j
                < rules[i].channels@.len() && #[trigger] rules[i].channels@[j]@ == ch,
{
    law_routed_channels_exact(rules, event, ch);
    if routed_channels(rules, event).contains(ch) {
        let (i, j) = choose|i: int, j: int|
            0 <= i < rules.len() && rule_routes(rules[i], event) && 0 <= j
                < rules[i].channels@.len() && #[trigger] rules[i].channels@[j]@ == ch;
        law_rule_needs_every_selector(rules[i], event);
        assert(rules[i].channels@[j]@ == ch);
    }
}

/// Law: a channel is routed an event exactly when some enabled rule that
/// matches the event names it.
pub proof fn law_routed_channels_exact(rules: Seq<PolicyRule>, event: Event, ch: Seq<char>)
    ensures
        routed_channels(rules, event).contains(ch) <==> exists|i: int, j: int|
            0 <= i < rules.len() && rule_routes(rules[i], event) && 0 <= j
                < rules[i].channels@.len() && #[trigger] rules[i].channels@[j]@ == ch,
    decreases rules.len(),
{
    if rules.len() > 0 {
        let init = rules.drop_last();
        let last = rules.last();
        law_routed_channels_exact(init, event, ch);
        let prev = routed_channels(init, event);
        lemma_add_channels(prev, last.channels@, ch);
        if routed_channels(rules, event).contains(ch) {
            if prev.contains(ch) {
                let (i, j) = choose|i: int, j: int|
                    0 <= i < init.len() && rule_routes(init[i], event) && 0 <= j
                        < init[i].channels@.len() && #[trigger] init[i].channels@[j]@ == ch;
                assert(rules[i] == init[i]);
                assert(rules[i].channels@[j]@ == ch);
            } else {
                let j = choose|j: int|
                    0 <= j < last.channels@.len() && #[trigger] last.channels@[j]@ == ch;
                assert(rules[rules.len() - 1].channels@[j]@ == ch);
            }
        }
        if exists|i: int, j: int|
            0 <= i < rules.len() && rule_routes(rules[i], event) && 0 <= j
                < rules[i].channels@.len() && #[trigger] rules[i].channels@[j]@ == ch {
            let (i, j) = choose|i: int, j: int|
                0 <= i < rules.len() && rule_routes(rules[i], event) && 0 <= j
                    < rules[i].channels@.len() && #[trigger] rules[i].channels@[j]@ == ch;
            if i < rules.len() - 1 {
                assert(init[i] == rules[i]);
                assert(init[i].channels@[j]@ == ch);
                assert(prev.contains(ch));
            } else {
                assert(last.channels@[j]@ == ch);
            }
        }
    }
}

fn check_rule(rule: &PolicyRule) -> (r: Result<(), PolicyError>)
    ensures
        r == match rule_issue(*rule) {
            Some(e) => Err(e),
            None => Ok(()),
        },
{
    if text_is_blank(rule.name.as_str()) || text_byte_len(rule.name.as_str()) > 128 {
        return Err(PolicyError::InvalidName);
    }
    if rule.channels.len() == 0 || rule.channels.len() > MAX_RULE_CHANNELS {
        return Err(PolicyError::InvalidChannelCount(rule.name.clone()));
    }
    let n = rule.channels.len();
    for j in 0..n
        invariant
            n == rule.channels@.len(),
            0 < n <= MAX_RULE_CHANNELS,
            !is_blank(rule.name@),
            byte_len(rule.name@) <= 128,
            forall|k: int| 0 <= k < j ==> channel_name_ok(#[trigger] rule.channels@[k]@),
    {
        let c = rule.channels[j].as_str();
        if text_is_blank(c) || text_byte_len(c) > 64 {
            assert(!channel_name_ok(rule.channels@[j as int]@));
            return Err(PolicyError::InvalidChannel);
        }
    }
    Ok(())
}

fn contains_text(v: &Vec<String>, s: &String) -> (r: bool)
    ensures
        r == texts(v@).contains(s@),
{
    let n = v.len();
    for i in 0..n
        invariant
            n == v@.len(),
            forall|k: int| 0 <= k < i ==> v@[k]@ != s@,
    {
        if v[i] == *s {
            assert(texts(v@)[i as int] == s@);
            return true;
        }
    }
    proof {
        if texts(v@).contains(s@) {
            let k = choose|k: int| 0 <= k < texts(v@).len() && texts(v@)[k] == s@;
            assert(v@[k]@ == s@);
        }
    }
    false
}

impl PolicyRule {
    /// Whether each selector of the rule matches the event.
    pub fn matches(&self, event: &Event) -> (r: bool)
        ensures
            r == rule_matches(*self, *event),
    {
        let event_type_ok = match &self.event_type {
            None => true,
            Some(v) => *v == event.event_type,
        };
        let source_ok = match &self.source {
            None => true,
            Some(v) => *v == event.source,
        };
        let host_ok = match &self.host_id {
            None => true,
            Some(v) => *v == event.host_id,
        };
        let state_ok = match self.state {
            None => true,
            Some(s) => s == event.state,
        };
        let severity_ok = match self.severity {
            None => true,
            Some(s) => s == event.severity,
        };
        event_type_ok && source_ok && host_ok && state_ok && severity_ok
    }
}

impl PolicyCatalog {
    /// Checks the catalog limits and reports the first rule that breaks one.
    pub fn validate(&self) -> (r: Result<(), PolicyError>)
        ensures
            r == match catalog_issue(self.rules@) {
                Some(e) => Err(e),
                None => Ok(()),
            },
    {
        if self.rules.len() > MAX_RULES {
            return Err(PolicyError::TooManyRules);
        }
        let n = self.rules.len();
        assert(catalog_issue(self.rules@) == rules_issue(self.rules@));
        for i in 0..n
            invariant
                n == self.rules@.len(),
                n <= MAX_RULES,
                forall|k: int| 0 <= k < i ==> #[trigger] rule_issue(self.rules@[k]) is None,
        {
            proof {
                lemma_rules_issue_skip(self.rules@, i as int);
                assert(self.rules@.skip(i as int)[0] == self.rules@[i as int]);
            }
            check_rule(&self.rules[i])?;
        }
        proof {
            lemma_rules_issue_skip(self.rules@, n as int);
        }
        Ok(())
    }

    /// The channels an event is routed to: those of every enabled rule that
    /// matches it, in rule order, each listed once.
    pub fn channels_for(&self, event: &Event) -> (r: Vec<String>)
        ensures
            texts(r@) == routed_channels(self.rules@, *event),
    {
        let mut channels: Vec<String> = Vec::new();
        let n = self.rules.len();
        for i in 0..n
            invariant
                n == self.rules@.len(),
                texts(channels@) == routed_channels(self.rules@.take(i as int), *event),
        {
            let rule = &self.rules[i];
            proof {
                assert(self.rules@.take(i + 1).drop_last() =~= self.rules@.take(i as int));
                assert(self.rules@.take(i + 1).last() == *rule);
            }
            if rule.enabled && rule.matches(event) {
                let m = rule.channels.len();
                let ghost base = texts(channels@);
                for j in 0..m
                    invariant
                        m == rule.channels@.len(),
                        texts(channels@) == add_channels(base, rule.channels@.take(j as int)),
                {
                    let channel = &rule.channels[j];
                    proof {
                        assert(rule.channels@.take(j + 1).drop_last() =~= rule.channels@.take(
                            j as int,
                        ));
                        assert(rule.channels@.take(j + 1).last() == *channel);
                    }
                    if !contains_text(&channels, channel) {
                        let ghost prev = channels@;
                        channels.push(channel.clone());
                        assert(texts(channels@) =~= texts(prev).push(channel@));
                    }
                }
                assert(rule.channels@.take(m as int) =~= rule.channels@);
            }
        }
        assert(self.rules@.take(n as int) =~= self.rules@);
        channels
    }
}

} // verus!
