//! The inspector's own state: the tab shown, the capture rules, the
//! explain tab's index experiment and the compose tab's query.

use vstd::prelude::*;
use crate::compose::{compose_pieces, compose_query, pieces, ComposePiece};
use crate::model::QueryEntry;

verus! {

/// A tab of the inspector.
#[derive(Debug, Clone, Copy, PartialEq, Eq, Structural)]
pub enum InspectorTab {
    Overview,
    Request,
    Response,
    Explain,
    Compose,
    Rules,
    Schema,
}

/// The label of a tab.
pub open spec fn tab_label(t: InspectorTab) -> Seq<char> {
    match t {
        InspectorTab::Overview => "Overview"@,
        InspectorTab::Request => "Request"@,
        InspectorTab::Response => "Response"@,
        InspectorTab::Explain => "Explain"@,
        InspectorTab::Compose => "Compose"@,
        InspectorTab::Rules => "Rules"@,
        InspectorTab::Schema => "Schema"@,
    }
}

/// The tabs the inspector offers, in order.
pub open spec fn offered_tabs() -> Seq<InspectorTab> {
    seq![InspectorTab::Overview, InspectorTab::Request, InspectorTab::Response, InspectorTab::Explain]
}

impl InspectorTab {
    pub fn label(self) -> (r: &'static str)
        ensures
            r@ == tab_label(self),
    {
        match self {
            InspectorTab::Overview => "Overview",
            InspectorTab::Request => "Request",
            InspectorTab::Response => "Response",
            InspectorTab::Explain => "Explain",
            InspectorTab::Compose => "Compose",
            InspectorTab::Rules => "Rules",
            InspectorTab::Schema => "Schema",
        }
    }

    /// The tabs the inspector offers.
    pub fn all() -> (r: &'static [InspectorTab])
        ensures
            r@ == offered_tabs(),
    {
        let r: &'static [InspectorTab] = &[
            InspectorTab::Overview,
            InspectorTab::Request,
            InspectorTab::Response,
            InspectorTab::Explain,
        ];
        assert(r@ =~= offered_tabs());
        r
    }
}

/// What a capture rule does to a matching request.
#[derive(Debug, Clone, Copy, PartialEq, Eq, Structural)]
pub enum RuleAction {
    Highlight,
    Warn,
    Block,
}

impl RuleAction {
    pub fn label(&self) -> (r: &'static str)
        ensures
            r@ == match *self {
                RuleAction::Highlight => "highlight"@,
                RuleAction::Warn => "warn"@,
                RuleAction::Block => "block"@,
            },
    {
        match self {
            RuleAction::Highlight => "highlight",
            RuleAction::Warn => "warn",
            RuleAction::Block => "block",
        }
    }
}

/// A capture rule.
#[derive(Debug, Clone)]
pub struct Rule {
    pub id: usize,
    pub pattern: String,
    pub action: RuleAction,
    pub enabled: bool,
}

/// What the rules tab asks for.
#[derive(Debug, Clone)]
pub enum RulesMsg {
    Toggle(usize),
    Delete(usize),
    AddNew,
    PatternChanged(usize, String),
}

/// The explain tab: whether the suggested index has been tried.
#[derive(Debug, Clone, Copy)]
pub struct ExplainState {
    pub index_applied: bool,
}

impl Default for ExplainState {
    fn default() -> (r: Self)
        ensures
            !r.index_applied,
    {
        ExplainState { index_applied: false }
    }
}

/// What the explain tab asks for.
#[derive(Debug, Clone, Copy, PartialEq, Eq, Structural)]
pub enum ExplainMsg {
    CopyIndex,
    RunIndex,
}

/// What the inspector asks for.
#[derive(Debug, Clone)]
pub enum InspectorMsg {
    TabSelect(InspectorTab),
    Rules(RulesMsg),
    Explain(ExplainMsg),
    SuggestIndex,
    Close,
    ToggleMaximize,
}

/// The inspector.
pub struct InspectorState {
    pub tab: InspectorTab,
    pub rules: Vec<Rule>,
    pub explain: ExplainState,
    /// The query the compose tab starts from.
    pub compose: Vec<ComposePiece>,
}

/// The largest rule id, zero without rules.
pub open spec fn max_rule_id(rs: Seq<Rule>) -> int
    decreases rs.len(),
{
    if rs.len() == 0 {
        0
    } else {
        let m = max_rule_id(rs.drop_last());
        if rs.last().id > m {
            rs.last().id as int
        } else {
            m
        }
    }
}

/// Position of the first rule of `rs[i..]` with id `id`.
pub open spec fn rule_index_from(rs: Seq<Rule>, id: usize, i: int) -> Option<int>
    decreases rs.len() - i,
{
    if 0 <= i < rs.len() {
        if rs[i].id == id {
            Some(i)
        } else {
            rule_index_from(rs, id, i + 1)
        }
    } else {
        None
    }
}

/// The rules after `m`.
pub open spec fn rules_updated(o: Seq<Rule>, n: Seq<Rule>, m: RulesMsg) -> bool {
    match m {
        RulesMsg::Toggle(id) => match rule_index_from(o, id, 0) {
            Some(p) => n == o.update(p, Rule { enabled: !o[p].enabled, ..o[p] }),
            None => n == o,
        },
        RulesMsg::Delete(id) => n == o.filter(|r: Rule| r.id != id),
        RulesMsg::AddNew => {
            &&& n.len() == o.len() + 1
            &&& n.take(o.len() as int) == o
            &&& n.last().id == max_rule_id(o) + 1
            &&& n.last().pattern@.len() == 0
            &&& n.last().action == RuleAction::Highlight
            &&& n.last().enabled
        },
        RulesMsg::PatternChanged(_, _) => n == o,
    }
}

/// The inspector `n` is `o` after the message `m`.
pub open spec fn inspector_updated(o: InspectorState, n: InspectorState, m: InspectorMsg) -> bool {
    match m {
        InspectorMsg::TabSelect(t) => {
            &&& n.tab == if offered_tabs().contains(t) {
                t
            } else {
                o.tab
            }
            &&& n.rules == o.rules
            &&& n.explain == o.explain
            &&& n.compose == o.compose
        },
        InspectorMsg::Rules(rm) => {
            &&& rules_updated(o.rules@, n.rules@, rm)
            &&& n.tab == o.tab
            &&& n.explain == o.explain
            &&& n.compose == o.compose
        },
        InspectorMsg::SuggestIndex => {
            &&& n.tab == InspectorTab::Explain
            &&& !n.explain.index_applied
            &&& n.rules == o.rules
            &&& n.compose == o.compose
        },
        InspectorMsg::Explain(ExplainMsg::RunIndex) => {
            &&& n.explain.index_applied
            &&& n.tab == o.tab
            &&& n.rules == o.rules
            &&& n.compose == o.compose
        },
        _ => n == o,
    }
}

impl InspectorState {
    /// The overview tab, no index tried, an empty compose tab, and the
    /// sample rules.
    pub fn new() -> (r: Self)
        ensures
            r.tab == InspectorTab::Overview,
            !r.explain.index_applied,
            r.compose@.len() == 0,
            r.rules@.len() == 4,
            forall|i: int| 0 <= i < 4 ==> (#[trigger] r.rules@[i]).id == i,
            r.rules@[0].pattern@ == "coll == 'orders' && plan == 'COLLSCAN'"@,
            r.rules@[0].action == RuleAction::Warn && r.rules@[0].enabled,
            r.rules@[1].pattern@ == "latency > 1000ms"@,
            r.rules@[1].action == RuleAction::Warn && r.rules@[1].enabled,
            r.rules@[2].pattern@ == "client == 'admin-portal' && op == 'deleteMany'"@,
            r.rules@[2].action == RuleAction::Block && !r.rules@[2].enabled,
            r.rules@[3].pattern@ == "coll == 'users' && filter.email"@,
            r.rules@[3].action == RuleAction::Highlight && r.rules@[3].enabled,
    {
        let mut rules: Vec<Rule> = Vec::new();
        rules.push(
            Rule {
                id: 0,
                pattern: "coll == 'orders' && plan == 'COLLSCAN'".to_string(),
                action: RuleAction::Warn,
                enabled: true,
            },
        );
        rules.push(
            Rule { id: 1, pattern: "latency > 1000ms".to_string(), action: RuleAction::Warn, enabled: true },
        );
        rules.push(
            Rule {
                id: 2,
                pattern: "client == 'admin-portal' && op == 'deleteMany'".to_string(),
                action: RuleAction::Block,
                enabled: false,
            },
        );
        rules.push(
            Rule {
                id: 3,
                pattern: "coll == 'users' && filter.email".to_string(),
                action: RuleAction::Highlight,
                enabled: true,
            },
        );
        InspectorState {
            tab: InspectorTab::Overview,
            rules,
            explain: ExplainState::default(),
            compose: Vec::new(),
        }
    }

    /// Starts the compose tab from the query of `entry`.
    pub fn seed_compose(&mut self, entry: &QueryEntry)
        ensures
            pieces(final(self).compose@) == compose_pieces(*entry),
            final(self).tab == old(self).tab,
            final(self).rules == old(self).rules,
            final(self).explain == old(self).explain,
    {
        self.compose = compose_query(entry);
    }

    fn update_rules(&mut self, m: RulesMsg)
        requires
            m is AddNew ==> max_rule_id(old(self).rules@) < usize::MAX,
        ensures
            rules_updated(old(self).rules@, final(self).rules@, m),
            final(self).tab == old(self).tab,
            final(self).explain == old(self).explain,
            final(self).compose == old(self).compose,
    {
        match m {
            RulesMsg::Toggle(id) => {
                let n = self.rules.len();
                let mut i: usize = 0;
                while i < n
                    invariant
                        n == self.rules@.len(),
                        self.rules@ == old(self).rules@,
                        self.tab == old(self).tab,
                        self.explain == old(self).explain,
                        self.compose == old(self).compose,
                        0 <= i <= n,
                        rule_index_from(self.rules@, id, 0) == rule_index_from(self.rules@, id, i as int),
                        m == RulesMsg::Toggle(id),
                    decreases n - i,
                {
                    if self.rules[i].id == id {
                        let ghost o = self.rules@;
                        assert(rule_index_from(o, id, i as int) == Some(i as int));
                        let r = &mut self.rules[i];
                        r.enabled = !r.enabled;
                        assert(self.rules@ =~= o.update(i as int, Rule { enabled: !o[i as int].enabled, ..o[i as int] }));
                        return;
                    }
                    i += 1;
                }
            },
            RulesMsg::Delete(id) => {
                let mut kept: Vec<Rule> = Vec::new();
                let mut rest: Vec<Rule> = Vec::new();
                std::mem::swap(&mut rest, &mut self.rules);
                let n = rest.len();
                let mut i: usize = 0;
                let ghost all = rest@;
                while i < n
                    invariant
                        n == all.len(),
                        all == old(self).rules@,
                        0 <= i <= n,
                        rest@ == all.skip(i as int),
                        kept@ == all.take(i as int).filter(|r: Rule| r.id != id),
                        self.tab == old(self).tab,
                        self.explain == old(self).explain,
                        self.compose == old(self).compose,
                    decreases n - i,
                {
                    let r = rest.remove(0);
                    assert(all.take(i + 1).drop_last() =~= all.take(i as int));
                    reveal(Seq::filter);
                    if r.id != id {
                        kept.push(r);
                    }
                    assert(kept@ =~= all.take(i + 1).filter(|r: Rule| r.id != id));
                    assert(rest@ =~= all.skip(i + 1));
                    i += 1;
                }
                assert(all.take(n as int) =~= all);
                self.rules = kept;
            },
            RulesMsg::AddNew => {
                let n = self.rules.len();
                let mut top: usize = 0;
                let mut i: usize = 0;
                while i < n
                    invariant
                        n == self.rules@.len(),
                        0 <= i <= n,
                        top as int == max_rule_id(self.rules@.take(i as int)),
                    decreases n - i,
                {
                    assert(self.rules@.take(i + 1).drop_last() =~= self.rules@.take(i as int));
                    if self.rules[i].id > top {
                        top = self.rules[i].id;
                    }
                    i += 1;
                }
                assert(self.rules@.take(n as int) =~= self.rules@);
                self.rules.push(
                    Rule {
                        id: top + 1,
                        pattern: String::new(),
                        action: RuleAction::Highlight,
                        enabled: true,
                    },
                );
                assert(self.rules@.take(n as int) =~= old(self).rules@);
            },
            RulesMsg::PatternChanged(_, _) => {},
        }
    }

    /// Applies an inspector message.
    pub fn update(&mut self, msg: InspectorMsg)
        requires
            (msg matches InspectorMsg::Rules(m) && m is AddNew) ==> max_rule_id(old(self).rules@)
                < usize::MAX,
        ensures
            inspector_updated(*old(self), *final(self), msg),
    {
        match msg {
            InspectorMsg::TabSelect(tab) => {
                let all = InspectorTab::all();
                let mut i: usize = 0;
                while i < all.len()
                    invariant
                        all@ == offered_tabs(),
                        msg == InspectorMsg::TabSelect(tab),
                        0 <= i <= all@.len(),
                        *self == *old(self),
                        forall|k: int| 0 <= k < i ==> all@[k] != tab,
                    decreases all@.len() - i,
                {
                    if all[i] == tab {
                        assert(offered_tabs()[i as int] == tab);
                        self.tab = tab;
                        return;
                    }
                    i += 1;
                }
                assert(!offered_tabs().contains(tab));
            },
            InspectorMsg::Rules(m) => self.update_rules(m),
            InspectorMsg::SuggestIndex => {
                self.tab = InspectorTab::Explain;
                self.explain = ExplainState::default();
            },
            InspectorMsg::Explain(ExplainMsg::RunIndex) => {
                self.explain.index_applied = true;
            },
            InspectorMsg::Explain(ExplainMsg::CopyIndex) => {},
            InspectorMsg::Close | InspectorMsg::ToggleMaximize => {},
        }
    }
}

} // verus!
