//! Schedule groups in the editor: what is wrong with one, what it becomes when
//! it is saved, and how it is shown.

use crate::clock;
use crate::clock::Timestamp;
use crate::models;
use crate::models::{
    ScheduleGroup, ScheduleGroupChild, ScheduleGroupMember, ScheduleMode, ScheduleRouteRule,
    ScheduleRouteTargetKind, Upstream,
};
use crate::name_list;
use crate::number;
use crate::text;
use vstd::prelude::*;

verus! {

/// A schedule group in the editor.
#[derive(Debug, Clone)]
pub struct ScheduleGroupEditor {
    pub group: ScheduleGroup,
    pub member_ids: Vec<String>,
    pub child_group_ids: Vec<String>,
    pub route_rules: Vec<ScheduleRouteRule>,
}

impl ScheduleGroupEditor {
    /// The chosen targets stand in order, none of them twice.
    pub open spec fn wf(&self) -> bool {
        name_list::in_order(self.member_ids@) && name_list::in_order(self.child_group_ids@)
    }

    /// An editor for a group that is yet to be made.
    pub fn new_empty() -> (r: Self)
        ensures
            r.wf(),
            r.group.name@.len() == 0,
            r.group.id@.len() == 36,
            clock::is_now(r.group.created_at),
            r.group == (ScheduleGroup {
                id: r.group.id,
                name: r.group.name,
                mode: ScheduleMode::Failover,
                use_all_upstreams: true,
                fixed_target_kind: ScheduleRouteTargetKind::Upstream,
                fixed_upstream_id: None,
                fixed_group_id: None,
                failure_threshold: 1,
                failover_on_balance: true,
                failover_on_network: true,
                failover_on_5xx: true,
                affinity_ttl_seconds: 1800,
                created_at: r.group.created_at,
                updated_at: r.group.created_at,
            }),
            r.member_ids@.len() == 0,
            r.child_group_ids@.len() == 0,
            r.route_rules@.len() == 0,
    {
        ScheduleGroupEditor {
            group: ScheduleGroup::new(String::new()),
            member_ids: Vec::new(),
            child_group_ids: Vec::new(),
            route_rules: Vec::new(),
        }
    }

    /// An editor for a group with its targets and rules: the enabled ones are
    /// chosen.
    pub fn new(
        group: ScheduleGroup,
        members: &Vec<ScheduleGroupMember>,
        children: &Vec<ScheduleGroupChild>,
        route_rules: Vec<ScheduleRouteRule>,
    ) -> (r: Self)
        ensures
            r.wf(),
            r.group == group,
            r.route_rules == route_rules,
            forall|n: Seq<char>|
                #![trigger name_list::lists(r.member_ids@, n)]
                name_list::lists(r.member_ids@, n) <==> exists|i: int|
                    0 <= i < members@.len() && (#[trigger] members@[i]).enabled
                        && members@[i].upstream_id@ == n,
            forall|n: Seq<char>|
                #![trigger name_list::lists(r.child_group_ids@, n)]
                name_list::lists(r.child_group_ids@, n) <==> exists|i: int|
                    0 <= i < children@.len() && (#[trigger] children@[i]).enabled
                        && children@[i].target_group_id@ == n,
    {
        let mut member_ids: Vec<String> = Vec::new();
        let mut i: usize = 0;
        while i < members.len()
            invariant
                i <= members@.len(),
                name_list::in_order(member_ids@),
                forall|n: Seq<char>|
                    #![trigger name_list::lists(member_ids@, n)]
                    name_list::lists(member_ids@, n) <==> exists|j: int|
                        0 <= j < i && (#[trigger] members@[j]).enabled
                            && members@[j].upstream_id@ == n,
            decreases members@.len() - i,
        {
            let ghost before = member_ids@;
            if members[i].enabled {
                name_list::insert_name(&mut member_ids, members[i].upstream_id.as_str());
            }
            proof {
                assert forall|n: Seq<char>|
                    #![trigger name_list::lists(member_ids@, n)]
                    name_list::lists(member_ids@, n) <==> exists|j: int|
                        0 <= j < i + 1 && (#[trigger] members@[j]).enabled
                            && members@[j].upstream_id@ == n by {
                    assert(name_list::lists(member_ids@, n) <==> name_list::lists(before, n) || (
                    members@[i as int].enabled && members@[i as int].upstream_id@ == n));
                }
            }
            i = i + 1;
        }
        let mut child_group_ids: Vec<String> = Vec::new();
        let mut i: usize = 0;
        while i < children.len()
            invariant
                i <= children@.len(),
                name_list::in_order(child_group_ids@),
                forall|n: Seq<char>|
                    #![trigger name_list::lists(child_group_ids@, n)]
                    name_list::lists(child_group_ids@, n) <==> exists|j: int|
                        0 <= j < i && (#[trigger] children@[j]).enabled
                            && children@[j].target_group_id@ == n,
            decreases children@.len() - i,
        {
            let ghost before = child_group_ids@;
            if children[i].enabled {
                name_list::insert_name(&mut child_group_ids, children[i].target_group_id.as_str());
            }
            proof {
                assert forall|n: Seq<char>|
                    #![trigger name_list::lists(child_group_ids@, n)]
                    name_list::lists(child_group_ids@, n) <==> exists|j: int|
                        0 <= j < i + 1 && (#[trigger] children@[j]).enabled
                            && children@[j].target_group_id@ == n by {
                    assert(name_list::lists(child_group_ids@, n) <==> name_list::lists(before, n)
                        || (children@[i as int].enabled && children@[i as int].target_group_id@
                        == n));
                }
            }
            i = i + 1;
        }
        ScheduleGroupEditor { group, member_ids, child_group_ids, route_rules }
    }
}

/// An optional text without the space around it, nothing where it is blank.
pub open spec fn trimmed_opt(value: Option<String>) -> Option<Seq<char>> {
    match value {
        Some(v) => text::trimmed_non_empty(v@),
        None => None,
    }
}

fn trim_opt(value: &Option<String>) -> (r: Option<String>)
    ensures
        text::opt_view(r) == trimmed_opt(*value),
{
    match value {
        Some(v) => text::trimmed_string(v.as_str()),
        None => None,
    }
}

/// The target that a rule names.
pub open spec fn rule_target(rule: &ScheduleRouteRule) -> Option<Seq<char>> {
    match rule.target_kind {
        ScheduleRouteTargetKind::Group => trimmed_opt(rule.target_group_id),
        ScheduleRouteTargetKind::Upstream => trimmed_opt(rule.target_upstream_id),
    }
}

/// What is wrong with a rule.
pub open spec fn rule_problem(rule: &ScheduleRouteRule) -> Option<Seq<char>> {
    if text::trimmed(rule.pattern@).len() == 0 {
        Some("模型路由 pattern 不能为空"@)
    } else if rule_target(rule) is None {
        match rule.target_kind {
            ScheduleRouteTargetKind::Group => Some("模型路由需要选择目标调度组"@),
            ScheduleRouteTargetKind::Upstream => Some("模型路由需要选择目标上游"@),
        }
    } else {
        None
    }
}

/// Whether a rule is another one, made ready to be saved with a group.
pub open spec fn is_ready_rule(
    after: &ScheduleRouteRule,
    before: &ScheduleRouteRule,
    group_id: Seq<char>,
) -> bool {
    &&& after.id == before.id
    &&& after.group_id@ == group_id
    &&& after.pattern@ == text::trimmed(before.pattern@)
    &&& after.name@ == if text::trimmed(before.name@).len() == 0 {
        text::trimmed(before.pattern@)
    } else {
        text::trimmed(before.name@)
    }
    &&& after.enabled == before.enabled
    &&& after.target_kind == before.target_kind
    &&& text::opt_view(after.target_model) == trimmed_opt(before.target_model)
    &&& after.priority == before.priority
    &&& match before.target_kind {
        ScheduleRouteTargetKind::Group => {
            &&& text::opt_view(after.target_group_id) == trimmed_opt(before.target_group_id)
            &&& after.target_upstream_id is None
        },
        ScheduleRouteTargetKind::Upstream => {
            &&& text::opt_view(after.target_upstream_id) == trimmed_opt(before.target_upstream_id)
            &&& after.target_group_id is None
        },
    }
}

/// What is wrong with the first rule that has something wrong, from a position
/// on.
pub open spec fn rules_problem(rules: Seq<ScheduleRouteRule>, from: int) -> Option<Seq<char>>
    decreases rules.len() - from,
{
    if 0 <= from < rules.len() {
        match rule_problem(&rules[from]) {
            Some(problem) => Some(problem),
            None => rules_problem(rules, from + 1),
        }
    } else {
        None
    }
}

/// The upstream that a group is fixed to.
pub open spec fn fixed_upstream(group: &ScheduleGroup) -> Option<Seq<char>> {
    if group.mode == ScheduleMode::Fixed && group.fixed_target_kind
        == ScheduleRouteTargetKind::Upstream {
        text::opt_view(group.fixed_upstream_id)
    } else {
        None
    }
}

/// The other group that a group is fixed to.
pub open spec fn fixed_group(group: &ScheduleGroup) -> Option<Seq<char>> {
    if group.mode == ScheduleMode::Fixed && group.fixed_target_kind
        == ScheduleRouteTargetKind::Group {
        text::opt_view(group.fixed_group_id)
    } else {
        None
    }
}

/// What is wrong with a group in the editor, in the order in which it is
/// noticed.
pub open spec fn editor_problem(e: &ScheduleGroupEditor) -> Option<Seq<char>> {
    let g = &e.group;
    if text::trimmed(g.name@).len() == 0 {
        Some("调度组名称不能为空"@)
    } else if g.mode == ScheduleMode::Fixed && fixed_upstream(g) is None && fixed_group(g) is None {
        match g.fixed_target_kind {
            ScheduleRouteTargetKind::Upstream => Some("固定模式需要选择上游"@),
            ScheduleRouteTargetKind::Group => Some("固定模式需要选择调度组"@),
        }
    } else if g.mode == ScheduleMode::ModelMapping {
        if e.route_rules@.len() == 0 {
            Some("模型映射模式至少需要一条路由规则"@)
        } else {
            rules_problem(e.route_rules@, 0)
        }
    } else if !g.use_all_upstreams && g.mode != ScheduleMode::Fixed && e.member_ids@.len() == 0
        && e.child_group_ids@.len() == 0 {
        Some("至少选择一个组内目标"@)
    } else {
        None
    }
}

/// Whether a group is another one, made ready to be saved.
pub open spec fn is_ready_group(after: &ScheduleGroup, before: &ScheduleGroup) -> bool {
    &&& *after == (ScheduleGroup {
        name: after.name,
        failure_threshold: models::larger(before.failure_threshold, 1),
        affinity_ttl_seconds: models::larger(before.affinity_ttl_seconds, 60),
        fixed_upstream_id: if fixed_group(before) is Some {
            None
        } else {
            before.fixed_upstream_id
        },
        fixed_group_id: if fixed_upstream(before) is Some {
            None
        } else {
            before.fixed_group_id
        },
        ..*before
    })
    &&& after.name@ == text::trimmed(before.name@)
}

/// Whether an editor is another one, made ready to be saved: a fixed target is
/// among the chosen ones.
pub open spec fn is_ready(after: &ScheduleGroupEditor, before: &ScheduleGroupEditor) -> bool {
    &&& after.wf()
    &&& is_ready_group(&after.group, &before.group)
    &&& forall|n: Seq<char>|
        #![trigger name_list::lists(after.member_ids@, n)]
        name_list::lists(after.member_ids@, n) <==> name_list::lists(before.member_ids@, n)
            || fixed_upstream(&before.group) == Some(n)
    &&& forall|n: Seq<char>|
        #![trigger name_list::lists(after.child_group_ids@, n)]
        name_list::lists(after.child_group_ids@, n) <==> name_list::lists(
            before.child_group_ids@,
            n,
        ) || fixed_group(&before.group) == Some(n)
    &&& if before.group.mode == ScheduleMode::ModelMapping {
        &&& after.route_rules@.len() == before.route_rules@.len()
        &&& forall|i: int|
            0 <= i < before.route_rules@.len() ==> is_ready_rule(
                &#[trigger] after.route_rules@[i],
                &before.route_rules@[i],
                before.group.id@,
            )
    } else {
        after.route_rules@ == before.route_rules@
    }
}

/// Whether an outcome is what becomes of an editor.
pub open spec fn is_outcome(
    r: Result<ScheduleGroupEditor, String>,
    editor: &ScheduleGroupEditor,
) -> bool {
    match (r, editor_problem(editor)) {
        (Ok(after), None) => is_ready(&after, editor),
        (Err(message), Some(problem)) => message@ == problem,
        _ => false,
    }
}

/// Makes a rule ready to be saved, or says what is wrong with it.
fn prepare_rule(rule: &ScheduleRouteRule, group_id: &str) -> (r: Result<ScheduleRouteRule, String>)
    ensures
        match (r, rule_problem(rule)) {
            (Ok(after), None) => is_ready_rule(&after, rule, group_id@),
            (Err(message), Some(problem)) => message@ == problem,
            _ => false,
        },
{
    let pattern: String = text::trim(rule.pattern.as_str());
    if text::is_empty(pattern.as_str()) {
        return Err("模型路由 pattern 不能为空".to_string());
    }
    let given: String = text::trim(rule.name.as_str());
    let name: String = if text::is_empty(given.as_str()) {
        pattern.clone()
    } else {
        given
    };
    let mut target_group_id: Option<String> = None;
    let mut target_upstream_id: Option<String> = None;
    match rule.target_kind {
        ScheduleRouteTargetKind::Group => {
            target_group_id = trim_opt(&rule.target_group_id);
            if target_group_id.is_none() {
                return Err("模型路由需要选择目标调度组".to_string());
            }
        },
        ScheduleRouteTargetKind::Upstream => {
            target_upstream_id = trim_opt(&rule.target_upstream_id);
            if target_upstream_id.is_none() {
                return Err("模型路由需要选择目标上游".to_string());
            }
        },
    }
    Ok(
        ScheduleRouteRule {
            id: rule.id.clone(),
            group_id: group_id.to_string(),
            name,
            pattern,
            enabled: rule.enabled,
            target_kind: rule.target_kind,
            target_group_id,
            target_upstream_id,
            target_model: trim_opt(&rule.target_model),
            priority: rule.priority,
        },
    )
}

/// Makes rules ready to be saved, or says what is wrong with the first that
/// has something wrong.
fn prepare_rules(rules: &Vec<ScheduleRouteRule>, group_id: &str) -> (r: Result<
    Vec<ScheduleRouteRule>,
    String,
>)
    ensures
        match (r, rules_problem(rules@, 0)) {
            (Ok(after), None) => {
                &&& after@.len() == rules@.len()
                &&& forall|i: int|
                    0 <= i < rules@.len() ==> is_ready_rule(
                        &#[trigger] after@[i],
                        &rules@[i],
                        group_id@,
                    )
            },
            (Err(message), Some(problem)) => message@ == problem,
            _ => false,
        },
{
    let mut out: Vec<ScheduleRouteRule> = Vec::new();
    let mut i: usize = 0;
    while i < rules.len()
        invariant
            i <= rules@.len(),
            out@.len() == i,
            rules_problem(rules@, 0) == rules_problem(rules@, i as int),
            forall|j: int|
                0 <= j < i ==> is_ready_rule(&#[trigger] out@[j], &rules@[j], group_id@),
        decreases rules@.len() - i,
    {
        match prepare_rule(&rules[i], group_id) {
            Ok(rule) => {
                out.push(rule);
            },
            Err(message) => {
                return Err(message);
            },
        }
        i = i + 1;
    }
    Ok(out)
}

/// Makes a group ready to be saved, or says what is wrong with it.
pub fn prepare_schedule_group_editor(editor: ScheduleGroupEditor) -> (r: Result<
    ScheduleGroupEditor,
    String,
>)
    requires
        editor.wf(),
    ensures
        is_outcome(r, &editor),
{
    let name: String = text::trim(editor.group.name.as_str());
    if text::is_empty(name.as_str()) {
        return Err("调度组名称不能为空".to_string());
    }
    let ghost before = editor;
    let mut group: ScheduleGroup = editor.group;
    let mut member_ids: Vec<String> = editor.member_ids;
    let mut child_group_ids: Vec<String> = editor.child_group_ids;
    let mode: ScheduleMode = group.mode;
    let mut fixed_target: bool = false;
    if mode == ScheduleMode::Fixed {
        match group.fixed_target_kind {
            ScheduleRouteTargetKind::Upstream => {
                match &group.fixed_upstream_id {
                    Some(id) => {
                        name_list::insert_name(&mut member_ids, id.as_str());
                    },
                    None => {
                        return Err("固定模式需要选择上游".to_string());
                    },
                }
                group.fixed_group_id = None;
            },
            ScheduleRouteTargetKind::Group => {
                match &group.fixed_group_id {
                    Some(id) => {
                        name_list::insert_name(&mut child_group_ids, id.as_str());
                    },
                    None => {
                        return Err("固定模式需要选择调度组".to_string());
                    },
                }
                group.fixed_upstream_id = None;
            },
        }
        fixed_target = true;
    }
    if mode != ScheduleMode::ModelMapping && !group.use_all_upstreams && !fixed_target
        && member_ids.len() == 0 && child_group_ids.len() == 0 {
        return Err("至少选择一个组内目标".to_string());
    }
    group.name = name;
    group.failure_threshold = models::max_of(group.failure_threshold, 1);
    group.affinity_ttl_seconds = models::max_of(group.affinity_ttl_seconds, 60);
    assert(is_ready_group(&group, &before.group));
    if mode != ScheduleMode::ModelMapping {
        return Ok(
            ScheduleGroupEditor {
                group,
                member_ids,
                child_group_ids,
                route_rules: editor.route_rules,
            },
        );
    }
    if editor.route_rules.len() == 0 {
        return Err("模型映射模式至少需要一条路由规则".to_string());
    }
    match prepare_rules(&editor.route_rules, group.id.as_str()) {
        Ok(route_rules) => Ok(
            ScheduleGroupEditor { group, member_ids, child_group_ids, route_rules },
        ),
        Err(message) => Err(message),
    }
}

/// A group that was made ready stays as it is.
pub proof fn law_ready_group_is_settled(after: ScheduleGroup, before: ScheduleGroup)
    requires
        is_ready_group(&after, &before),
    ensures
        is_ready_group(&after, &after),
{
    text::law_trim_is_settled(before.name@);
}

/// A fixed group always has its target among the chosen ones, and at least one
/// target is chosen whenever targets are chosen by hand.
pub proof fn law_ready_has_a_target(after: &ScheduleGroupEditor, before: &ScheduleGroupEditor)
    requires
        editor_problem(before) is None,
        is_ready(after, before),
    ensures
        fixed_upstream(&after.group) matches Some(id) ==> name_list::lists(after.member_ids@, id),
        fixed_group(&after.group) matches Some(id) ==> name_list::lists(
            after.child_group_ids@,
            id,
        ),
        after.group.mode == ScheduleMode::Fixed ==> fixed_upstream(&after.group) is Some
            || fixed_group(&after.group) is Some,
        after.group.mode != ScheduleMode::ModelMapping && !after.group.use_all_upstreams
            ==> after.member_ids@.len() > 0 || after.child_group_ids@.len() > 0,
{
    if fixed_upstream(&before.group) is Some {
        assert(name_list::lists(after.member_ids@, fixed_upstream(&before.group)->0));
    }
    if fixed_group(&before.group) is Some {
        assert(name_list::lists(after.child_group_ids@, fixed_group(&before.group)->0));
    }
    if before.member_ids@.len() > 0 {
        assert(name_list::lists(before.member_ids@, before.member_ids@[0]@));
        assert(name_list::lists(after.member_ids@, before.member_ids@[0]@));
    }
    if before.child_group_ids@.len() > 0 {
        assert(name_list::lists(before.child_group_ids@, before.child_group_ids@[0]@));
        assert(name_list::lists(after.child_group_ids@, before.child_group_ids@[0]@));
    }
}

/// Whether an editor is another one with an identifier and a time of its own,
/// and a name where it had none.
pub open spec fn is_identified(
    after: &ScheduleGroupEditor,
    before: &ScheduleGroupEditor,
    id: String,
    now: Timestamp,
) -> bool {
    &&& after.group == (ScheduleGroup {
        id,
        created_at: now,
        updated_at: now,
        name: after.group.name,
        ..before.group
    })
    &&& after.group.name@ == if text::trimmed(before.group.name@).len() == 0 {
        "New Group"@
    } else {
        before.group.name@
    }
    &&& after.member_ids == before.member_ids
    &&& after.child_group_ids == before.child_group_ids
    &&& after.route_rules == before.route_rules
}

/// Gives the editor of a new group an identifier and a time of its own, and a
/// name where it has none.
pub fn identify_new_group(editor: ScheduleGroupEditor, id: String, now: Timestamp) -> (r:
    ScheduleGroupEditor)
    ensures
        is_identified(&r, &editor, id, now),
{
    let mut editor: ScheduleGroupEditor = editor;
    editor.group.id = id;
    editor.group.created_at = now;
    editor.group.updated_at = now;
    if text::is_blank(editor.group.name.as_str()) {
        editor.group.name = "New Group".to_string();
    }
    editor
}

/// Makes the editor of a new group ready to be saved, with a fresh identifier
/// and the present time.
pub fn prepare_new_group(editor: ScheduleGroupEditor) -> (r: Result<ScheduleGroupEditor, String>)
    requires
        editor.wf(),
    ensures
        exists|identified: ScheduleGroupEditor, id: String, now: Timestamp|
            id@.len() == 36 && clock::is_now(now) && #[trigger] is_identified(&identified, &editor, id, now)
                && is_outcome(r, &identified),
{
    let now: Timestamp = clock::utc_now();
    let id: String = clock::new_uuid();
    let ghost given = id;
    let identified: ScheduleGroupEditor = identify_new_group(editor, id, now);
    let ghost whole = identified;
    let r: Result<ScheduleGroupEditor, String> = prepare_schedule_group_editor(identified);
    assert(is_identified(&whole, &editor, given, now));
    r
}

/// What is stored when a group is saved, besides the group and its rules.
#[derive(Debug)]
pub struct SchedulePlan {
    pub members: Vec<ScheduleGroupMember>,
    pub children: Vec<ScheduleGroupChild>,
    pub deleted_rule_ids: Vec<String>,
}

/// The groups without one of them.
pub open spec fn others(groups: Seq<ScheduleGroup>, id: Seq<char>) -> Seq<ScheduleGroup>
    decreases groups.len(),
{
    if groups.len() == 0 {
        groups
    } else if groups.last().id@ == id {
        others(groups.drop_last(), id)
    } else {
        others(groups.drop_last(), id).push(groups.last())
    }
}

/// Whether a rule of some identifier is among rules.
pub open spec fn has_rule(rules: Seq<ScheduleRouteRule>, id: Seq<char>) -> bool {
    exists|i: int| 0 <= i < rules.len() && (#[trigger] rules[i]).id@ == id
}

/// The identifiers of the rules that are no longer there.
pub open spec fn dropped(existing: Seq<ScheduleRouteRule>, rules: Seq<ScheduleRouteRule>) -> Seq<
    Seq<char>,
>
    decreases existing.len(),
{
    if existing.len() == 0 {
        Seq::empty()
    } else if has_rule(rules, existing.last().id@) {
        dropped(existing.drop_last(), rules)
    } else {
        dropped(existing.drop_last(), rules).push(existing.last().id@)
    }
}

/// Whether members are one for each upstream, the chosen ones enabled.
pub open spec fn are_members(
    members: Seq<ScheduleGroupMember>,
    editor: &ScheduleGroupEditor,
    upstreams: Seq<Upstream>,
    now: Timestamp,
) -> bool {
    &&& members.len() == upstreams.len()
    &&& forall|i: int|
        0 <= i < members.len() ==> {
            &&& (#[trigger] members[i]).group_id@ == editor.group.id@
            &&& members[i].upstream_id@ == upstreams[i].id@
            &&& members[i].enabled == name_list::lists(editor.member_ids@, upstreams[i].id@)
            &&& members[i].priority == 0
            &&& members[i].weight == 1
            &&& members[i].created_at == now
            &&& members[i].updated_at == now
        }
}

/// Whether children are one for each group, the chosen ones enabled.
pub open spec fn are_children(
    children: Seq<ScheduleGroupChild>,
    editor: &ScheduleGroupEditor,
    groups: Seq<ScheduleGroup>,
) -> bool {
    &&& children.len() == groups.len()
    &&& forall|i: int|
        0 <= i < children.len() ==> {
            &&& (#[trigger] children[i]).group_id@ == editor.group.id@
            &&& children[i].target_group_id@ == groups[i].id@
            &&& children[i].enabled == name_list::lists(editor.child_group_ids@, groups[i].id@)
        }
}

/// Whether a rule of some identifier is among rules.
fn contains_rule(rules: &Vec<ScheduleRouteRule>, id: &str) -> (r: bool)
    ensures
        r == has_rule(rules@, id@),
{
    let mut i: usize = 0;
    while i < rules.len()
        invariant
            i <= rules@.len(),
            forall|j: int| 0 <= j < i ==> (#[trigger] rules@[j]).id@ != id@,
        decreases rules@.len() - i,
    {
        if text::same(rules[i].id.as_str(), id) {
            assert(rules@[i as int].id@ == id@);
            return true;
        }
        i = i + 1;
    }
    false
}

/// The texts of strings.
pub open spec fn texts(s: Seq<String>) -> Seq<Seq<char>> {
    Seq::new(s.len(), |i: int| s[i]@)
}

/// What is stored when a group is saved: a member for each upstream and a child
/// for each other group, unless the group uses all upstreams, and the rules
/// that are to go.
pub fn plan_save(
    editor: &ScheduleGroupEditor,
    upstreams: &Vec<Upstream>,
    groups: &Vec<ScheduleGroup>,
    existing_rules: &Vec<ScheduleRouteRule>,
    now: Timestamp,
) -> (r: SchedulePlan)
    ensures
        if editor.group.use_all_upstreams {
            r.members@.len() == 0 && r.children@.len() == 0
        } else {
            &&& are_members(r.members@, editor, upstreams@, now)
            &&& are_children(r.children@, editor, others(groups@, editor.group.id@))
        },
        texts(r.deleted_rule_ids@) == dropped(existing_rules@, editor.route_rules@),
{
    let mut members: Vec<ScheduleGroupMember> = Vec::new();
    let mut children: Vec<ScheduleGroupChild> = Vec::new();
    if !editor.group.use_all_upstreams {
        let mut i: usize = 0;
        while i < upstreams.len()
            invariant
                i <= upstreams@.len(),
                are_members(members@, editor, upstreams@.take(i as int), now),
            decreases upstreams@.len() - i,
        {
            let ghost before = members@;
            let mut member: ScheduleGroupMember = ScheduleGroupMember::at(
                editor.group.id.clone(),
                upstreams[i].id.clone(),
                now,
            );
            member.enabled = name_list::is_listed(&editor.member_ids, upstreams[i].id.as_str());
            members.push(member);
            i = i + 1;
            proof {
                let prefix = upstreams@.take(i as int);
                assert forall|j: int| 0 <= j < members@.len() implies {
                    &&& (#[trigger] members@[j]).group_id@ == editor.group.id@
                    &&& members@[j].upstream_id@ == prefix[j].id@
                    &&& members@[j].enabled == name_list::lists(
                        editor.member_ids@,
                        prefix[j].id@,
                    )
                    &&& members@[j].priority == 0
                    &&& members@[j].weight == 1
                    &&& members@[j].created_at == now
                    &&& members@[j].updated_at == now
                } by {
                    if j < before.len() {
                        assert(members@[j] == before[j]);
                    }
                }
            }
        }
        assert(upstreams@.take(i as int) =~= upstreams@);
        let mut i: usize = 0;
        assert(groups@.take(0) =~= Seq::<ScheduleGroup>::empty());
        while i < groups.len()
            invariant
                i <= groups@.len(),
                are_children(
                    children@,
                    editor,
                    others(groups@.take(i as int), editor.group.id@),
                ),
            decreases groups@.len() - i,
        {
            let ghost before = children@;
            let ghost kept = others(groups@.take(i as int), editor.group.id@);
            proof {
                assert(groups@.take(i + 1).drop_last() =~= groups@.take(i as int));
                assert(groups@.take(i + 1).last() == groups@[i as int]);
            }
            if !text::same(groups[i].id.as_str(), editor.group.id.as_str()) {
                children.push(
                    ScheduleGroupChild {
                        group_id: editor.group.id.clone(),
                        target_group_id: groups[i].id.clone(),
                        enabled: name_list::is_listed(&editor.child_group_ids, groups[i].id.as_str()),
                    },
                );
                proof {
                    let now_kept = kept.push(groups@[i as int]);
                    assert forall|j: int| 0 <= j < children@.len() implies {
                        &&& (#[trigger] children@[j]).group_id@ == editor.group.id@
                        &&& children@[j].target_group_id@ == now_kept[j].id@
                        &&& children@[j].enabled == name_list::lists(
                            editor.child_group_ids@,
                            now_kept[j].id@,
                        )
                    } by {
                        if j < before.len() {
                            assert(children@[j] == before[j]);
                        }
                    }
                }
            }
            i = i + 1;
        }
        assert(groups@.take(i as int) =~= groups@);
    }
    let mut deleted: Vec<String> = Vec::new();
    let mut i: usize = 0;
    assert(existing_rules@.take(0) =~= Seq::<ScheduleRouteRule>::empty());
    assert(texts(deleted@) =~= Seq::<Seq<char>>::empty());
    while i < existing_rules.len()
        invariant
            i <= existing_rules@.len(),
            texts(deleted@) == dropped(existing_rules@.take(i as int), editor.route_rules@),
        decreases existing_rules@.len() - i,
    {
        let ghost before = deleted@;
        proof {
            assert(existing_rules@.take(i + 1).drop_last() =~= existing_rules@.take(i as int));
            assert(existing_rules@.take(i + 1).last() == existing_rules@[i as int]);
        }
        if !contains_rule(&editor.route_rules, existing_rules[i].id.as_str()) {
            deleted.push(existing_rules[i].id.clone());
            assert(texts(deleted@) =~= texts(before).push(existing_rules@[i as int].id@));
        }
        i = i + 1;
    }
    assert(existing_rules@.take(i as int) =~= existing_rules@);
    SchedulePlan { members, children, deleted_rule_ids: deleted }
}

/// What is stored when a group is saved now.
pub fn plan_save_now(
    editor: &ScheduleGroupEditor,
    upstreams: &Vec<Upstream>,
    groups: &Vec<ScheduleGroup>,
    existing_rules: &Vec<ScheduleRouteRule>,
) -> (r: SchedulePlan)
    ensures
        if editor.group.use_all_upstreams {
            r.members@.len() == 0 && r.children@.len() == 0
        } else {
            &&& exists|now: Timestamp|
                clock::is_now(now) && #[trigger] are_members(r.members@, editor, upstreams@, now)
            &&& are_children(r.children@, editor, others(groups@, editor.group.id@))
        },
        texts(r.deleted_rule_ids@) == dropped(existing_rules@, editor.route_rules@),
{
    plan_save(editor, upstreams, groups, existing_rules, clock::utc_now())
}

/// Puts a target among the chosen ones or takes it out.
pub fn choose_target(ids: &mut Vec<String>, id: &str, chosen: bool)
    requires
        name_list::in_order(old(ids)@),
    ensures
        name_list::in_order(final(ids)@),
        forall|n: Seq<char>|
            #![trigger name_list::lists(final(ids)@, n)]
            name_list::lists(final(ids)@, n) <==> if n == id@ {
                chosen
            } else {
                name_list::lists(old(ids)@, n)
            },
{
    if chosen {
        name_list::insert_name(ids, id);
    } else {
        name_list::remove_name(ids, id);
    }
}

/// The name of a mode.
pub open spec fn mode_name(mode: ScheduleMode) -> Seq<char> {
    match mode {
        ScheduleMode::Random => "随机"@,
        ScheduleMode::RoundRobin => "轮询"@,
        ScheduleMode::Failover => "失败切换"@,
        ScheduleMode::Fixed => "固定"@,
        ScheduleMode::ModelMapping => "模型映射"@,
    }
}

/// The name of a mode.
pub fn mode_label(mode: ScheduleMode) -> (r: &'static str)
    ensures
        r@ == mode_name(mode),
{
    match mode {
        ScheduleMode::Random => "随机",
        ScheduleMode::RoundRobin => "轮询",
        ScheduleMode::Failover => "失败切换",
        ScheduleMode::Fixed => "固定",
        ScheduleMode::ModelMapping => "模型映射",
    }
}

/// The name of a kind of target.
pub fn target_kind_label(kind: ScheduleRouteTargetKind) -> (r: &'static str)
    ensures
        r@ == match kind {
            ScheduleRouteTargetKind::Group => "调度组"@,
            ScheduleRouteTargetKind::Upstream => "上游"@,
        },
{
    match kind {
        ScheduleRouteTargetKind::Group => "调度组",
        ScheduleRouteTargetKind::Upstream => "上游",
    }
}

/// The name of the first upstream of some identifier, from a position on.
pub open spec fn upstream_name(upstreams: Seq<Upstream>, id: Seq<char>, from: int) -> Option<
    Seq<char>,
>
    decreases upstreams.len() - from,
{
    if 0 <= from < upstreams.len() {
        if upstreams[from].id@ == id {
            Some(upstreams[from].name@)
        } else {
            upstream_name(upstreams, id, from + 1)
        }
    } else {
        None
    }
}

/// The name of the first group of some identifier, from a position on.
pub open spec fn group_name(groups: Seq<ScheduleGroup>, id: Seq<char>, from: int) -> Option<
    Seq<char>,
>
    decreases groups.len() - from,
{
    if 0 <= from < groups.len() {
        if groups[from].id@ == id {
            Some(groups[from].name@)
        } else {
            group_name(groups, id, from + 1)
        }
    } else {
        None
    }
}

/// The name of an upstream.
pub fn find_upstream_name(upstreams: &Vec<Upstream>, id: &str) -> (r: Option<String>)
    ensures
        text::opt_view(r) == upstream_name(upstreams@, id@, 0),
{
    let mut i: usize = 0;
    while i < upstreams.len()
        invariant
            i <= upstreams@.len(),
            upstream_name(upstreams@, id@, 0) == upstream_name(upstreams@, id@, i as int),
        decreases upstreams@.len() - i,
    {
        if text::same(upstreams[i].id.as_str(), id) {
            return Some(upstreams[i].name.clone());
        }
        i = i + 1;
    }
    None
}

/// The name of a group.
pub fn find_group_name(groups: &Vec<ScheduleGroup>, id: &str) -> (r: Option<String>)
    ensures
        text::opt_view(r) == group_name(groups@, id@, 0),
{
    let mut i: usize = 0;
    while i < groups.len()
        invariant
            i <= groups@.len(),
            group_name(groups@, id@, 0) == group_name(groups@, id@, i as int),
        decreases groups@.len() - i,
    {
        if text::same(groups[i].id.as_str(), id) {
            return Some(groups[i].name.clone());
        }
        i = i + 1;
    }
    None
}

/// The name of a chosen upstream, as a menu shows it.
pub fn chosen_upstream_label(id: &Option<String>, upstreams: &Vec<Upstream>) -> (r: String)
    ensures
        r@ == match *id {
            Some(id) => match upstream_name(upstreams@, id@, 0) {
                Some(name) => name,
                None => "未选择"@,
            },
            None => "未选择"@,
        },
{
    if let Some(id) = id {
        if let Some(name) = find_upstream_name(upstreams, id.as_str()) {
            return name;
        }
    }
    "未选择".to_string()
}

/// The name of a chosen group, as a menu shows it.
pub fn chosen_group_label(id: &Option<String>, groups: &Vec<ScheduleGroup>) -> (r: String)
    ensures
        r@ == match *id {
            Some(id) => match group_name(groups@, id@, 0) {
                Some(name) => name,
                None => "未选择"@,
            },
            None => "未选择"@,
        },
{
    if let Some(id) = id {
        if let Some(name) = find_group_name(groups, id.as_str()) {
            return name;
        }
    }
    "未选择".to_string()
}

/// The mode of a group as the list shows it.
pub open spec fn mode_summary(group: &ScheduleGroup, upstreams: Seq<Upstream>) -> Seq<char> {
    if group.mode != ScheduleMode::Fixed {
        mode_name(group.mode)
    } else {
        match group.fixed_target_kind {
            ScheduleRouteTargetKind::Upstream => match group.fixed_upstream_id {
                Some(id) => match upstream_name(upstreams, id@, 0) {
                    Some(name) => "固定上游: "@ + name,
                    None => "固定上游: 不存在"@,
                },
                None => "固定上游: 未选择"@,
            },
            ScheduleRouteTargetKind::Group => "固定调度组"@,
        }
    }
}

/// A group as the list shows it.
pub fn schedule_group_summary(
    group: &ScheduleGroup,
    upstreams: &Vec<Upstream>,
    rule_count: usize,
) -> (r: String)
    ensures
        r@ == if group.mode == ScheduleMode::ModelMapping && rule_count > 0 {
            mode_summary(group, upstreams@) + ", 路由 "@ + number::nat_text(rule_count as nat)
                + " 条"@
        } else {
            mode_summary(group, upstreams@)
        },
{
    let mode: String = if group.mode != ScheduleMode::Fixed {
        mode_label(group.mode).to_string()
    } else {
        match group.fixed_target_kind {
            ScheduleRouteTargetKind::Upstream => match &group.fixed_upstream_id {
                Some(id) => match find_upstream_name(upstreams, id.as_str()) {
                    Some(name) => text::concat("固定上游: ", name.as_str()),
                    None => "固定上游: 不存在".to_string(),
                },
                None => "固定上游: 未选择".to_string(),
            },
            ScheduleRouteTargetKind::Group => "固定调度组".to_string(),
        }
    };
    if group.mode == ScheduleMode::ModelMapping && rule_count > 0 {
        text::concat4(
            mode.as_str(),
            ", 路由 ",
            number::usize_text(rule_count).as_str(),
            " 条",
        )
    } else {
        mode
    }
}

/// The line of a group in the list.
pub fn schedule_group_line(
    group: &ScheduleGroup,
    upstreams: &Vec<Upstream>,
    rule_count: usize,
) -> (r: String)
    ensures
        r@ == group.name@ + " ["@ + (if group.mode == ScheduleMode::ModelMapping && rule_count > 0 {
            mode_summary(group, upstreams@) + ", 路由 "@ + number::nat_text(rule_count as nat)
                + " 条"@
        } else {
            mode_summary(group, upstreams@)
        }) + "]"@,
{
    let summary: String = schedule_group_summary(group, upstreams, rule_count);
    text::concat4(group.name.as_str(), " [", summary.as_str(), "]")
}

/// Whether a group may be deleted: every one but the default.
pub fn is_deletable(group: &ScheduleGroup) -> (r: bool)
    ensures
        r == (group.id@ != "default"@),
{
    !text::same(group.id.as_str(), "default")
}

/// The most hops of a route: at least one.
pub fn route_max_hops(hops: i64) -> (r: i64)
    ensures
        r == models::larger(hops, 1),
{
    models::max_of(hops, 1)
}

/// The label of an upstream among the targets.
pub fn member_label(upstream: &Upstream) -> (r: String)
    ensures
        r@ == if upstream.enabled {
            upstream.name@
        } else {
            upstream.name@ + " (disabled)"@
        },
{
    if upstream.enabled {
        upstream.name.clone()
    } else {
        text::concat(upstream.name.as_str(), " (disabled)")
    }
}

/// A rule for a group that is yet to be filled in, with a given identifier.
pub fn blank_rule(id: String, group_id: String) -> (r: ScheduleRouteRule)
    ensures
        r.id == id,
        r.group_id == group_id,
        r.name@.len() == 0,
        r.pattern@.len() == 0,
        r.enabled,
        r.target_kind == ScheduleRouteTargetKind::Group,
        r.target_group_id is None,
        r.target_upstream_id is None,
        r.target_model is None,
        r.priority == 0,
{
    ScheduleRouteRule {
        id,
        group_id,
        name: String::new(),
        pattern: String::new(),
        enabled: true,
        target_kind: ScheduleRouteTargetKind::Group,
        target_group_id: None,
        target_upstream_id: None,
        target_model: None,
        priority: 0,
    }
}

/// A rule that matches every model, with a given identifier.
pub fn default_rule(id: String, group_id: String) -> (r: ScheduleRouteRule)
    ensures
        r.id == id,
        r.group_id == group_id,
        r.name@ == "Default"@,
        r.pattern@ == "*"@,
        r.enabled,
        r.target_kind == ScheduleRouteTargetKind::Group,
        r.target_group_id is None,
        r.target_upstream_id is None,
        r.target_model is None,
        r.priority == 0,
{
    let mut rule: ScheduleRouteRule = blank_rule(id, group_id);
    rule.name = "Default".to_string();
    rule.pattern = "*".to_string();
    rule
}

/// A rule is accepted exactly where it has a pattern and names a target of its
/// own kind; whatever stands for the other kind neither helps nor harms.
pub proof fn law_rule_needs_its_own_target(rule: &ScheduleRouteRule)
    ensures
        ({
            let pattern = text::trimmed(rule.pattern@).len() > 0;
            let upstream = rule.target_upstream_id is Some && text::trimmed(
                rule.target_upstream_id->0@,
            ).len() > 0;
            let group = rule.target_group_id is Some && text::trimmed(
                rule.target_group_id->0@,
            ).len() > 0;
            let problem = rule_problem(rule);
            &&& rule.target_kind == ScheduleRouteTargetKind::Upstream ==> (problem is None <==> pattern
                && upstream)
            &&& rule.target_kind == ScheduleRouteTargetKind::Group ==> (problem is None <==> pattern
                && group)
            &&& !pattern ==> problem == Some("模型路由 pattern 不能为空"@)
            &&& pattern && !upstream && rule.target_kind == ScheduleRouteTargetKind::Upstream
                ==> problem == Some("模型路由需要选择目标上游"@)
            &&& pattern && !group && rule.target_kind == ScheduleRouteTargetKind::Group
                ==> problem == Some("模型路由需要选择目标调度组"@)
        }),
{
}

/// Rules are accepted together exactly where each of them is, and otherwise
/// the first that is not is named.
pub proof fn law_rules_are_accepted_one_by_one(rules: Seq<ScheduleRouteRule>, from: int)
    requires
        0 <= from <= rules.len(),
    ensures
        rules_problem(rules, from) is None <==> forall|i: int|
            from <= i < rules.len() ==> rule_problem(&#[trigger] rules[i]) is None,
        rules_problem(rules, from) is Some ==> exists|i: int|
            from <= i < rules.len() && rules_problem(rules, from) == rule_problem(
                &#[trigger] rules[i],
            ) && forall|j: int| from <= j < i ==> rule_problem(&#[trigger] rules[j]) is None,
    decreases rules.len() - from,
{
    if from < rules.len() {
        law_rules_are_accepted_one_by_one(rules, from + 1);
        if rule_problem(&rules[from]) is Some {
            assert(rules_problem(rules, from) == rule_problem(&rules[from]));
        } else if rules_problem(rules, from + 1) is Some {
            let i = choose|i: int|
                from + 1 <= i < rules.len() && rules_problem(rules, from + 1) == rule_problem(
                    &#[trigger] rules[i],
                ) && forall|j: int| from + 1 <= j < i ==> rule_problem(&#[trigger] rules[j]) is None;
            assert(rules_problem(rules, from) == rule_problem(&rules[i]));
        }
    }
}

/// A group that maps models is accepted exactly where it has a name and rules,
/// and each rule a pattern and a target of its own kind; its members do not
/// matter.
pub proof fn law_mapping_group_needs_complete_rules(e: &ScheduleGroupEditor)
    requires
        e.group.mode == ScheduleMode::ModelMapping,
    ensures
        editor_problem(e) is None <==> text::trimmed(e.group.name@).len() > 0
            && e.route_rules@.len() > 0 && forall|i: int|
            0 <= i < e.route_rules@.len() ==> {
                let rule = #[trigger] e.route_rules@[i];
                &&& text::trimmed(rule.pattern@).len() > 0
                &&& rule.target_kind == ScheduleRouteTargetKind::Upstream
                    ==> rule.target_upstream_id is Some && text::trimmed(
                    rule.target_upstream_id->0@,
                ).len() > 0
                &&& rule.target_kind == ScheduleRouteTargetKind::Group ==> rule.target_group_id
                    is Some && text::trimmed(rule.target_group_id->0@).len() > 0
            },
{
    law_rules_are_accepted_one_by_one(e.route_rules@, 0);
    assert forall|i: int| 0 <= i < e.route_rules@.len() implies {
        let rule = #[trigger] e.route_rules@[i];
        rule_problem(&rule) is None <==> text::trimmed(rule.pattern@).len() > 0 && (rule.target_kind
            == ScheduleRouteTargetKind::Upstream ==> rule.target_upstream_id is Some
            && text::trimmed(rule.target_upstream_id->0@).len() > 0) && (rule.target_kind
            == ScheduleRouteTargetKind::Group ==> rule.target_group_id is Some && text::trimmed(
            rule.target_group_id->0@,
        ).len() > 0)
    } by {
        law_rule_needs_its_own_target(&e.route_rules@[i]);
    }
}

/// A fixed group is accepted exactly where it has a name and the target of its
/// own kind; any other exactly where it has a name and uses every upstream or
/// has one chosen. Each refusal names what is missing.
pub proof fn law_group_needs_a_name_and_a_target(e: &ScheduleGroupEditor)
    ensures
        ({
            let g = e.group;
            let named = text::trimmed(g.name@).len() > 0;
            let problem = editor_problem(e);
            let chosen = e.member_ids@.len() > 0 || e.child_group_ids@.len() > 0;
            &&& !named ==> problem == Some("调度组名称不能为空"@)
            &&& named && g.mode == ScheduleMode::Fixed && g.fixed_target_kind
                == ScheduleRouteTargetKind::Upstream ==> problem == (if g.fixed_upstream_id
                is Some {
                None
            } else {
                Some("固定模式需要选择上游"@)
            })
            &&& named && g.mode == ScheduleMode::Fixed && g.fixed_target_kind
                == ScheduleRouteTargetKind::Group ==> problem == (if g.fixed_group_id is Some {
                None
            } else {
                Some("固定模式需要选择调度组"@)
            })
            &&& named && g.mode == ScheduleMode::ModelMapping && e.route_rules@.len() == 0
                ==> problem == Some("模型映射模式至少需要一条路由规则"@)
            &&& named && (g.mode == ScheduleMode::Random || g.mode == ScheduleMode::RoundRobin
                || g.mode == ScheduleMode::Failover) ==> problem == (if g.use_all_upstreams
                || chosen {
                None
            } else {
                Some("至少选择一个组内目标"@)
            })
        }),
{
}

/// A rule that is saved keeps what it routes: its pattern, its target and the
/// model that it asks for are those of the form without the space around them,
/// and the target of the other kind is dropped. A rule without a name is named
/// by its pattern.
pub proof fn law_saved_rule_keeps_its_route(
    after: &ScheduleRouteRule,
    before: &ScheduleRouteRule,
    group_id: Seq<char>,
)
    requires
        is_ready_rule(after, before, group_id),
        rule_problem(before) is None,
    ensures
        after.group_id@ == group_id,
        after.id@ == before.id@ && after.enabled == before.enabled && after.priority
            == before.priority && after.target_kind == before.target_kind,
        after.pattern@ == text::trimmed(before.pattern@) && after.pattern@.len() > 0,
        after.name@.len() > 0,
        text::trimmed(before.name@).len() > 0 ==> after.name@ == text::trimmed(before.name@),
        text::trimmed(before.name@).len() == 0 ==> after.name@ == after.pattern@,
        before.target_kind == ScheduleRouteTargetKind::Upstream ==> after.target_upstream_id
            is Some && after.target_upstream_id->0@ == text::trimmed(before.target_upstream_id->0@)
            && after.target_group_id is None,
        before.target_kind == ScheduleRouteTargetKind::Group ==> after.target_group_id is Some
            && after.target_group_id->0@ == text::trimmed(before.target_group_id->0@)
            && after.target_upstream_id is None,
        after.target_model is Some <==> before.target_model is Some && text::trimmed(
            before.target_model->0@,
        ).len() > 0,
        after.target_model is Some ==> after.target_model->0@ == text::trimmed(
            before.target_model->0@,
        ),
        rule_problem(after) is None,
{
    law_rule_needs_its_own_target(before);
    law_rule_needs_its_own_target(after);
    text::law_trim_is_settled(before.pattern@);
    if before.target_upstream_id is Some {
        text::law_trim_is_settled(before.target_upstream_id->0@);
    }
    if before.target_group_id is Some {
        text::law_trim_is_settled(before.target_group_id->0@);
    }
}

/// A group that is saved keeps its mode and its choices: no member is lost, none
/// is added but a fixed target, the limits are at least one failure and a
/// minute, and nothing else changes.
pub proof fn law_saved_group_keeps_its_choices(
    after: &ScheduleGroupEditor,
    before: &ScheduleGroupEditor,
    id: Seq<char>,
)
    requires
        is_ready(after, before),
        editor_problem(before) is None,
    ensures
        after.group.id == before.group.id && after.group.mode == before.group.mode,
        after.group.name@ == text::trimmed(before.group.name@) && after.group.name@.len() > 0,
        after.group.use_all_upstreams == before.group.use_all_upstreams,
        after.group.fixed_target_kind == before.group.fixed_target_kind,
        after.group.failover_on_balance == before.group.failover_on_balance
            && after.group.failover_on_network == before.group.failover_on_network
            && after.group.failover_on_5xx == before.group.failover_on_5xx,
        after.group.failure_threshold >= 1 && after.group.failure_threshold
            >= before.group.failure_threshold,
        before.group.failure_threshold >= 1 ==> after.group.failure_threshold
            == before.group.failure_threshold,
        after.group.affinity_ttl_seconds >= 60 && after.group.affinity_ttl_seconds
            >= before.group.affinity_ttl_seconds,
        before.group.affinity_ttl_seconds >= 60 ==> after.group.affinity_ttl_seconds
            == before.group.affinity_ttl_seconds,
        name_list::lists(before.member_ids@, id) ==> name_list::lists(after.member_ids@, id),
        name_list::lists(before.child_group_ids@, id) ==> name_list::lists(
            after.child_group_ids@,
            id,
        ),
        before.group.mode != ScheduleMode::Fixed ==> (name_list::lists(after.member_ids@, id)
            <==> name_list::lists(before.member_ids@, id)),
        before.group.mode != ScheduleMode::Fixed ==> (name_list::lists(after.child_group_ids@, id)
            <==> name_list::lists(before.child_group_ids@, id)),
        before.group.mode == ScheduleMode::Fixed && before.group.fixed_target_kind
            == ScheduleRouteTargetKind::Upstream ==> after.group.fixed_upstream_id
            == before.group.fixed_upstream_id && after.group.fixed_group_id is None
            && name_list::lists(after.member_ids@, before.group.fixed_upstream_id->0@),
        before.group.mode == ScheduleMode::Fixed && before.group.fixed_target_kind
            == ScheduleRouteTargetKind::Group ==> after.group.fixed_group_id
            == before.group.fixed_group_id && after.group.fixed_upstream_id is None
            && name_list::lists(after.child_group_ids@, before.group.fixed_group_id->0@),
        after.route_rules@.len() == before.route_rules@.len(),
{
    law_group_needs_a_name_and_a_target(before);
    if before.group.mode == ScheduleMode::Fixed {
        if before.group.fixed_target_kind == ScheduleRouteTargetKind::Upstream {
            assert(name_list::lists(after.member_ids@, before.group.fixed_upstream_id->0@));
        } else {
            assert(name_list::lists(after.child_group_ids@, before.group.fixed_group_id->0@));
        }
    }
}

/// The rules that go when a group is saved are those that were there and are no
/// longer: a rule that stays is never deleted, and one that is gone always is.
pub proof fn law_only_missing_rules_are_deleted(
    existing: Seq<ScheduleRouteRule>,
    rules: Seq<ScheduleRouteRule>,
    id: Seq<char>,
)
    ensures
        dropped(existing, rules).contains(id) <==> (exists|i: int|
            0 <= i < existing.len() && (#[trigger] existing[i]).id@ == id) && !(exists|j: int|
            0 <= j < rules.len() && (#[trigger] rules[j]).id@ == id),
    decreases existing.len(),
{
    if existing.len() > 0 {
        let rest = existing.drop_last();
        law_only_missing_rules_are_deleted(rest, rules, id);
        let before = dropped(rest, rules);
        let after = dropped(existing, rules);
        if after.contains(id) {
            let k = choose|k: int| 0 <= k < after.len() && after[k] == id;
            if k < before.len() {
                assert(before[k] == id);
                let i = choose|i: int| 0 <= i < rest.len() && (#[trigger] rest[i]).id@ == id;
                assert(existing[i].id@ == id);
            } else {
                assert(existing[existing.len() - 1].id@ == id);
            }
        } else if exists|i: int| 0 <= i < existing.len() && (#[trigger] existing[i]).id@ == id {
            let i = choose|i: int| 0 <= i < existing.len() && (#[trigger] existing[i]).id@ == id;
            if i < rest.len() {
                assert(rest[i].id@ == id);
                if before.contains(id) {
                    let k = choose|k: int| 0 <= k < before.len() && before[k] == id;
                    assert(after[k] == id);
                }
            } else if !has_rule(rules, id) {
                assert(after[after.len() - 1] == id);
            }
        }
    }
}

/// A group is saved with a member for each upstream, and the chosen ones alone
/// take part; it never has itself as a target.
pub proof fn law_members_are_the_chosen_upstreams(
    members: Seq<ScheduleGroupMember>,
    editor: &ScheduleGroupEditor,
    upstreams: Seq<Upstream>,
    now: Timestamp,
    i: int,
)
    requires
        are_members(members, editor, upstreams, now),
        0 <= i < upstreams.len(),
    ensures
        members.len() == upstreams.len(),
        members[i].upstream_id@ == upstreams[i].id@,
        members[i].group_id@ == editor.group.id@,
        members[i].enabled <==> exists|k: int|
            0 <= k < editor.member_ids@.len() && (#[trigger] editor.member_ids@[k])@
                == upstreams[i].id@,
{
    assert(members[i].upstream_id@ == upstreams[i].id@);
}

/// The other groups are all groups but the one: each of them is there, and the
/// one is not.
pub proof fn law_others_are_all_but_one(groups: Seq<ScheduleGroup>, id: Seq<char>, g: ScheduleGroup)
    ensures
        others(groups, id).contains(g) <==> groups.contains(g) && g.id@ != id,
    decreases groups.len(),
{
    if groups.len() > 0 {
        let rest = groups.drop_last();
        law_others_are_all_but_one(rest, id, g);
        let before = others(rest, id);
        let after = others(groups, id);
        if after.contains(g) {
            let k = choose|k: int| 0 <= k < after.len() && after[k] == g;
            if k < before.len() {
                assert(before[k] == g);
                let i = choose|i: int| 0 <= i < rest.len() && rest[i] == g;
                assert(groups[i] == g);
            } else {
                assert(groups[groups.len() - 1] == g);
            }
        } else if groups.contains(g) && g.id@ != id {
            let i = choose|i: int| 0 <= i < groups.len() && groups[i] == g;
            if i < rest.len() {
                assert(rest[i] == g);
                let k = choose|k: int| 0 <= k < before.len() && before[k] == g;
                assert(after[k] == g);
            } else {
                assert(after[after.len() - 1] == g);
            }
        }
    }
}

/// A group is named by its mode; a group with a fixed upstream by that
/// upstream's name, and where it has none, or one that is gone, by that.
pub proof fn law_group_is_summed_up_by_its_mode(
    group: &ScheduleGroup,
    upstreams: Seq<Upstream>,
    k: int,
)
    requires
        0 <= k <= upstreams.len(),
        group.fixed_upstream_id matches Some(id) ==> forall|i: int|
            0 <= i < k ==> (#[trigger] upstreams[i]).id@ != id@,
    ensures
        group.mode != ScheduleMode::Fixed ==> mode_summary(group, upstreams) == mode_name(
            group.mode,
        ),
        group.mode == ScheduleMode::Fixed && group.fixed_target_kind
            == ScheduleRouteTargetKind::Upstream && group.fixed_upstream_id is None
            ==> mode_summary(group, upstreams) == "固定上游: 未选择"@,
        group.mode == ScheduleMode::Fixed && group.fixed_target_kind
            == ScheduleRouteTargetKind::Upstream && group.fixed_upstream_id is Some && k
            == upstreams.len() ==> mode_summary(group, upstreams) == "固定上游: 不存在"@,
        group.mode == ScheduleMode::Fixed && group.fixed_target_kind
            == ScheduleRouteTargetKind::Upstream && k < upstreams.len() ==> (
        group.fixed_upstream_id matches Some(id) ==> (upstreams[k].id@ == id@ ==> mode_summary(
            group,
            upstreams,
        ) == "固定上游: "@ + upstreams[k].name@)),
{
    if group.fixed_upstream_id is Some {
        let id = group.fixed_upstream_id->0@;
        if k == upstreams.len() {
            lemma_no_upstream_name(upstreams, id, 0);
        } else if upstreams[k].id@ == id {
            lemma_first_upstream_name(upstreams, id, 0, k);
        }
    }
}

/// The name of an upstream is that of the first with its identifier.
proof fn lemma_first_upstream_name(upstreams: Seq<Upstream>, id: Seq<char>, from: int, k: int)
    requires
        0 <= from <= k < upstreams.len(),
        upstreams[k].id@ == id,
        forall|i: int| from <= i < k ==> (#[trigger] upstreams[i]).id@ != id,
    ensures
        upstream_name(upstreams, id, from) == Some(upstreams[k].name@),
    decreases k - from,
{
    if from < k {
        assert(upstreams[from].id@ != id);
        lemma_first_upstream_name(upstreams, id, from + 1, k);
    }
}

/// Without an upstream of an identifier there is no name.
proof fn lemma_no_upstream_name(upstreams: Seq<Upstream>, id: Seq<char>, from: int)
    requires
        0 <= from <= upstreams.len(),
        forall|i: int| from <= i < upstreams.len() ==> (#[trigger] upstreams[i]).id@ != id,
    ensures
        upstream_name(upstreams, id, from) is None,
    decreases upstreams.len() - from,
{
    if from < upstreams.len() {
        assert(upstreams[from].id@ != id);
        lemma_no_upstream_name(upstreams, id, from + 1);
    }
}

/// No two modes have the same name.
pub proof fn law_modes_are_told_apart(a: ScheduleMode, b: ScheduleMode)
    ensures
        mode_name(a) == mode_name(b) ==> a == b,
{
    reveal_strlit("随机");
    reveal_strlit("轮询");
    reveal_strlit("失败切换");
    reveal_strlit("固定");
    reveal_strlit("模型映射");
    assert("随机"@[0] == '随');
    assert("轮询"@[0] == '轮');
    assert("失败切换"@[0] == '失');
    assert("固定"@[0] == '固');
    assert("模型映射"@[0] == '模');
}

/// A new group has a fresh identifier and the present time, and keeps all else
/// that was chosen; only a blank name is replaced.
pub proof fn law_new_group_keeps_what_was_chosen(
    after: &ScheduleGroupEditor,
    before: &ScheduleGroupEditor,
    id: String,
    now: Timestamp,
)
    requires
        is_identified(after, before, id, now),
    ensures
        after.group.id == id,
        after.group.created_at == now && after.group.updated_at == now,
        after.group.mode == before.group.mode,
        after.group.fixed_upstream_id == before.group.fixed_upstream_id,
        text::trimmed(before.group.name@).len() > 0 ==> after.group.name@ == before.group.name@,
        text::trimmed(before.group.name@).len() == 0 ==> after.group.name@ == "New Group"@,
        after.member_ids@ == before.member_ids@,
        after.child_group_ids@ == before.child_group_ids@,
        after.route_rules@ == before.route_rules@,
{
}

/// Of the groups exactly the chosen ones are switched on as children.
pub proof fn law_children_are_the_chosen_groups(
    children: Seq<ScheduleGroupChild>,
    editor: &ScheduleGroupEditor,
    groups: Seq<ScheduleGroup>,
    i: int,
)
    requires
        are_children(children, editor, groups),
        0 <= i < groups.len(),
    ensures
        children.len() == groups.len(),
        children[i].group_id@ == editor.group.id@,
        children[i].target_group_id@ == groups[i].id@,
        children[i].enabled <==> exists|k: int|
            0 <= k < editor.child_group_ids@.len() && (#[trigger] editor.child_group_ids@[k])@
                == groups[i].id@,
{
    assert(children[i].target_group_id@ == groups[i].id@);
}

} // verus!
