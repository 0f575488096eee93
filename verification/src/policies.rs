//! The policies of the dataset: eight templates, used in turn.
use vstd::prelude::*;
use vstd::string::*;

use crate::names::{clearance_spec, clearance_str, dept_name, dept_name_spec, team_name, team_name_spec};
use crate::params::DatasetParams;
use crate::text::{dec, lemma_dec_injective, lemma_strip_prefix, push_decimal};

verus! {

/// Text of the owner-access template.
pub const OWNER_ACCESS: &'static str = "permit(principal, action, resource is Document) when { resource.owner == principal.employee_id };";

/// Head of the department-read template, up to the first department name.
pub const DEPT_READ_HEAD: &'static str = "permit(principal is User, action == Action::\"read\", resource is Document) when { principal.department == \"";

/// Head of the department-update template, up to the first department name.
pub const DEPT_UPDATE_HEAD: &'static str = "permit(principal is User, action == Action::\"update\", resource is Document) when { principal.department == \"";

/// Head of the team-read template, up to the team name.
pub const TEAM_READ_HEAD: &'static str = "permit(principal is User, action == Action::\"read\", resource is Document) when { principal.team == \"";

/// Head of the clearance-read template, up to the clearance name.
pub const CLEARANCE_READ_HEAD: &'static str = "permit(principal is User, action == Action::\"read\", resource is Document) when { principal.clearance == \"";

/// Head of the manager-admin template, up to the first department name.
pub const MANAGER_ADMIN_HEAD: &'static str = "permit(principal is User, action == Action::\"admin\", resource is Document) when { principal.is_manager == true && principal.department == \"";

/// Head of the internal-read template, up to the department name.
pub const INTERNAL_READ_HEAD: &'static str = "permit(principal is User, action == Action::\"read\", resource is Document) when { principal.clearance == \"internal\" && resource.clearance == \"internal\" && resource.department == \"";

/// Text of the public-read template.
pub const PUBLIC_READ: &'static str = "permit(principal, action == Action::\"read\", resource is Document) when { resource.clearance == \"public\" };";

/// Between a principal's value and the resource's department.
pub const AND_RESOURCE_DEPARTMENT: &'static str = "\" && resource.department == \"";

/// Between the department and the public-clearance condition.
pub const AND_RESOURCE_PUBLIC: &'static str = "\" && resource.clearance == \"public\" };";

/// End of a template after its last value.
pub const TAIL: &'static str = "\" };";

/// The identifier prefix of template `t`.
pub open spec fn template_prefix(t: nat) -> Seq<char> {
    if t == 0 {
        "owner-access-"@
    } else if t == 1 {
        "dept-read-"@
    } else if t == 2 {
        "dept-update-"@
    } else if t == 3 {
        "team-read-"@
    } else if t == 4 {
        "clearance-read-"@
    } else if t == 5 {
        "manager-admin-"@
    } else if t == 6 {
        "internal-read-"@
    } else {
        "public-read-"@
    }
}

/// The identifier of policy `i`: its template's prefix and `i`.
pub open spec fn policy_id_spec(i: nat) -> Seq<char> {
    template_prefix(i % 8) + dec(i)
}

/// The text of policy `i`, for `departments` departments of `teams` teams: template
/// `i % 8`, about department `i % departments`.
pub open spec fn policy_content_spec(i: nat, departments: nat, teams: nat) -> Seq<char> {
    let d = dept_name_spec(i % departments);
    let t = i % 8;
    if t == 0 {
        OWNER_ACCESS@
    } else if t == 1 {
        DEPT_READ_HEAD@ + d + AND_RESOURCE_DEPARTMENT@ + d + TAIL@
    } else if t == 2 {
        DEPT_UPDATE_HEAD@ + d + AND_RESOURCE_DEPARTMENT@ + d + AND_RESOURCE_PUBLIC@
    } else if t == 3 {
        TEAM_READ_HEAD@ + team_name_spec(i % departments, i % teams) + AND_RESOURCE_DEPARTMENT@ + d
            + TAIL@
    } else if t == 4 {
        CLEARANCE_READ_HEAD@ + clearance_spec(i % 4) + AND_RESOURCE_PUBLIC@
    } else if t == 5 {
        MANAGER_ADMIN_HEAD@ + d + AND_RESOURCE_DEPARTMENT@ + d + TAIL@
    } else if t == 6 {
        INTERNAL_READ_HEAD@ + d + TAIL@
    } else {
        PUBLIC_READ@
    }
}

/// A policy as written to the policies file: its identifier and its Cedar text.
pub struct PolicyEntry {
    pub id: String,
    pub content: String,
}

/// The identifier prefix of template `t`.
fn template_prefix_str(t: usize) -> (prefix: &'static str)
    requires
        t < 8,
    ensures
        prefix@ == template_prefix(t as nat),
{
    match t {
        0 => "owner-access-",
        1 => "dept-read-",
        2 => "dept-update-",
        3 => "team-read-",
        4 => "clearance-read-",
        5 => "manager-admin-",
        6 => "internal-read-",
        _ => "public-read-",
    }
}

/// Policy `i` for `departments` departments of `teams` teams.
pub fn build_policy(i: usize, departments: usize, teams: usize) -> (entry: PolicyEntry)
    requires
        departments > 0,
        i % 8 == 3 ==> teams > 0,
    ensures
        entry.id@ == policy_id_spec(i as nat),
        entry.content@ == policy_content_spec(i as nat, departments as nat, teams as nat),
{
    let dept = i % departments;
    let t = i % 8;
    let mut id = String::from_str(template_prefix_str(t));
    push_decimal(&mut id, i);
    let mut content = String::new();
    if t == 0 {
        content.append(OWNER_ACCESS);
    } else if t == 1 {
        content.append(DEPT_READ_HEAD);
        content.append(dept_name(dept));
        content.append(AND_RESOURCE_DEPARTMENT);
        content.append(dept_name(dept));
        content.append(TAIL);
    } else if t == 2 {
        content.append(DEPT_UPDATE_HEAD);
        content.append(dept_name(dept));
        content.append(AND_RESOURCE_DEPARTMENT);
        content.append(dept_name(dept));
        content.append(AND_RESOURCE_PUBLIC);
    } else if t == 3 {
        content.append(TEAM_READ_HEAD);
        let team = team_name(dept, i % teams);
        content.append(team.as_str());
        content.append(AND_RESOURCE_DEPARTMENT);
        content.append(dept_name(dept));
        content.append(TAIL);
    } else if t == 4 {
        content.append(CLEARANCE_READ_HEAD);
        content.append(clearance_str(i % 4));
        content.append(AND_RESOURCE_PUBLIC);
    } else if t == 5 {
        content.append(MANAGER_ADMIN_HEAD);
        content.append(dept_name(dept));
        content.append(AND_RESOURCE_DEPARTMENT);
        content.append(dept_name(dept));
        content.append(TAIL);
    } else if t == 6 {
        content.append(INTERNAL_READ_HEAD);
        content.append(dept_name(dept));
        content.append(TAIL);
    } else {
        content.append(PUBLIC_READ);
    }
    assert(content@ =~= policy_content_spec(i as nat, departments as nat, teams as nat));
    PolicyEntry { id, content }
}

/// `entries` are the policies generated for `p`.
pub open spec fn policies_match(entries: Seq<PolicyEntry>, p: DatasetParams) -> bool {
    &&& entries.len() == p.policies
    &&& forall|i: int|
        0 <= i < p.policies ==> {
            &&& (#[trigger] entries[i]).id@ == policy_id_spec(i as nat)
            &&& entries[i].content@ == policy_content_spec(
                i as nat,
                p.departments as nat,
                p.teams as nat,
            )
        }
}

/// Generates `p.policies` policies, policy `i` from template `i % 8`.
pub fn build_policies(p: &DatasetParams) -> (entries: Vec<PolicyEntry>)
    requires
        p.policies_fit(),
    ensures
        policies_match(entries@, *p),
{
    let mut entries: Vec<PolicyEntry> = Vec::new();
    for i in 0..p.policies
        invariant
            p.policies_fit(),
            entries@.len() == i,
            forall|j: int|
                0 <= j < i ==> {
                    &&& (#[trigger] entries@[j]).id@ == policy_id_spec(j as nat)
                    &&& entries@[j].content@ == policy_content_spec(
                        j as nat,
                        p.departments as nat,
                        p.teams as nat,
                    )
                },
    {
        assert(i % 8 == 3 ==> i >= 3);
        entries.push(build_policy(i, p.departments, p.teams));
    }
    entries
}

proof fn lemma_prefix_heads(t: nat)
    requires
        t < 8,
    ensures
        template_prefix(t).len() > 5,
        template_prefix(t)[0] == (if t == 0 { 'o' } else if t == 1 || t == 2 { 'd' } else if t == 3 {
            't'
        } else if t == 4 { 'c' } else if t == 5 { 'm' } else if t == 6 { 'i' } else { 'p' }),
        t == 1 ==> template_prefix(t)[5] == 'r',
        t == 2 ==> template_prefix(t)[5] == 'u',
{
    reveal_strlit("owner-access-");
    reveal_strlit("dept-read-");
    reveal_strlit("dept-update-");
    reveal_strlit("team-read-");
    reveal_strlit("clearance-read-");
    reveal_strlit("manager-admin-");
    reveal_strlit("internal-read-");
    reveal_strlit("public-read-");
}

proof fn lemma_policy_ids_distinct(i: nat, j: nat)
    requires
        i != j,
    ensures
        policy_id_spec(i) != policy_id_spec(j),
{
    let a = policy_id_spec(i);
    let b = policy_id_spec(j);
    if i % 8 == j % 8 {
        if a == b {
            lemma_strip_prefix(template_prefix(i % 8), dec(i), dec(j));
            lemma_dec_injective(i, j);
        }
    } else {
        lemma_prefix_heads(i % 8);
        lemma_prefix_heads(j % 8);
        assert(a[0] != b[0] || a[5] != b[5]);
    }
}

/// No two generated policies share an identifier, so the policies form a valid policy set.
pub proof fn lemma_policy_ids_unique(entries: Seq<PolicyEntry>, p: DatasetParams)
    requires
        policies_match(entries, p),
    ensures
        forall|a: int, b: int|
            0 <= a < b < entries.len() ==> (#[trigger] entries[a]).id@ != (#[trigger] entries[b]).id@,
{
    assert forall|a: int, b: int| 0 <= a < b < entries.len() implies (#[trigger] entries[a]).id@
        != (#[trigger] entries[b]).id@ by {
        lemma_policy_ids_distinct(a as nat, b as nat);
    }
}

/// The templates are used in turn, so with eight policies or more every template is
/// present: policy `t` is written from template `t`, for each of the eight templates.
pub proof fn lemma_all_templates_present(entries: Seq<PolicyEntry>, p: DatasetParams)
    requires
        policies_match(entries, p),
        p.policies >= 8,
    ensures
        forall|t: nat|
            t < 8 ==> (#[trigger] entries[t as int]).id@ == template_prefix(t) + dec(t)
                && entries[t as int].content@ == policy_content_spec(t, p.departments as nat, p.teams as nat),
{
    assert forall|t: nat| t < 8 implies (#[trigger] entries[t as int]).id@ == template_prefix(t) + dec(t)
        && entries[t as int].content@ == policy_content_spec(t, p.departments as nat, p.teams as nat) by {
        assert(t % 8 == t);
    }
}

/// `x` occurs in `s`.
pub open spec fn mentions(s: Seq<char>, x: Seq<char>) -> bool {
    exists|a: Seq<char>, b: Seq<char>| s == a + x + b
}

/// The condition that the principal belongs to department `d`.
pub open spec fn principal_department_clause(d: Seq<char>) -> Seq<char> {
    "principal.department == \""@ + d + "\""@
}

/// The condition that the resource belongs to department `d`.
pub open spec fn resource_department_clause(d: Seq<char>) -> Seq<char> {
    "resource.department == \""@ + d + "\""@
}

/// The condition that the principal belongs to team `team`.
pub open spec fn principal_team_clause(team: Seq<char>) -> Seq<char> {
    "principal.team == \""@ + team + "\""@
}

proof fn lemma_mentions(s: Seq<char>, a: Seq<char>, x: Seq<char>, b: Seq<char>)
    requires
        s =~= a + x + b,
    ensures
        mentions(s, x),
{
    assert(s == a + x + b);
}

proof fn lemma_and_resource_department()
    ensures
        AND_RESOURCE_DEPARTMENT@ =~= "\""@ + " && "@ + "resource.department == \""@,
{
    reveal_strlit("\" && resource.department == \"");
    reveal_strlit("\"");
    reveal_strlit(" && ");
    reveal_strlit("resource.department == \"");
}

proof fn lemma_tail()
    ensures
        TAIL@ =~= "\""@ + " };"@,
        TAIL@.len() >= 1,
        TAIL@[0] == '"',
{
    reveal_strlit("\" };");
    reveal_strlit("\"");
    reveal_strlit(" };");
}

proof fn lemma_and_resource_public()
    ensures
        AND_RESOURCE_PUBLIC@ =~= "\""@ + AND_RESOURCE_PUBLIC@.subrange(1, AND_RESOURCE_PUBLIC@.len() as int),
        AND_RESOURCE_PUBLIC@.len() >= 1,
        AND_RESOURCE_PUBLIC@[0] == '"',
{
    reveal_strlit("\" && resource.clearance == \"public\" };");
    reveal_strlit("\"");
}

/// A template that compares the principal's and the resource's department with `d`, the
/// head ending with `principal.department == "`.
proof fn lemma_two_department_mentions(head: Seq<char>, d: Seq<char>, tail: Seq<char>)
    requires
        head.len() >= 25,
        head.subrange(head.len() - 25, head.len() as int) == "principal.department == \""@,
        tail.len() >= 1,
        tail[0] == '"',
    ensures
        mentions(head + d + AND_RESOURCE_DEPARTMENT@ + d + tail, principal_department_clause(d)),
        mentions(head + d + AND_RESOURCE_DEPARTMENT@ + d + tail, resource_department_clause(d)),
{
    lemma_and_resource_department();
    let c = head + d + AND_RESOURCE_DEPARTMENT@ + d + tail;
    let h = head.subrange(0, head.len() - 25);
    let q = "\""@;
    let and = " && "@;
    let r_head = "resource.department == \""@;
    reveal_strlit("\"");
    assert(head =~= h + "principal.department == \""@);
    assert(tail =~= q + tail.subrange(1, tail.len() as int));
    lemma_mentions(c, h, principal_department_clause(d), and + r_head + d + tail);
    lemma_mentions(c, head + d + q + and, resource_department_clause(d), tail.subrange(1, tail.len() as int));
}

proof fn lemma_dept_read_suffix()
    ensures
        DEPT_READ_HEAD@.len() >= 25,
        DEPT_READ_HEAD@.subrange(DEPT_READ_HEAD@.len() - 25, DEPT_READ_HEAD@.len() as int)
            == "principal.department == \""@,
{
    reveal_strlit("permit(principal is User, action == Action::\"read\", resource is Document) when { principal.department == \"");
    reveal_strlit("principal.department == \"");
    assert(DEPT_READ_HEAD@.subrange(DEPT_READ_HEAD@.len() - 25, DEPT_READ_HEAD@.len() as int)
        =~= "principal.department == \""@);
}

proof fn lemma_dept_update_suffix()
    ensures
        DEPT_UPDATE_HEAD@.len() >= 25,
        DEPT_UPDATE_HEAD@.subrange(DEPT_UPDATE_HEAD@.len() - 25, DEPT_UPDATE_HEAD@.len() as int)
            == "principal.department == \""@,
{
    reveal_strlit("permit(principal is User, action == Action::\"update\", resource is Document) when { principal.department == \"");
    reveal_strlit("principal.department == \"");
    assert(DEPT_UPDATE_HEAD@.subrange(DEPT_UPDATE_HEAD@.len() - 25, DEPT_UPDATE_HEAD@.len() as int)
        =~= "principal.department == \""@);
}

proof fn lemma_manager_admin_suffix()
    ensures
        MANAGER_ADMIN_HEAD@.len() >= 25,
        MANAGER_ADMIN_HEAD@.subrange(MANAGER_ADMIN_HEAD@.len() - 25, MANAGER_ADMIN_HEAD@.len() as int)
            == "principal.department == \""@,
{
    reveal_strlit("permit(principal is User, action == Action::\"admin\", resource is Document) when { principal.is_manager == true && principal.department == \"");
    reveal_strlit("principal.department == \"");
    assert(MANAGER_ADMIN_HEAD@.subrange(MANAGER_ADMIN_HEAD@.len() - 25, MANAGER_ADMIN_HEAD@.len() as int)
        =~= "principal.department == \""@);
}

proof fn lemma_team_read_mentions(team: Seq<char>, d: Seq<char>)
    ensures
        mentions(TEAM_READ_HEAD@ + team + AND_RESOURCE_DEPARTMENT@ + d + TAIL@, principal_team_clause(team)),
        mentions(TEAM_READ_HEAD@ + team + AND_RESOURCE_DEPARTMENT@ + d + TAIL@, resource_department_clause(d)),
{
    reveal_strlit("permit(principal is User, action == Action::\"read\", resource is Document) when { principal.team == \"");
    reveal_strlit("principal.team == \"");
    lemma_and_resource_department();
    lemma_tail();
    let head = TEAM_READ_HEAD@;
    let h = head.subrange(0, head.len() - 19);
    assert(head =~= h + "principal.team == \""@);
    let c = head + team + AND_RESOURCE_DEPARTMENT@ + d + TAIL@;
    let q = "\""@;
    let and = " && "@;
    let r_head = "resource.department == \""@;
    lemma_mentions(c, h, principal_team_clause(team), and + r_head + d + TAIL@);
    lemma_mentions(c, head + team + q + and, resource_department_clause(d), " };"@);
}

proof fn lemma_internal_read_mentions(d: Seq<char>)
    ensures
        mentions(INTERNAL_READ_HEAD@ + d + TAIL@, resource_department_clause(d)),
{
    reveal_strlit("permit(principal is User, action == Action::\"read\", resource is Document) when { principal.clearance == \"internal\" && resource.clearance == \"internal\" && resource.department == \"");
    reveal_strlit("resource.department == \"");
    lemma_tail();
    let head = INTERNAL_READ_HEAD@;
    let h = head.subrange(0, head.len() - 24);
    assert(head =~= h + "resource.department == \""@);
    lemma_mentions(head + d + TAIL@, h, resource_department_clause(d), " };"@);
}

proof fn lemma_policy_names(i: nat, departments: nat, teams: nat)
    requires
        departments > 0,
        i % 8 == 3 ==> teams > 0,
    ensures
        ({
            let c = policy_content_spec(i, departments, teams);
            let d = dept_name_spec(i % departments);
            let t = i % 8;
            &&& (t == 1 || t == 2 || t == 3 || t == 5 || t == 6) ==> mentions(c, resource_department_clause(d))
            &&& (t == 1 || t == 2 || t == 5) ==> mentions(c, principal_department_clause(d))
            &&& t == 3 ==> mentions(c, principal_team_clause(team_name_spec(i % departments, i % teams)))
        }),
{
    let d = dept_name_spec(i % departments);
    let t = i % 8;
    if t == 1 {
        lemma_dept_read_suffix();
        lemma_tail();
        lemma_two_department_mentions(DEPT_READ_HEAD@, d, TAIL@);
    } else if t == 2 {
        lemma_dept_update_suffix();
        lemma_and_resource_public();
        lemma_two_department_mentions(DEPT_UPDATE_HEAD@, d, AND_RESOURCE_PUBLIC@);
    } else if t == 3 {
        lemma_team_read_mentions(team_name_spec(i % departments, i % teams), d);
    } else if t == 5 {
        lemma_manager_admin_suffix();
        lemma_tail();
        lemma_two_department_mentions(MANAGER_ADMIN_HEAD@, d, TAIL@);
    } else if t == 6 {
        lemma_internal_read_mentions(d);
    }
}

/// Every department a generated policy names is a department of the dataset, and every team
/// one of its teams: policy `i` speaks of department `i mod departments` (as the resource's
/// department, and for the department-read, department-update and manager-admin templates
/// also as the principal's), and a team-read policy of team `i mod teams` of that department.
pub proof fn lemma_policies_name_dataset_departments(entries: Seq<PolicyEntry>, p: DatasetParams)
    requires
        p.policies_fit(),
        policies_match(entries, p),
    ensures
        forall|i: int|
            0 <= i < entries.len() ==> {
                let c = (#[trigger] entries[i]).content@;
                let d = i % (p.departments as int);
                let t = i % 8;
                &&& 0 <= d < p.departments
                &&& (t == 1 || t == 2 || t == 3 || t == 5 || t == 6) ==> mentions(
                    c,
                    resource_department_clause(dept_name_spec(d as nat)),
                )
                &&& (t == 1 || t == 2 || t == 5) ==> mentions(c, principal_department_clause(dept_name_spec(d as nat)))
                &&& t == 3 ==> i % (p.teams as int) < p.teams && mentions(
                    c,
                    principal_team_clause(team_name_spec(d as nat, (i % (p.teams as int)) as nat)),
                )
            },
{
    assert forall|i: int| 0 <= i < entries.len() implies {
        let c = (#[trigger] entries[i]).content@;
        let d = i % (p.departments as int);
        let t = i % 8;
        &&& 0 <= d < p.departments
        &&& (t == 1 || t == 2 || t == 3 || t == 5 || t == 6) ==> mentions(
            c,
            resource_department_clause(dept_name_spec(d as nat)),
        )
        &&& (t == 1 || t == 2 || t == 5) ==> mentions(c, principal_department_clause(dept_name_spec(d as nat)))
        &&& t == 3 ==> i % (p.teams as int) < p.teams && mentions(
            c,
            principal_team_clause(team_name_spec(d as nat, (i % (p.teams as int)) as nat)),
        )
    } by {
        assert(i % 8 == 3 ==> i >= 3);
        lemma_policy_names(i as nat, p.departments as nat, p.teams as nat);
    }
}

} // verus!


