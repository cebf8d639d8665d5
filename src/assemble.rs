use vstd::prelude::*;

use crate::config::{Manifest, Member, Project, ProjectModel};
use crate::json::{Fork, Member as ApiMember};

verus! {

/// The username is one of those to leave out.
pub open spec fn is_excluded(exclude: Seq<String>, username: Seq<char>) -> bool {
    exists|i: int| 0 <= i < exclude.len() && exclude[i]@ == username
}

/// The members that stay once the excluded usernames are taken out, in their order.
pub open spec fn kept_members(
    members: Seq<(Seq<char>, Seq<char>)>,
    exclude: Seq<String>,
) -> Seq<(Seq<char>, Seq<char>)>
    decreases members.len(),
{
    if members.len() == 0 {
        Seq::empty()
    } else {
        let before = kept_members(members.drop_last(), exclude);
        if is_excluded(exclude, members.last().0) {
            before
        } else {
            before.push(members.last())
        }
    }
}

/// The members of a fork as the platform listed them.
pub open spec fn listed(members: Seq<ApiMember>) -> Seq<(Seq<char>, Seq<char>)> {
    members.map_values(|m: ApiMember| m@)
}

/// The project recorded for a fork, or `None` when no member is left.
pub open spec fn assembled(fork: Fork, members: Seq<ApiMember>, exclude: Seq<String>) -> Option<
    ProjectModel,
> {
    let kept = kept_members(listed(members), exclude);
    if kept.len() == 0 {
        None
    } else {
        Some(ProjectModel { id: fork.id as u32, members: kept, repository: fork.ssh_url_to_repo@ })
    }
}

/// The key under which a fork's project is recorded.
pub open spec fn key_of(fork: Fork) -> Seq<char> {
    fork.namespace.path@
}

/// The projects recorded for forks handed in order, each with its members: a
/// later project replaces an earlier one under the same key.
pub open spec fn projects_of(
    resolved: Seq<(Fork, Vec<ApiMember>)>,
    exclude: Seq<String>,
) -> Map<Seq<char>, ProjectModel>
    decreases resolved.len(),
{
    if resolved.len() == 0 {
        Map::empty()
    } else {
        let before = projects_of(resolved.drop_last(), exclude);
        let (fork, members) = resolved.last();
        match assembled(fork, members@, exclude) {
            Some(p) => before.insert(key_of(fork), p),
            None => before,
        }
    }
}

/// How many of the forks keep at least one member.
pub open spec fn count_kept(resolved: Seq<(Fork, Vec<ApiMember>)>, exclude: Seq<String>) -> nat
    decreases resolved.len(),
{
    if resolved.len() == 0 {
        0
    } else {
        count_kept(resolved.drop_last(), exclude) + if assembled(
            resolved.last().0,
            resolved.last().1@,
            exclude,
        ) is Some {
            1nat
        } else {
            0nat
        }
    }
}

/// A key holds a project exactly when some fork under that key kept a member.
proof fn lemma_projects_of_keys(resolved: Seq<(Fork, Vec<ApiMember>)>, exclude: Seq<String>)
    ensures
        projects_of(resolved, exclude).dom().finite(),
        forall|k: Seq<char>|
            projects_of(resolved, exclude).contains_key(k) <==> exists|i: int|
                0 <= i < resolved.len() && key_of(resolved[i].0) == k && assembled(
                    resolved[i].0,
                    resolved[i].1@,
                    exclude,
                ) is Some,
    decreases resolved.len(),
{
    if resolved.len() > 0 {
        let before = resolved.drop_last();
        let n = resolved.len() - 1;
        lemma_projects_of_keys(before, exclude);
        assert forall|k: Seq<char>| projects_of(resolved, exclude).contains_key(k) implies exists|
            i: int,
        |
            0 <= i < resolved.len() && key_of(resolved[i].0) == k && assembled(
                resolved[i].0,
                resolved[i].1@,
                exclude,
            ) is Some by {
            if projects_of(before, exclude).contains_key(k) {
                let i = choose|i: int|
                    0 <= i < before.len() && key_of(before[i].0) == k && assembled(
                        before[i].0,
                        before[i].1@,
                        exclude,
                    ) is Some;
                assert(resolved[i] == before[i]);
            } else {
                assert(resolved[n] == resolved.last());
            }
        }
        assert forall|k: Seq<char>|
            (exists|i: int|
                0 <= i < resolved.len() && key_of(resolved[i].0) == k && assembled(
                    resolved[i].0,
                    resolved[i].1@,
                    exclude,
                ) is Some) implies projects_of(resolved, exclude).contains_key(k) by {
            let i = choose|i: int|
                0 <= i < resolved.len() && key_of(resolved[i].0) == k && assembled(
                    resolved[i].0,
                    resolved[i].1@,
                    exclude,
                ) is Some;
            if i < n {
                assert(resolved[i] == before[i]);
            }
        }
    }
}

/// When no two forks share a namespace path, a fork gets a project exactly
/// when a member is left after the excluded usernames are taken out, and there
/// are as many projects as such forks.
pub proof fn lemma_exclusion_filter(resolved: Seq<(Fork, Vec<ApiMember>)>, exclude: Seq<String>)
    requires
        forall|i: int, j: int|
            0 <= i < j < resolved.len() ==> key_of(resolved[i].0) != key_of(resolved[j].0),
    ensures
        projects_of(resolved, exclude).dom().finite(),
        projects_of(resolved, exclude).dom().len() == count_kept(resolved, exclude),
        forall|i: int|
            0 <= i < resolved.len() ==> (projects_of(resolved, exclude).contains_key(
                key_of(#[trigger] resolved[i].0),
            ) <==> assembled(resolved[i].0, resolved[i].1@, exclude) is Some),
    decreases resolved.len(),
{
    lemma_projects_of_keys(resolved, exclude);
    if resolved.len() > 0 {
        let before = resolved.drop_last();
        let n = resolved.len() - 1;
        lemma_exclusion_filter(before, exclude);
        lemma_projects_of_keys(before, exclude);
        let last = resolved.last();
        assert(!projects_of(before, exclude).contains_key(key_of(last.0))) by {
            if projects_of(before, exclude).contains_key(key_of(last.0)) {
                let i = choose|i: int|
                    0 <= i < before.len() && key_of(before[i].0) == key_of(last.0) && assembled(
                        before[i].0,
                        before[i].1@,
                        exclude,
                    ) is Some;
                assert(resolved[i] == before[i]);
                assert(resolved[n] == last);
            }
        }
        assert forall|i: int| 0 <= i < resolved.len() implies (projects_of(
            resolved,
            exclude,
        ).contains_key(key_of(#[trigger] resolved[i].0)) <==> assembled(
            resolved[i].0,
            resolved[i].1@,
            exclude,
        ) is Some) by {
            if projects_of(resolved, exclude).contains_key(key_of(resolved[i].0)) {
                let j = choose|j: int|
                    0 <= j < resolved.len() && key_of(resolved[j].0) == key_of(resolved[i].0)
                        && assembled(resolved[j].0, resolved[j].1@, exclude) is Some;
                assert(i == j);
            }
        }
    }
}

/// When no two forks share a namespace path, a manifest that records their
/// projects holds one entry per fork that keeps a member.
pub proof fn lemma_manifest_counts_kept_forks(
    m: Manifest,
    resolved: Seq<(Fork, Vec<ApiMember>)>,
    exclude: Seq<String>,
)
    requires
        m.wf(),
        m.project_map() == projects_of(resolved, exclude),
        forall|i: int, j: int|
            0 <= i < j < resolved.len() ==> key_of(resolved[i].0) != key_of(resolved[j].0),
    ensures
        m.projects@.len() == count_kept(resolved, exclude),
{
    m.lemma_project_count();
    lemma_exclusion_filter(resolved, exclude);
}

/// Two forks under the same namespace path that both keep a member collapse
/// into one project: the one of the fork handled later.
pub proof fn lemma_later_fork_wins(
    first: (Fork, Vec<ApiMember>),
    second: (Fork, Vec<ApiMember>),
    exclude: Seq<String>,
)
    requires
        key_of(first.0) == key_of(second.0),
        assembled(first.0, first.1@, exclude) is Some,
        assembled(second.0, second.1@, exclude) is Some,
    ensures
        projects_of(seq![first, second], exclude).dom() == set![key_of(second.0)],
        projects_of(seq![first, second], exclude)[key_of(second.0)] == assembled(
            second.0,
            second.1@,
            exclude,
        )->Some_0,
{
    let rs = seq![first, second];
    assert(rs.drop_last() =~= seq![first]);
    assert(seq![first].drop_last() =~= Seq::<(Fork, Vec<ApiMember>)>::empty());
    assert(rs.last() == second);
    assert(seq![first].last() == first);
    assert(projects_of(Seq::<(Fork, Vec<ApiMember>)>::empty(), exclude) == Map::<
        Seq<char>,
        ProjectModel,
    >::empty());
    let one = projects_of(seq![first], exclude);
    assert(one == Map::<Seq<char>, ProjectModel>::empty().insert(
        key_of(first.0),
        assembled(first.0, first.1@, exclude)->Some_0,
    ));
    assert(projects_of(rs, exclude).dom() =~= set![key_of(second.0)]);
}

/// Whether a username is among those to leave out.
pub fn excludes(exclude: &Vec<String>, username: &String) -> (r: bool)
    ensures
        r == is_excluded(exclude@, username@),
{
    let n = exclude.len();
    let mut i: usize = 0;
    while i < n
        invariant
            n == exclude@.len(),
            0 <= i <= n,
            forall|j: int| 0 <= j < i ==> exclude@[j]@ != username@,
        decreases n - i,
    {
        if exclude[i] == *username {
            return true;
        }
        i = i + 1;
    }
    false
}

/// Reduces the listed members to username and name, leaving out the excluded
/// usernames and keeping the order.
pub fn filter_members(members: &Vec<ApiMember>, exclude: &Vec<String>) -> (r: Vec<Member>)
    ensures
        r@.map_values(|m: Member| m@) == kept_members(listed(members@), exclude@),
{
    let ghost ms = listed(members@);
    let mut r: Vec<Member> = Vec::new();
    let n = members.len();
    let mut i: usize = 0;
    while i < n
        invariant
            n == members@.len(),
            ms == listed(members@),
            0 <= i <= n,
            r@.map_values(|m: Member| m@) == kept_members(ms.take(i as int), exclude@),
        decreases n - i,
    {
        let ghost before = r@;
        assert(ms.take(i + 1).drop_last() =~= ms.take(i as int));
        assert(ms.take(i + 1).last() == ms[i as int]);
        let m = &members[i];
        if !excludes(exclude, &m.username) {
            r.push(Member { username: m.username.clone(), name: m.name.clone() });
            assert(r@.map_values(|m: Member| m@) =~= before.map_values(|m: Member| m@).push(
                ms[i as int],
            ));
        }
        i = i + 1;
    }
    assert(ms.take(n as int) =~= ms);
    r
}

/// The project for a fork with the members it lists, under its namespace path;
/// `None` when no member is left once the excluded usernames are taken out.
pub fn assemble(fork: &Fork, members: &Vec<ApiMember>, exclude: &Vec<String>) -> (r: Option<
    (String, Project),
>)
    ensures
        match assembled(*fork, members@, exclude@) {
            Some(p) => r is Some && r->Some_0.0@ == key_of(*fork) && r->Some_0.1@ == p,
            None => r is None,
        },
{
    let kept = filter_members(members, exclude);
    if kept.len() == 0 {
        assert(kept@.map_values(|m: Member| m@).len() == 0);
        None
    } else {
        Some(
            (
                fork.namespace.path.clone(),
                Project { id: fork.id as u32, members: kept, repository: fork.ssh_url_to_repo.clone() },
            ),
        )
    }
}

impl Manifest {
    /// Records the project of one fork, if it keeps a member: a project already
    /// under the same namespace path is replaced.
    pub fn add_fork(&mut self, fork: &Fork, members: &Vec<ApiMember>, exclude: &Vec<String>)
        requires
            old(self).wf(),
        ensures
            final(self).wf(),
            final(self).project_map() == match assembled(*fork, members@, exclude@) {
                Some(p) => old(self).project_map().insert(key_of(*fork), p),
                None => old(self).project_map(),
            },
            final(self).projects_directory == old(self).projects_directory,
            final(self).templates_directory == old(self).templates_directory,
            final(self).feedbacks_directory == old(self).feedbacks_directory,
    {
        match assemble(fork, members, exclude) {
            Some((key, project)) => self.insert_project(key, project),
            None => {},
        }
    }
}

/// The manifest for forks listed in order, each with the members it lists:
/// a fork keeps a project when a member is left after the excluded usernames
/// are taken out.
pub fn build_manifest(
    resolved: &Vec<(Fork, Vec<ApiMember>)>,
    exclude: &Vec<String>,
    projects_directory: String,
    templates_directory: String,
    feedbacks_directory: String,
) -> (r: Manifest)
    ensures
        r.wf(),
        r.project_map() == projects_of(resolved@, exclude@),
        r.projects_directory@ == projects_directory@,
        r.templates_directory@ == templates_directory@,
        r.feedbacks_directory@ == feedbacks_directory@,
{
    let mut m = Manifest::new(projects_directory, templates_directory, feedbacks_directory);
    let n = resolved.len();
    let mut i: usize = 0;
    while i < n
        invariant
            n == resolved@.len(),
            0 <= i <= n,
            m.wf(),
            m.project_map() == projects_of(resolved@.take(i as int), exclude@),
            m.projects_directory@ == projects_directory@,
            m.templates_directory@ == templates_directory@,
            m.feedbacks_directory@ == feedbacks_directory@,
        decreases n - i,
    {
        assert(resolved@.take(i + 1).drop_last() =~= resolved@.take(i as int));
        assert(resolved@.take(i + 1).last() == resolved@[i as int]);
        m.add_fork(&resolved[i].0, &resolved[i].1, exclude);
        i = i + 1;
    }
    assert(resolved@.take(n as int) =~= resolved@);
    m
}

} // verus!
