use vstd::prelude::*;

verus! {

/// A person with access to a project, reduced to the two attributes that are kept.
pub struct Member {
    pub username: String,
    pub name: String,
}

impl View for Member {
    type V = (Seq<char>, Seq<char>);

    open spec fn view(&self) -> (Seq<char>, Seq<char>) {
        (self.username@, self.name@)
    }
}

/// A recorded project: its id, its members in the order the platform gave them,
/// and the URL it is cloned from.
pub struct Project {
    pub id: u32,
    pub members: Vec<Member>,
    pub repository: String,
}

/// What a project holds, as mathematical values.
pub struct ProjectModel {
    pub id: u32,
    pub members: Seq<(Seq<char>, Seq<char>)>,
    pub repository: Seq<char>,
}

impl View for Project {
    type V = ProjectModel;

    open spec fn view(&self) -> ProjectModel {
        ProjectModel {
            id: self.id,
            members: self.members@.map_values(|m: Member| m@),
            repository: self.repository@,
        }
    }
}

/// A defect found in a stored manifest.
#[derive(Clone, Copy, Debug, PartialEq, Eq, Structural)]
pub enum Error {
    /// The project with this id has no members.
    MissingUsername { project_id: u32 },
    /// The project with this id has an empty repository URL.
    MissingSsh { project_id: u32 },
}

/// The persisted roster: projects keyed by namespace path, and the three
/// directories that the other commands work in.
pub struct Manifest {
    pub projects: Vec<(String, Project)>,
    pub projects_directory: String,
    pub templates_directory: String,
    pub feedbacks_directory: String,
}

/// No key occurs twice among the entries.
pub open spec fn keys_unique(ps: Seq<(String, Project)>) -> bool {
    forall|i: int, j: int| 0 <= i < j < ps.len() ==> ps[i].0@ != ps[j].0@
}

/// The key-to-project mapping that a list of entries stands for.
pub open spec fn entries_map(ps: Seq<(String, Project)>) -> Map<Seq<char>, ProjectModel>
    decreases ps.len(),
{
    if ps.len() == 0 {
        Map::empty()
    } else {
        entries_map(ps.drop_last()).insert(ps.last().0@, ps.last().1@)
    }
}

/// The id of the first project that has no members, if there is one.
pub open spec fn first_without_members(ps: Seq<(String, Project)>) -> Option<u32>
    decreases ps.len(),
{
    if ps.len() == 0 {
        None
    } else if ps[0].1.members@.len() == 0 {
        Some(ps[0].1.id)
    } else {
        first_without_members(ps.drop_first())
    }
}

/// The id of the first project whose repository URL is empty, if there is one.
pub open spec fn first_without_repository(ps: Seq<(String, Project)>) -> Option<u32>
    decreases ps.len(),
{
    if ps.len() == 0 {
        None
    } else if ps[0].1.repository@.len() == 0 {
        Some(ps[0].1.id)
    } else {
        first_without_repository(ps.drop_first())
    }
}

/// What loading a manifest with these entries yields: the first defect found,
/// members being checked over all projects before repositories are.
pub open spec fn defect_of(ps: Seq<(String, Project)>) -> Option<Error> {
    match first_without_members(ps) {
        Some(id) => Some(Error::MissingUsername { project_id: id }),
        None => match first_without_repository(ps) {
            Some(id) => Some(Error::MissingSsh { project_id: id }),
            None => None,
        },
    }
}

/// Every project has a member and a repository URL.
pub open spec fn all_valid(ps: Seq<(String, Project)>) -> bool {
    forall|i: int|
        #![trigger ps[i]]
        0 <= i < ps.len() ==> ps[i].1.members@.len() > 0 && ps[i].1.repository@.len() > 0
}

proof fn lemma_first_without_members(ps: Seq<(String, Project)>)
    ensures
        first_without_members(ps) is None <==> forall|i: int|
            0 <= i < ps.len() ==> #[trigger] ps[i].1.members@.len() > 0,
    decreases ps.len(),
{
    if ps.len() > 0 {
        lemma_first_without_members(ps.drop_first());
        assert forall|i: int| 1 <= i < ps.len() implies ps[i] == #[trigger] ps.drop_first()[i - 1] by {}
        if first_without_members(ps) is None {
            assert forall|i: int| 0 <= i < ps.len() implies #[trigger] ps[i].1.members@.len() > 0 by {
                if i > 0 {
                    assert(ps.drop_first()[i - 1].1.members@.len() > 0);
                }
            }
        }
    }
}

proof fn lemma_first_without_repository(ps: Seq<(String, Project)>)
    ensures
        first_without_repository(ps) is None <==> forall|i: int|
            0 <= i < ps.len() ==> #[trigger] ps[i].1.repository@.len() > 0,
    decreases ps.len(),
{
    if ps.len() > 0 {
        lemma_first_without_repository(ps.drop_first());
        assert forall|i: int| 1 <= i < ps.len() implies ps[i] == #[trigger] ps.drop_first()[i - 1] by {}
        if first_without_repository(ps) is None {
            assert forall|i: int| 0 <= i < ps.len() implies #[trigger] ps[i].1.repository@.len()
                > 0 by {
                if i > 0 {
                    assert(ps.drop_first()[i - 1].1.repository@.len() > 0);
                }
            }
        }
    }
}

/// A manifest passes validation exactly when every project has a member and a
/// repository URL.
pub proof fn lemma_defect_free(ps: Seq<(String, Project)>)
    ensures
        defect_of(ps) is None <==> all_valid(ps),
{
    lemma_first_without_members(ps);
    lemma_first_without_repository(ps);
    if all_valid(ps) {
        assert forall|i: int| 0 <= i < ps.len() implies #[trigger] ps[i].1.members@.len() > 0 by {}
        assert forall|i: int| 0 <= i < ps.len() implies #[trigger] ps[i].1.repository@.len()
            > 0 by {}
    }
}

proof fn lemma_entries_map_update(ps: Seq<(String, Project)>, i: int, e: (String, Project))
    requires
        keys_unique(ps),
        0 <= i < ps.len(),
        ps[i].0@ == e.0@,
    ensures
        entries_map(ps.update(i, e)) == entries_map(ps).insert(e.0@, e.1@),
    decreases ps.len(),
{
    let qs = ps.update(i, e);
    if i == ps.len() - 1 {
        assert(qs.drop_last() =~= ps.drop_last());
        assert(entries_map(qs) =~= entries_map(ps).insert(e.0@, e.1@));
    } else {
        assert(qs.drop_last() =~= ps.drop_last().update(i, e));
        lemma_entries_map_update(ps.drop_last(), i, e);
        assert(ps.last().0@ != e.0@);
        assert(entries_map(qs) =~= entries_map(ps).insert(e.0@, e.1@));
    }
}

/// With unique keys, a manifest holds one project per entry, under exactly the
/// keys of its entries.
pub proof fn lemma_entries_map_len(ps: Seq<(String, Project)>)
    requires
        keys_unique(ps),
    ensures
        entries_map(ps).dom().finite(),
        entries_map(ps).dom().len() == ps.len(),
        forall|k: Seq<char>|
            entries_map(ps).contains_key(k) <==> exists|i: int| 0 <= i < ps.len() && ps[i].0@ == k,
    decreases ps.len(),
{
    if ps.len() > 0 {
        let before = ps.drop_last();
        lemma_entries_map_len(before);
        assert(!entries_map(before).contains_key(ps.last().0@)) by {
            if entries_map(before).contains_key(ps.last().0@) {
                let i = choose|i: int| 0 <= i < before.len() && before[i].0@ == ps.last().0@;
                assert(ps[i].0@ == ps[ps.len() - 1].0@);
            }
        }
        assert forall|k: Seq<char>|
            entries_map(ps).contains_key(k) implies exists|i: int| 0 <= i < ps.len() && ps[i].0@ == k by {
            if k != ps.last().0@ {
                let i = choose|i: int| 0 <= i < before.len() && before[i].0@ == k;
                assert(ps[i].0@ == k);
            } else {
                assert(ps[ps.len() - 1].0@ == k);
            }
        }
        assert forall|k: Seq<char>|
            (exists|i: int| 0 <= i < ps.len() && ps[i].0@ == k) implies entries_map(ps).contains_key(k) by {
            let i = choose|i: int| 0 <= i < ps.len() && ps[i].0@ == k;
            if i < ps.len() - 1 {
                assert(before[i].0@ == k);
            }
        }
    }
}

impl Manifest {
    /// Keys are unique.
    pub open spec fn wf(&self) -> bool {
        keys_unique(self.projects@)
    }

    /// The projects, keyed by namespace path.
    pub open spec fn project_map(&self) -> Map<Seq<char>, ProjectModel> {
        entries_map(self.projects@)
    }

    /// A well-formed manifest has as many projects as entries.
    pub proof fn lemma_project_count(&self)
        requires
            self.wf(),
        ensures
            self.project_map().dom().finite(),
            self.project_map().dom().len() == self.projects@.len(),
    {
        lemma_entries_map_len(self.projects@);
    }

    /// A manifest with no projects yet.
    pub fn new(
        projects_directory: String,
        templates_directory: String,
        feedbacks_directory: String,
    ) -> (r: Manifest)
        ensures
            r.wf(),
            r.projects@.len() == 0,
            r.project_map() == Map::<Seq<char>, ProjectModel>::empty(),
            r.projects_directory@ == projects_directory@,
            r.templates_directory@ == templates_directory@,
            r.feedbacks_directory@ == feedbacks_directory@,
    {
        Manifest { projects: Vec::new(), projects_directory, templates_directory, feedbacks_directory }
    }

    /// Records a project under a key. A project already under that key is
    /// replaced; any other key keeps its project.
    pub fn insert_project(&mut self, key: String, project: Project)
        requires
            old(self).wf(),
        ensures
            final(self).wf(),
            final(self).project_map() == old(self).project_map().insert(key@, project@),
            final(self).projects_directory == old(self).projects_directory,
            final(self).templates_directory == old(self).templates_directory,
            final(self).feedbacks_directory == old(self).feedbacks_directory,
    {
        let n = self.projects.len();
        let mut i: usize = 0;
        while i < n
            invariant
                n == self.projects@.len(),
                0 <= i <= n,
                *self == *old(self),
                self.wf(),
                forall|j: int| 0 <= j < i ==> self.projects@[j].0@ != key@,
            decreases n - i,
        {
            if self.projects[i].0 == key {
                let ghost ps = self.projects@;
                proof {
                    lemma_entries_map_update(ps, i as int, (key, project));
                }
                self.projects.set(i, (key, project));
                assert(self.projects@ == ps.update(i as int, (key, project)));
                return;
            }
            i = i + 1;
        }
        let ghost ps = self.projects@;
        self.projects.push((key, project));
        assert(self.projects@.drop_last() =~= ps);
    }

    /// Checks a manifest that was read back: the first project without members
    /// gives `MissingUsername`; failing that, the first without a repository URL
    /// gives `MissingSsh`; otherwise the manifest is handed back unchanged.
    pub fn validate(self) -> (r: Result<Manifest, Error>)
        ensures
            r == match defect_of(self.projects@) {
                Some(e) => Err::<Manifest, Error>(e),
                None => Ok(self),
            },
            r is Ok <==> all_valid(self.projects@),
    {
        proof {
            lemma_defect_free(self.projects@);
        }
        let n = self.projects.len();
        assert(self.projects@.subrange(0, n as int) =~= self.projects@);
        let mut i: usize = 0;
        while i < n
            invariant
                n == self.projects@.len(),
                0 <= i <= n,
                first_without_members(self.projects@) == first_without_members(
                    self.projects@.subrange(i as int, n as int),
                ),
            decreases n - i,
        {
            let ghost rest = self.projects@.subrange(i as int, n as int);
            assert(rest.drop_first() =~= self.projects@.subrange(i + 1, n as int));
            assert(rest[0] == self.projects@[i as int]);
            if self.projects[i].1.members.len() == 0 {
                return Err(Error::MissingUsername { project_id: self.projects[i].1.id });
            }
            i = i + 1;
        }
        let mut i: usize = 0;
        while i < n
            invariant
                n == self.projects@.len(),
                0 <= i <= n,
                first_without_members(self.projects@) is None,
                first_without_repository(self.projects@) == first_without_repository(
                    self.projects@.subrange(i as int, n as int),
                ),
            decreases n - i,
        {
            let ghost rest = self.projects@.subrange(i as int, n as int);
            assert(rest.drop_first() =~= self.projects@.subrange(i + 1, n as int));
            assert(rest[0] == self.projects@[i as int]);
            if self.projects[i].1.repository.as_str().is_empty() {
                return Err(Error::MissingSsh { project_id: self.projects[i].1.id });
            }
            i = i + 1;
        }
        Ok(self)
    }
}

} // verus!
