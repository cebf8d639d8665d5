use vstd::prelude::*;

verus! {

/// One forked project as the hosting platform describes it.
pub struct Fork {
    pub id: usize,
    pub description: Option<String>,
    pub default_branch: String,
    pub visibility: String,
    pub ssh_url_to_repo: String,
    pub http_url_to_repo: String,
    pub web_url: String,
    pub readme_url: String,
    pub tag_list: Vec<String>,
    pub name: String,
    pub name_with_namespace: String,
    pub path: String,
    pub path_with_namespace: String,
    pub issues_enabled: bool,
    pub open_issues_count: usize,
    pub merge_requests_enabled: bool,
    pub jobs_enabled: bool,
    pub wiki_enabled: bool,
    pub snippets_enabled: bool,
    pub can_create_merge_request_in: bool,
    pub resolve_outdated_diff_discussions: bool,
    pub container_registry_enabled: bool,
    pub created_at: String,
    pub last_activity_at: String,
    pub creator_id: usize,
    pub namespace: Namespace,
    pub import_status: String,
    pub archived: bool,
    pub avatar_url: Option<String>,
    pub shared_runners_enabled: bool,
    pub forks_count: usize,
    pub star_count: usize,
    pub public_jobs: bool,
    pub shared_with_groups: Vec<String>,
    pub only_allow_merge_if_pipeline_succeeds: bool,
    pub allow_merge_on_skipped_pipeline: Option<bool>,
    pub only_allow_merge_if_all_discussions_are_resolved: bool,
    pub remove_source_branch_after_merge: bool,
    pub request_access_enabled: bool,
    pub merge_method: String,
    pub autoclose_referenced_issues: bool,
    pub suggestion_commit_message: Option<String>,
    pub _links: Links,
}

/// The API links of a project.
pub struct Links {
    pub _self: String,
    pub issues: String,
    pub merge_requests: String,
    pub repo_branches: String,
    pub labels: String,
    pub events: String,
    pub members: String,
}

/// The group or user that a project lives under.
pub struct Namespace {
    pub id: usize,
    pub name: String,
    pub path: String,
    pub kind: String,
    pub full_path: String,
}

/// All forks of a project, in the order they were listed.
pub struct Forks(pub Vec<Fork>);

impl Forks {
    /// The forks, in order.
    pub fn into_vec(self) -> (r: Vec<Fork>)
        ensures
            r@ == self.0@,
    {
        self.0
    }
}

/// A member of a project as the hosting platform lists it; other attributes
/// are not read.
pub struct Member {
    pub username: String,
    pub name: String,
}

impl View for Member {
    type V = (Seq<char>, Seq<char>);

    open spec fn view(&self) -> (Seq<char>, Seq<char>) {
        (self.username@, self.name@)
    }
}

/// The parts in order with `sep` between each two of them.
pub open spec fn joined(parts: Seq<Seq<char>>, sep: Seq<char>) -> Seq<char>
    decreases parts.len(),
{
    if parts.len() == 0 {
        Seq::empty()
    } else if parts.len() == 1 {
        parts[0]
    } else {
        joined(parts.drop_last(), sep) + sep + parts.last()
    }
}

/// The characters of each string.
pub open spec fn texts(parts: Seq<String>) -> Seq<Seq<char>> {
    parts.map_values(|l: String| l@)
}

/// Concatenates the parts with `sep` between each two of them.
pub fn join(parts: &Vec<String>, sep: &str) -> (r: String)
    ensures
        r@ == joined(texts(parts@), sep@),
{
    let ghost ls = texts(parts@);
    let mut r = String::new();
    let n = parts.len();
    let mut i: usize = 0;
    while i < n
        invariant
            n == parts@.len(),
            ls == texts(parts@),
            0 <= i <= n,
            r@ == joined(ls.take(i as int), sep@),
        decreases n - i,
    {
        assert(ls.take(i + 1).drop_last() =~= ls.take(i as int));
        if i > 0 {
            r.append(sep);
        } else {
            assert(ls.take(0) =~= Seq::<Seq<char>>::empty());
        }
        r.append(parts[i].as_str());
        i = i + 1;
    }
    assert(ls.take(n as int) =~= ls);
    r
}

/// A new issue to open on a project.
pub struct NewIssueRequest {
    pub title: String,
    pub description: String,
    pub labels: Vec<String>,
}

impl NewIssueRequest {
    /// The labels as one comma-separated string.
    pub fn labels_joined(&self) -> (r: String)
        ensures
            r@ == joined(texts(self.labels@), seq![',']),
    {
        let sep = ",";
        proof {
            reveal_strlit(",");
        }
        assert(sep@ =~= seq![',']);
        join(&self.labels, sep)
    }
}

/// The reply of the hosting platform to a new issue: only its state is read.
pub struct NewIssueResponse {
    state: String,
}

impl NewIssueResponse {
    /// A reply in the given state.
    pub fn new(state: String) -> (r: NewIssueResponse)
        ensures
            r.state_view() == state@,
    {
        NewIssueResponse { state }
    }

    /// The state as characters.
    pub closed spec fn state_view(&self) -> Seq<char> {
        self.state@
    }

    /// Whether the issue was created in the open state.
    pub fn is_opened(&self) -> (r: bool)
        ensures
            r == (self.state_view() == "opened"@),
    {
        let opened = String::from_str("opened");
        proof {
            reveal_strlit("opened");
        }
        self.state == opened
    }
}

} // verus!
