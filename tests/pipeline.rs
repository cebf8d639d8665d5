use forked::assemble::{assemble, build_manifest, excludes, filter_members};
use forked::config::{Error, Manifest, Member, Project};
use forked::json::{Fork, Links, Member as ApiMember, Namespace, NewIssueRequest, NewIssueResponse};
use forked::pager::ForkPager;

fn fork(id: usize, path: &str) -> Fork {
    Fork {
        id,
        description: None,
        default_branch: "master".to_string(),
        visibility: "internal".to_string(),
        ssh_url_to_repo: format!("git@example.com:{}.git", path),
        http_url_to_repo: format!("http://example.com/{}.git", path),
        web_url: format!("http://example.com/{}", path),
        readme_url: format!("http://example.com/{}/blob/master/README.md", path),
        tag_list: vec![],
        name: path.to_string(),
        name_with_namespace: path.to_string(),
        path: path.to_string(),
        path_with_namespace: path.to_string(),
        issues_enabled: true,
        open_issues_count: 0,
        merge_requests_enabled: true,
        jobs_enabled: true,
        wiki_enabled: true,
        snippets_enabled: false,
        can_create_merge_request_in: true,
        resolve_outdated_diff_discussions: false,
        container_registry_enabled: false,
        created_at: "2013-09-30T13:46:02Z".to_string(),
        last_activity_at: "2013-09-30T13:46:02Z".to_string(),
        creator_id: 3,
        namespace: Namespace {
            id: 3,
            name: path.to_string(),
            path: path.to_string(),
            kind: "group".to_string(),
            full_path: path.to_string(),
        },
        import_status: "none".to_string(),
        archived: false,
        avatar_url: None,
        shared_runners_enabled: true,
        forks_count: 0,
        star_count: 0,
        public_jobs: true,
        shared_with_groups: vec![],
        only_allow_merge_if_pipeline_succeeds: false,
        allow_merge_on_skipped_pipeline: None,
        only_allow_merge_if_all_discussions_are_resolved: false,
        remove_source_branch_after_merge: false,
        request_access_enabled: false,
        merge_method: "merge".to_string(),
        autoclose_referenced_issues: true,
        suggestion_commit_message: None,
        _links: Links {
            _self: "http://example.com/api/v4/projects".to_string(),
            issues: "http://example.com/api/v4/projects/1/issues".to_string(),
            merge_requests: "http://example.com/api/v4/projects/1/merge_requests".to_string(),
            repo_branches: "http://example.com/api/v4/projects/1/repository_branches".to_string(),
            labels: "http://example.com/api/v4/projects/1/labels".to_string(),
            events: "http://example.com/api/v4/projects/1/events".to_string(),
            members: "http://example.com/api/v4/projects/1/members".to_string(),
        },
    }
}

fn api_member(username: &str, name: &str) -> ApiMember {
    ApiMember { username: username.to_string(), name: name.to_string() }
}

fn strings(items: &[&str]) -> Vec<String> {
    items.iter().map(|s| s.to_string()).collect()
}

fn dirs() -> (String, String, String) {
    ("projects".to_string(), "templates".to_string(), "feedbacks".to_string())
}

fn two_forks() -> Vec<(Fork, Vec<ApiMember>)> {
    vec![(fork(100, "group/a"), vec![api_member("bob", "Bob")]), (fork(101, "group/b"), vec![])]
}

fn project(id: u32, usernames: &[&str], repository: &str) -> Project {
    Project {
        id,
        members: usernames
            .iter()
            .map(|u| Member { username: u.to_string(), name: u.to_uppercase() })
            .collect(),
        repository: repository.to_string(),
    }
}

fn manifest_of(entries: Vec<(&str, Project)>) -> Manifest {
    let (p, t, f) = dirs();
    let mut m = Manifest::new(p, t, f);
    for (k, pr) in entries {
        m.insert_project(k.to_string(), pr);
    }
    m
}

/// Drives a pager over mocked pages, counting the requests it makes.
fn run_pager(pages: &[usize], max_pages: usize) -> (ForkPager, usize) {
    let mut pager = ForkPager::new(max_pages);
    let mut requests = 0;
    while let Some(page_no) = pager.next_page() {
        requests += 1;
        assert_eq!(page_no, requests);
        let count = pages.get(page_no - 1).copied().unwrap_or(0);
        let page: Vec<Fork> =
            (0..count).map(|i| fork(page_no * 1000 + i, &format!("g/{}-{}", page_no, i))).collect();
        pager.on_page(page);
    }
    (pager, requests)
}

#[test]
fn scenario_one_fork_kept() {
    let (p, t, f) = dirs();
    let m = build_manifest(&two_forks(), &vec![], p, t, f);
    assert_eq!(m.projects.len(), 1);
    let (key, pr) = &m.projects[0];
    assert_eq!(key, "group/a");
    assert_eq!(pr.id, 100);
    assert_eq!(pr.members.len(), 1);
    assert_eq!(pr.members[0].username, "bob");
    assert_eq!(pr.members[0].name, "Bob");
    assert_eq!(pr.repository, "git@example.com:group/a.git");
    assert_eq!(m.projects_directory, "projects");
    assert_eq!(m.templates_directory, "templates");
    assert_eq!(m.feedbacks_directory, "feedbacks");
}

#[test]
fn scenario_all_members_excluded() {
    let (p, t, f) = dirs();
    let m = build_manifest(&two_forks(), &strings(&["bob"]), p, t, f);
    assert_eq!(m.projects.len(), 0);
}

#[test]
fn scenario_two_full_pages() {
    let (pager, requests) = run_pager(&[100, 100, 0], 9);
    assert_eq!(requests, 3);
    assert!(!pager.is_truncated());
    let forks = pager.into_forks().into_vec();
    assert_eq!(forks.len(), 200);
    assert_eq!(forks[0].id, 1000);
    assert_eq!(forks[99].id, 1099);
    assert_eq!(forks[100].id, 2000);
    assert_eq!(forks[199].id, 2099);
}

#[test]
fn pagination_stops_at_first_empty_page() {
    let (pager, requests) = run_pager(&[3, 1, 0, 5], 9);
    assert_eq!(requests, 3);
    let ids: Vec<usize> = pager.into_forks().into_vec().iter().map(|f| f.id).collect();
    assert_eq!(ids, vec![1000, 1001, 1002, 2000]);
}

#[test]
fn pagination_first_page_empty() {
    let (pager, requests) = run_pager(&[], 9);
    assert_eq!(requests, 1);
    assert!(!pager.is_truncated());
    assert_eq!(pager.into_forks().into_vec().len(), 0);
}

#[test]
fn pagination_limit_truncates() {
    let (pager, requests) = run_pager(&[1; 12], 9);
    assert_eq!(requests, 9);
    assert!(pager.is_truncated());
    assert_eq!(pager.into_forks().into_vec().len(), 9);
}

#[test]
fn pagination_zero_limit_requests_nothing() {
    let (pager, requests) = run_pager(&[1], 0);
    assert_eq!(requests, 0);
    assert!(pager.is_truncated());
}

#[test]
fn exclusion_count_matches_kept_forks() {
    let resolved = vec![
        (fork(1, "g/one"), vec![api_member("ann", "Ann"), api_member("bob", "Bob")]),
        (fork(2, "g/two"), vec![api_member("bob", "Bob")]),
        (fork(3, "g/three"), vec![api_member("tutor", "Tutor"), api_member("cid", "Cid")]),
        (fork(4, "g/four"), vec![]),
    ];
    let (p, t, f) = dirs();
    let m = build_manifest(&resolved, &strings(&["bob", "tutor"]), p, t, f);
    let keys: Vec<&str> = m.projects.iter().map(|(k, _)| k.as_str()).collect();
    assert_eq!(keys, vec!["g/one", "g/three"]);
    let one = &m.projects[0].1;
    assert_eq!(one.members.len(), 1);
    assert_eq!(one.members[0].username, "ann");
    let three = &m.projects[1].1;
    assert_eq!(three.members.len(), 1);
    assert_eq!(three.members[0].username, "cid");
}

#[test]
fn filter_keeps_member_order() {
    let ms = vec![api_member("c", "C"), api_member("x", "X"), api_member("a", "A")];
    let kept = filter_members(&ms, &strings(&["x"]));
    let names: Vec<&str> = kept.iter().map(|m| m.username.as_str()).collect();
    assert_eq!(names, vec!["c", "a"]);
    assert_eq!(kept[1].name, "A");
}

#[test]
fn excludes_matches_whole_usernames() {
    let ex = strings(&["bob", "ann"]);
    assert!(excludes(&ex, &"ann".to_string()));
    assert!(!excludes(&ex, &"bo".to_string()));
    assert!(!excludes(&vec![], &"bob".to_string()));
}

#[test]
fn assemble_copies_fork_fields() {
    let r = assemble(&fork(7, "team/x"), &vec![api_member("eve", "Eve")], &vec![]);
    let (key, pr) = r.expect("a member is left");
    assert_eq!(key, "team/x");
    assert_eq!(pr.id, 7);
    assert_eq!(pr.repository, "git@example.com:team/x.git");
    assert!(assemble(&fork(7, "team/x"), &vec![], &vec![]).is_none());
}

#[test]
fn same_path_later_fork_wins() {
    let mut later = fork(201, "group/same");
    later.ssh_url_to_repo = "git@example.com:later.git".to_string();
    let resolved = vec![
        (fork(200, "group/same"), vec![api_member("ann", "Ann")]),
        (later, vec![api_member("bob", "Bob")]),
    ];
    let (p, t, f) = dirs();
    let m = build_manifest(&resolved, &vec![], p, t, f);
    assert_eq!(m.projects.len(), 1);
    let (key, pr) = &m.projects[0];
    assert_eq!(key, "group/same");
    assert_eq!(pr.id, 201);
    assert_eq!(pr.members[0].username, "bob");
    assert_eq!(pr.repository, "git@example.com:later.git");
}

#[test]
fn insert_project_replaces_same_key() {
    let mut m = manifest_of(vec![("a", project(1, &["x"], "r1")), ("b", project(2, &["y"], "r2"))]);
    m.insert_project("a".to_string(), project(3, &["z"], "r3"));
    assert_eq!(m.projects.len(), 2);
    assert_eq!(m.projects[0].0, "a");
    assert_eq!(m.projects[0].1.id, 3);
    assert_eq!(m.projects[1].1.id, 2);
}

#[test]
fn validate_missing_username() {
    let m = manifest_of(vec![("a", project(1, &["x"], "r1")), ("b", project(2, &[], "r2"))]);
    assert_eq!(m.validate().err(), Some(Error::MissingUsername { project_id: 2 }));
}

#[test]
fn validate_missing_ssh() {
    let m = manifest_of(vec![("a", project(1, &["x"], "")), ("b", project(2, &["y"], "r2"))]);
    assert_eq!(m.validate().err(), Some(Error::MissingSsh { project_id: 1 }));
}

#[test]
fn validate_members_checked_before_repositories() {
    let m = manifest_of(vec![("a", project(1, &["x"], "")), ("b", project(2, &[], "r2"))]);
    assert_eq!(m.validate().err(), Some(Error::MissingUsername { project_id: 2 }));
}

#[test]
fn validate_accepts_sound_manifest() {
    let m = manifest_of(vec![("a", project(1, &["x"], "r1")), ("b", project(2, &["y"], "r2"))]);
    let back = m.validate().ok().expect("no defect");
    assert_eq!(back.projects.len(), 2);
    assert_eq!(back.projects[1].0, "b");
    assert_eq!(back.projects[1].1.repository, "r2");
    assert_eq!(back.projects_directory, "projects");
}

#[test]
fn validate_accepts_empty_manifest() {
    assert!(manifest_of(vec![]).validate().is_ok());
}

#[test]
fn labels_are_comma_joined() {
    let req = NewIssueRequest {
        title: "t".to_string(),
        description: "d".to_string(),
        labels: strings(&["feedback", "week1", "graded"]),
    };
    assert_eq!(req.labels_joined(), "feedback,week1,graded");
    let one = NewIssueRequest { labels: strings(&["feedback"]), ..req };
    assert_eq!(one.labels_joined(), "feedback");
    let none = NewIssueRequest { labels: vec![], ..one };
    assert_eq!(none.labels_joined(), "");
}

#[test]
fn issue_state_opened() {
    assert!(NewIssueResponse::new("opened".to_string()).is_opened());
    assert!(!NewIssueResponse::new("closed".to_string()).is_opened());
    assert!(!NewIssueResponse::new("".to_string()).is_opened());
}

#[test]
fn feedback_title_and_description() {
    let req = NewIssueRequest::from_feedback("# Week 1 #\nGood job\nKeep going", strings(&["feedback"]));
    assert_eq!(req.title, "Week 1");
    assert_eq!(req.description, "Good job\nKeep going");
    assert_eq!(req.labels, strings(&["feedback"]));
}

#[test]
fn feedback_empty_document() {
    let req = NewIssueRequest::from_feedback("", vec![]);
    assert_eq!(req.title, "Feedback");
    assert_eq!(req.description, "");
}

#[test]
fn feedback_single_line_and_crlf() {
    let req = NewIssueRequest::from_feedback("##  Notes  ##\r\n", vec![]);
    assert_eq!(req.title, "Notes");
    assert_eq!(req.description, "");
    let req = NewIssueRequest::from_feedback("Title\r\na\r\n\r\nb\n", vec![]);
    assert_eq!(req.title, "Title");
    assert_eq!(req.description, "a\n\nb");
}

#[test]
fn feedback_from_lines() {
    let req = NewIssueRequest::from_lines(&strings(&["### Hi", "x", "y"]), vec![]);
    assert_eq!(req.title, "Hi");
    assert_eq!(req.description, "x\ny");
    let req = NewIssueRequest::from_lines(&vec![], vec![]);
    assert_eq!(req.title, "Feedback");
    assert_eq!(req.description, "");
}
