use vstd::prelude::*;

verus! {

/// A point in time as microseconds since the Unix epoch, UTC.
pub type Timestamp = i64;

/// The view of an optional string.
pub open spec fn opt_str_view(o: Option<String>) -> Option<Seq<char>> {
    match o {
        Some(s) => Some(s@),
        None => None,
    }
}

/// The view of a list of strings.
pub open spec fn strs_view(v: Vec<String>) -> Seq<Seq<char>> {
    v@.map_values(|s: String| s@)
}

/// Copies an optional string.
pub fn copy_opt_str(o: &Option<String>) -> (r: Option<String>)
    ensures
        opt_str_view(r) == opt_str_view(*o),
{
    match o {
        Some(s) => Some(s.clone()),
        None => None,
    }
}

/// Copies a list of strings, keeping its order.
pub fn copy_strs(v: &Vec<String>) -> (r: Vec<String>)
    ensures
        strs_view(r) == strs_view(*v),
{
    let mut r: Vec<String> = Vec::new();
    let mut i: usize = 0;
    while i < v.len()
        invariant
            i <= v.len(),
            r@.len() == i,
            forall|k: int| 0 <= k < i ==> (#[trigger] r@[k])@ == v@[k]@,
        decreases v.len() - i,
    {
        r.push(v[i].clone());
        i = i + 1;
    }
    assert(strs_view(r) =~= strs_view(*v));
    r
}

/// What a collected repository holds, as mathematical values.
pub struct CollectedView {
    pub github_id: int,
    pub name: Seq<char>,
    pub full_name: Seq<char>,
    pub description: Option<Seq<char>>,
    pub url: Seq<char>,
    pub stars: int,
    pub language: Option<Seq<char>>,
    pub topics: Seq<Seq<char>>,
}

/// A repository as the collector found it, before it is stored.
#[derive(Debug, Clone)]
pub struct CollectedRepository {
    pub github_id: i64,
    pub name: String,
    pub full_name: String,
    pub description: Option<String>,
    pub url: String,
    pub stars: i32,
    pub language: Option<String>,
    pub topics: Vec<String>,
}

impl View for CollectedRepository {
    type V = CollectedView;

    open spec fn view(&self) -> CollectedView {
        CollectedView {
            github_id: self.github_id as int,
            name: self.name@,
            full_name: self.full_name@,
            description: opt_str_view(self.description),
            url: self.url@,
            stars: self.stars as int,
            language: opt_str_view(self.language),
            topics: strs_view(self.topics),
        }
    }
}

impl CollectedRepository {
    /// A field-by-field copy.
    pub fn duplicate(&self) -> (r: CollectedRepository)
        ensures
            r@ == self@,
    {
        CollectedRepository {
            github_id: self.github_id,
            name: self.name.clone(),
            full_name: self.full_name.clone(),
            description: copy_opt_str(&self.description),
            url: self.url.clone(),
            stars: self.stars,
            language: copy_opt_str(&self.language),
            topics: copy_strs(&self.topics),
        }
    }
}

/// What a stored record holds: the repository's fields, the storage key and
/// the three timestamps.
pub struct RecordView {
    pub id: int,
    pub repo: CollectedView,
    pub created_at: int,
    pub updated_at: int,
    pub collected_at: int,
}

/// A stored repository.
#[derive(Debug, Clone)]
pub struct RepositoryRecord {
    pub id: i32,
    pub github_id: i64,
    pub name: String,
    pub full_name: String,
    pub description: Option<String>,
    pub url: String,
    pub stars: i32,
    pub language: Option<String>,
    pub topics: Vec<String>,
    pub created_at: Timestamp,
    pub updated_at: Timestamp,
    pub collected_at: Timestamp,
}

impl View for RepositoryRecord {
    type V = RecordView;

    open spec fn view(&self) -> RecordView {
        RecordView {
            id: self.id as int,
            repo: CollectedView {
                github_id: self.github_id as int,
                name: self.name@,
                full_name: self.full_name@,
                description: opt_str_view(self.description),
                url: self.url@,
                stars: self.stars as int,
                language: opt_str_view(self.language),
                topics: strs_view(self.topics),
            },
            created_at: self.created_at as int,
            updated_at: self.updated_at as int,
            collected_at: self.collected_at as int,
        }
    }
}

impl RepositoryRecord {
    /// Builds a record from a repository's fields, a storage key and timestamps.
    pub fn from_parts(
        id: i32,
        repo: &CollectedRepository,
        created_at: Timestamp,
        updated_at: Timestamp,
        collected_at: Timestamp,
    ) -> (r: RepositoryRecord)
        ensures
            r@ == (RecordView {
                id: id as int,
                repo: repo@,
                created_at: created_at as int,
                updated_at: updated_at as int,
                collected_at: collected_at as int,
            }),
    {
        RepositoryRecord {
            id,
            github_id: repo.github_id,
            name: repo.name.clone(),
            full_name: repo.full_name.clone(),
            description: copy_opt_str(&repo.description),
            url: repo.url.clone(),
            stars: repo.stars,
            language: copy_opt_str(&repo.language),
            topics: copy_strs(&repo.topics),
            created_at,
            updated_at,
            collected_at,
        }
    }

    /// A field-by-field copy.
    pub fn duplicate(&self) -> (r: RepositoryRecord)
        ensures
            r@ == self@,
    {
        RepositoryRecord {
            id: self.id,
            github_id: self.github_id,
            name: self.name.clone(),
            full_name: self.full_name.clone(),
            description: copy_opt_str(&self.description),
            url: self.url.clone(),
            stars: self.stars,
            language: copy_opt_str(&self.language),
            topics: copy_strs(&self.topics),
            created_at: self.created_at,
            updated_at: self.updated_at,
            collected_at: self.collected_at,
        }
    }
}

/// One page of stored records, with the size of the whole table and the
/// window that was asked for.
#[derive(Debug, Clone)]
pub struct RepositoryListResponse {
    pub repositories: Vec<RepositoryRecord>,
    pub total: i64,
    pub page: i32,
    pub per_page: i32,
}

/// One item of a search reply of the code-hosting API.
#[derive(Debug, Clone)]
pub struct GitHubApiRepository {
    pub id: i64,
    pub name: String,
    pub full_name: String,
    pub description: Option<String>,
    pub html_url: String,
    pub stargazers_count: i32,
    pub language: Option<String>,
    pub topics: Vec<String>,
    pub created_at: String,
    pub updated_at: String,
}

/// The repository that an API item describes: a plain mapping of fields.
pub open spec fn collected_of(g: GitHubApiRepository) -> CollectedRepository {
    CollectedRepository {
        github_id: g.id,
        name: g.name,
        full_name: g.full_name,
        description: g.description,
        url: g.html_url,
        stars: g.stargazers_count,
        language: g.language,
        topics: g.topics,
    }
}

impl From<GitHubApiRepository> for CollectedRepository {
    fn from(github: GitHubApiRepository) -> (r: CollectedRepository) {
        CollectedRepository {
            github_id: github.id,
            name: github.name,
            full_name: github.full_name,
            description: github.description,
            url: github.html_url,
            stars: github.stargazers_count,
            language: github.language,
            topics: github.topics,
        }
    }
}

impl vstd::std_specs::convert::FromSpecImpl<GitHubApiRepository> for CollectedRepository {
    open spec fn obeys_from_spec() -> bool {
        true
    }

    open spec fn from_spec(v: GitHubApiRepository) -> CollectedRepository {
        collected_of(v)
    }
}

} // verus!
