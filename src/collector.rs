use vstd::prelude::*;
use crate::models::{CollectedRepository, CollectedView, GitHubApiRepository, collected_of};

verus! {

/// The search endpoint of the code-hosting API.
pub const SEARCH_URL: &'static str = "https://api.github.com/search/repositories";

/// The media type asked of the search endpoint.
pub const ACCEPT: &'static str = "application/vnd.github.v3+json";

/// The user agent that every request carries.
pub const USER_AGENT: &'static str = "tech_collector/0.1.0";

/// The queries of one collection run, in the order they are issued.
pub open spec fn query_list() -> Seq<Seq<char>> {
    seq![
        "language:python deep-learning stars:>50 created:>2022-01-01"@,
        "topic:llm stars:>1000"@,
        "topic:transformer stars:>1000"@,
    ]
}

/// Why a collection run stopped.
#[derive(Debug, Clone, Copy, PartialEq, Eq)]
pub enum CollectError {
    /// The search endpoint answered with a status outside 200..=299.
    Status(u16),
}

/// One search reply as the API sends it.
#[derive(Debug, Clone)]
pub struct GitHubApiResponse {
    pub items: Vec<GitHubApiRepository>,
    pub total_count: u32,
}

/// One outbound search request, in plain values.
#[derive(Debug, Clone)]
pub struct SearchRequest {
    pub url: String,
    pub authorization: String,
    pub accept: String,
    pub user_agent: String,
    pub query: Vec<(String, String)>,
}

/// The repositories that a list of API items describes, in order.
pub open spec fn collected_seq(items: Seq<GitHubApiRepository>) -> Seq<CollectedView> {
    items.map_values(|g: GitHubApiRepository| collected_of(g)@)
}

/// All repositories of several replies, reply after reply.
pub open spec fn all_items(pages: Seq<GitHubApiResponse>) -> Seq<CollectedView>
    decreases pages.len(),
{
    if pages.len() == 0 {
        Seq::empty()
    } else {
        all_items(pages.drop_last()) + collected_seq(pages.last().items@)
    }
}

/// No two entries share a source identifier.
pub open spec fn ids_unique(r: Seq<CollectedView>) -> bool {
    forall|i: int, j: int|
        0 <= i < r.len() && 0 <= j < r.len() && i != j ==> r[i].github_id != r[j].github_id
}

/// Entry `k` of `s` is the last one with its source identifier.
pub open spec fn last_of_its_id(s: Seq<CollectedView>, k: int) -> bool {
    &&& 0 <= k < s.len()
    &&& forall|m: int| k < m < s.len() ==> s[m].github_id != s[k].github_id
}

/// Entry `j` of `r` equals the last entry of `s` with its source identifier.
pub open spec fn from_last_sighting(s: Seq<CollectedView>, r: Seq<CollectedView>, j: int) -> bool {
    exists|k: int| #![trigger s[k]] last_of_its_id(s, k) && s[k] == r[j]
}

/// `r` holds each source identifier of `s` once, with the values of the last
/// entry of `s` that carries it, and nothing else.
pub open spec fn is_merge_of(s: Seq<CollectedView>, r: Seq<CollectedView>) -> bool {
    &&& ids_unique(r)
    &&& forall|j: int| 0 <= j < r.len() ==> #[trigger] from_last_sighting(s, r, j)
    &&& forall|k: int| #![trigger s[k]] 0 <= k < s.len() ==> exists|j: int| #![trigger r[j]] 0 <= j < r.len() && r[j].github_id == s[k].github_id
}

/// Whether an HTTP status counts as success.
pub open spec fn is_success(status: u16) -> bool {
    200 <= status <= 299
}

/// The outcome of a search reply's status: success, or the error that ends
/// the run.
pub fn check_status(status: u16) -> (r: Result<(), CollectError>)
    ensures
        r is Ok <==> is_success(status),
        !is_success(status) ==> r == Err::<(), CollectError>(CollectError::Status(status)),
{
    if 200 <= status && status <= 299 {
        Ok(())
    } else {
        Err(CollectError::Status(status))
    }
}

/// Maps each item of a search reply to a collected repository, in order.
pub fn search_results(response: &GitHubApiResponse) -> (r: Vec<CollectedRepository>)
    ensures
        r@.map_values(|c: CollectedRepository| c@) == collected_seq(response.items@),
{
    let items = &response.items;
    let mut r: Vec<CollectedRepository> = Vec::new();
    let mut i: usize = 0;
    while i < items.len()
        invariant
            i <= items.len(),
            r@.len() == i,
            forall|k: int| 0 <= k < i ==> (#[trigger] r@[k])@ == collected_of(items@[k])@,
        decreases items.len() - i,
    {
        let item = &items[i];
        let c = CollectedRepository {
            github_id: item.id,
            name: item.name.clone(),
            full_name: item.full_name.clone(),
            description: crate::models::copy_opt_str(&item.description),
            url: item.html_url.clone(),
            stars: item.stargazers_count,
            language: crate::models::copy_opt_str(&item.language),
            topics: crate::models::copy_strs(&item.topics),
        };
        r.push(c);
        i = i + 1;
    }
    assert(r@.map_values(|c: CollectedRepository| c@) =~= collected_seq(items@));
    r
}

/// The index of the entry with the given source identifier, if any.
fn position_of_id(r: &Vec<CollectedRepository>, id: i64) -> (p: Option<usize>)
    ensures
        match p {
            Some(j) => j < r@.len() && r@[j as int].github_id == id,
            None => forall|a: int| 0 <= a < r@.len() ==> (#[trigger] r@[a]).github_id != id,
        },
{
    let mut j: usize = 0;
    while j < r.len()
        invariant
            j <= r@.len(),
            forall|a: int| 0 <= a < j ==> (#[trigger] r@[a]).github_id != id,
        decreases r@.len() - j,
    {
        if r[j].github_id == id {
            return Some(j);
        }
        j = j + 1;
    }
    None
}

/// Merges repositories by source identifier: each identifier appears once,
/// with the values of its last sighting.
pub fn merge_unique(repos: &Vec<CollectedRepository>) -> (r: Vec<CollectedRepository>)
    ensures
        is_merge_of(repos@.map_values(|c: CollectedRepository| c@), r@.map_values(|c: CollectedRepository| c@)),
{
    let ghost s = repos@.map_values(|c: CollectedRepository| c@);
    let mut r: Vec<CollectedRepository> = Vec::new();
    // for each entry of `r`, the index in `s` of the entry it holds
    let ghost mut src: Seq<int> = Seq::empty();
    let mut i: usize = 0;
    while i < repos.len()
        invariant
            i <= repos.len(),
            s == repos@.map_values(|c: CollectedRepository| c@),
            src.len() == r@.len(),
            forall|a: int, b: int|
                0 <= a < r@.len() && 0 <= b < r@.len() && a != b ==> r@[a].github_id != r@[b].github_id,
            forall|j: int| 0 <= j < r@.len() ==> 0 <= #[trigger] src[j] < i,
            forall|j: int| 0 <= j < r@.len() ==> s[#[trigger] src[j]] == r@[j]@,
            forall|j: int, m: int|
                0 <= j < r@.len() && src[j] < m < i ==> (#[trigger] s[m]).github_id != (#[trigger] r@[j]).github_id,
            forall|k: int| 0 <= k < i ==> exists|j: int| 0 <= j < r@.len() && r@[j].github_id == (#[trigger] s[k]).github_id,
        decreases repos.len() - i,
    {
        let item = repos[i].duplicate();
        let ghost r_old = r@;
        let pos = position_of_id(&r, item.github_id);
        let found = pos.is_some();
        let j: usize = match pos {
            Some(p) => p,
            None => r.len(),
        };
        if found {
            r.set(j, item);
            proof {
                src = src.update(j as int, i as int);
            }
        } else {
            r.push(item);
            proof {
                src = src.push(i as int);
            }
        }
        proof {
            assert forall|a: int| 0 <= a < r_old.len() implies #[trigger] r@[a].github_id == r_old[a].github_id by {
                if found && a == j as int {
                    assert(r_old[a].github_id == item.github_id);
                }
            }
            assert forall|k: int| 0 <= k < i + 1 implies exists|a: int|
                0 <= a < r@.len() && r@[a].github_id == (#[trigger] s[k]).github_id by {
                if k == i {
                    assert(r@[j as int].github_id == s[k].github_id);
                } else {
                    let a0 = choose|a: int| 0 <= a < r_old.len() && r_old[a].github_id == s[k].github_id;
                    assert(r@[a0].github_id == s[k].github_id);
                }
            }
        }
        i = i + 1;
    }
    proof {
        let rv = r@.map_values(|c: CollectedRepository| c@);
        assert forall|j: int| 0 <= j < rv.len() implies #[trigger] from_last_sighting(s, rv, j) by {
            let k = src[j];
            assert(last_of_its_id(s, k));
            assert(s[k] == rv[j]);
        }
        assert forall|k: int| #![trigger s[k]] 0 <= k < s.len() implies exists|j: int|
            #![trigger rv[j]] 0 <= j < rv.len() && rv[j].github_id == s[k].github_id by {
            let j = choose|j: int| 0 <= j < r@.len() && r@[j].github_id == s[k].github_id;
            assert(rv[j].github_id == s[k].github_id);
        }
        assert forall|a: int, b: int| 0 <= a < rv.len() && 0 <= b < rv.len() && a != b implies
            rv[a].github_id != rv[b].github_id by {
            assert(r@[a].github_id != r@[b].github_id);
        }
        assert(ids_unique(rv));
        assert(is_merge_of(s, rv));
    }
    r
}

/// Whatever replies came in, a source identifier that any of them carries
/// appears exactly once in the merged result.
pub proof fn lemma_merged_once(pages: Seq<GitHubApiResponse>, r: Seq<CollectedView>, id: int)
    requires
        is_merge_of(all_items(pages), r),
        exists|k: int| 0 <= k < all_items(pages).len() && (#[trigger] all_items(pages)[k]).github_id == id,
    ensures
        exists|j: int| 0 <= j < r.len() && (#[trigger] r[j]).github_id == id,
        forall|a: int, b: int|
            0 <= a < r.len() && 0 <= b < r.len() && (#[trigger] r[a]).github_id == id
                && (#[trigger] r[b]).github_id == id ==> a == b,
{
    let s = all_items(pages);
    let k = choose|k: int| 0 <= k < s.len() && (#[trigger] s[k]).github_id == id;
    assert(s[k].github_id == id);
}

/// A collector for the code-hosting search API, holding its access token.
pub struct GitHubCollector {
    pub token: String,
}

impl GitHubCollector {
    /// A collector that authenticates with `token`.
    pub fn new(token: String) -> (r: GitHubCollector)
        ensures
            r.token@ == token@,
    {
        GitHubCollector { token }
    }

    /// The queries of one collection run, in order.
    pub fn queries(&self) -> (r: Vec<String>)
        ensures
            r@.map_values(|q: String| q@) == query_list(),
    {
        let mut r: Vec<String> = Vec::new();
        r.push(String::from_str("language:python deep-learning stars:>50 created:>2022-01-01"));
        r.push(String::from_str("topic:llm stars:>1000"));
        r.push(String::from_str("topic:transformer stars:>1000"));
        assert(r@.map_values(|q: String| q@) =~= query_list());
        r
    }

    /// The request that runs `query`: the thirty most-starred matches, most
    /// stars first, authenticated by the collector's token.
    pub fn search_request(&self, query: &str) -> (r: SearchRequest)
        ensures
            r.url@ == "https://api.github.com/search/repositories"@,
            r.authorization@ == "token "@ + self.token@,
            r.accept@ == "application/vnd.github.v3+json"@,
            r.user_agent@ == "tech_collector/0.1.0"@,
            r.query@.len() == 4,
            r.query@[0].0@ == "q"@ && r.query@[0].1@ == query@,
            r.query@[1].0@ == "sort"@ && r.query@[1].1@ == "stars"@,
            r.query@[2].0@ == "order"@ && r.query@[2].1@ == "desc"@,
            r.query@[3].0@ == "per_page"@ && r.query@[3].1@ == "30"@,
    {
        let authorization = String::from_str("token ").concat(self.token.as_str());
        let mut q: Vec<(String, String)> = Vec::new();
        q.push((String::from_str("q"), String::from_str(query)));
        q.push((String::from_str("sort"), String::from_str("stars")));
        q.push((String::from_str("order"), String::from_str("desc")));
        q.push((String::from_str("per_page"), String::from_str("30")));
        SearchRequest {
            url: String::from_str(SEARCH_URL),
            authorization,
            accept: String::from_str(ACCEPT),
            user_agent: String::from_str(USER_AGENT),
            query: q,
        }
    }

    /// The result of a collection run from the replies to its queries, in
    /// query order: every repository found, once per source identifier, with
    /// the values of its last sighting.
    pub fn search_ml_repositories(&self, pages: &Vec<GitHubApiResponse>) -> (r: Vec<CollectedRepository>)
        ensures
            is_merge_of(all_items(pages@), r@.map_values(|c: CollectedRepository| c@)),
    {
        let mut all: Vec<CollectedRepository> = Vec::new();
        let mut i: usize = 0;
        while i < pages.len()
            invariant
                i <= pages@.len(),
                all@.map_values(|c: CollectedRepository| c@) == all_items(pages@.subrange(0, i as int)),
            decreases pages@.len() - i,
        {
            let mut found = search_results(&pages[i]);
            let ghost before = all@;
            all.append(&mut found);
            proof {
                let next = pages@.subrange(0, i + 1);
                assert(next.drop_last() =~= pages@.subrange(0, i as int));
                assert(all@.map_values(|c: CollectedRepository| c@) =~= before.map_values(
                    |c: CollectedRepository| c@,
                ) + collected_seq(pages@[i as int].items@));
            }
            i = i + 1;
        }
        assert(pages@.subrange(0, pages@.len() as int) =~= pages@);
        merge_unique(&all)
    }
}

} // verus!
