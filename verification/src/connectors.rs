//! The backends that releases are read from, and the command lines that an
//! audit runs against them.
//!
//! Nothing here runs a command: each function says which command line is to
//! be run, and the caller runs it.

use vstd::prelude::*;
use crate::types::{text_of, ChartView, HelmChart, HelmRepo};

verus! {

/// Releases managed by Argo CD.
#[derive(Clone, Copy, Debug, PartialEq, Eq, Structural)]
pub struct Argo;

/// Releases installed with Helm alone.
#[derive(Clone, Copy, Debug, PartialEq, Eq, Structural)]
pub struct Helm;

/// Releases declared in a helmfile.
#[derive(Clone, Debug, PartialEq, Eq)]
pub struct Helmfile {
    path: String,
    env: String,
}

/// Where a helmfile lies and which of its environments is meant.
pub ghost struct HelmfileView {
    pub path: Seq<char>,
    pub env: Seq<char>,
}

impl View for Helmfile {
    type V = HelmfileView;

    closed spec fn view(&self) -> HelmfileView {
        HelmfileView { path: self.path@, env: self.env@ }
    }
}

/// The command line that lists the charts and versions of all Argo CD
/// applications.
pub open spec fn argo_list_command() -> Seq<char> {
    "argocd app list -o json | jq '[.[] | {chart: .spec.source.chart, version: .spec.source.targetRevision}]'"@
}

/// The command line that lists the chart repositories of all Argo CD
/// applications.
pub open spec fn argo_repos_command() -> Seq<char> {
    "argocd app list -o json | jq '[ .[] | {name: .spec.source.chart, url: .spec.source.repoURL} ]'"@
}

/// The command line that lists the releases of a helmfile.
pub open spec fn helmfile_list_command(helmfile: HelmfileView) -> Seq<char> {
    "helmfile -f "@ + helmfile.path + " -e "@ + helmfile.env
        + " list --output json | jq '[.[] | {chart: .chart, version: .version, name: .name}]'"@
}

/// The command line that syncs a helmfile.
pub open spec fn helmfile_sync_command(helmfile: HelmfileView) -> Seq<char> {
    "helmfile -f "@ + helmfile.path + " -e "@ + helmfile.env + " sync"@
}

/// The command line that registers a repository under a name.
pub open spec fn repo_add_command_spec(name: Seq<char>, url: Seq<char>) -> Seq<char> {
    "helm repo add "@ + name + " "@ + url
}

/// The command line that refreshes all registered repositories.
pub open spec fn repo_update_command_spec() -> Seq<char> {
    "helm repo update"@
}

/// The command line that asks for all versions of a chart.
pub open spec fn search_command_spec(chart: Seq<char>) -> Seq<char> {
    "helm search repo "@ + chart + " --versions --output json"@
}

/// The characters of each string, in order.
pub open spec fn texts(lines: Seq<String>) -> Seq<Seq<char>> {
    lines.map_values(|line: String| line@)
}

/// The commands that register the named repositories, one for each and in
/// their order; a repository without a name gets none.
pub open spec fn add_commands(repos: Seq<HelmRepo>) -> Seq<Seq<char>> {
    repos.filter(|repo: HelmRepo| repo.name is Some).map_values(
        |repo: HelmRepo| repo_add_command_spec(repo.name->0@, repo.url@),
    )
}

/// The commands that bring the local repositories in line with the given
/// ones: every named repository is registered, then all are refreshed.
pub open spec fn sync_plan_spec(repos: Seq<HelmRepo>) -> Seq<Seq<char>> {
    add_commands(repos).push(repo_update_command_spec())
}

/// One more repository adds its command at the end if it has a name, and
/// nothing otherwise.
proof fn lemma_add_commands_step(repos: Seq<HelmRepo>)
    requires
        repos.len() > 0,
    ensures
        add_commands(repos) == match repos.last().name {
            Some(name) => add_commands(repos.drop_last()).push(
                repo_add_command_spec(name@, repos.last().url@),
            ),
            None => add_commands(repos.drop_last()),
        },
{
    reveal(Seq::filter);
    let named = |repo: HelmRepo| repo.name is Some;
    let earlier = repos.drop_last().filter(named);
    if repos.last().name is Some {
        assert(repos.filter(named) == earlier.push(repos.last()));
        assert(add_commands(repos) =~= add_commands(repos.drop_last()).push(
            repo_add_command_spec(repos.last().name->0@, repos.last().url@),
        ));
    } else {
        assert(repos.filter(named) == earlier);
    }
}

impl Argo {
    pub fn init() -> (argo: Argo)
        ensures
            argo == Argo,
    {
        Argo
    }

    /// The command lines that sync the repositories of the applications, in
    /// the order in which they are to be run. A command that fails does not
    /// stop the ones after it.
    pub fn sync_plan(&self, repos: &Vec<HelmRepo>) -> (plan: Vec<String>)
        ensures
            texts(plan@) == sync_plan_spec(repos@),
    {
        let mut plan: Vec<String> = Vec::new();
        let mut i: usize = 0;
        assert(repos@.take(0) =~= Seq::<HelmRepo>::empty());
        while i < repos.len()
            invariant
                i <= repos.len(),
                texts(plan@) =~= add_commands(repos@.take(i as int)),
            decreases repos.len() - i,
        {
            proof {
                lemma_add_commands_step(repos@.take(i + 1));
                assert(repos@.take(i + 1).drop_last() =~= repos@.take(i as int));
            }
            if let Some(name) = &repos[i].name {
                plan.push(repo_add_command(name.as_str(), repos[i].url.as_str()));
            }
            i += 1;
        }
        assert(repos@.take(repos.len() as int) =~= repos@);
        plan.push(repo_update_command());
        assert(texts(plan@) =~= sync_plan_spec(repos@));
        plan
    }

    /// The command line whose output is the inventory of releases.
    pub fn list_command(&self) -> (command: String)
        ensures
            command@ == argo_list_command(),
    {
        String::from_str(
            "argocd app list -o json | jq '[.[] | {chart: .spec.source.chart, version: .spec.source.targetRevision}]'",
        )
    }

    /// The command line whose output is the list of repositories to register.
    pub fn repos_command(&self) -> (command: String)
        ensures
            command@ == argo_repos_command(),
    {
        String::from_str(
            "argocd app list -o json | jq '[ .[] | {name: .spec.source.chart, url: .spec.source.repoURL} ]'",
        )
    }
}

impl Helm {
    pub fn init() -> (helm: Helm)
        ensures
            helm == Helm,
    {
        Helm
    }
}

impl Helmfile {
    /// A helmfile at `path`, read in the environment `env`.
    pub fn init(path: String, env: String) -> (helmfile: Self)
        ensures
            helmfile@ == (HelmfileView { path: path@, env: env@ }),
    {
        Self { path, env }
    }

    /// The command line whose output is the inventory of releases.
    pub fn list_command(&self) -> (command: String)
        ensures
            command@ == helmfile_list_command(self@),
    {
        let mut command = String::from_str("helmfile -f ");
        command.append(self.path.as_str());
        command.append(" -e ");
        command.append(self.env.as_str());
        command.append(
            " list --output json | jq '[.[] | {chart: .chart, version: .version, name: .name}]'",
        );
        command
    }

    /// The command line that syncs the helmfile and with it its repositories.
    pub fn sync_command(&self) -> (command: String)
        ensures
            command@ == helmfile_sync_command(self@),
    {
        let mut command = String::from_str("helmfile -f ");
        command.append(self.path.as_str());
        command.append(" -e ");
        command.append(self.env.as_str());
        command.append(" sync");
        command
    }
}

/// The command line that registers the repository at `url` under `name`.
pub fn repo_add_command(name: &str, url: &str) -> (command: String)
    ensures
        command@ == repo_add_command_spec(name@, url@),
{
    let mut command = String::from_str("helm repo add ");
    command.append(name);
    command.append(" ");
    command.append(url);
    command
}

/// The command line that refreshes all registered repositories.
pub fn repo_update_command() -> (command: String)
    ensures
        command@ == repo_update_command_spec(),
{
    String::from_str("helm repo update")
}

/// The command line that asks the repositories for all versions of a chart.
pub fn search_command(chart: &str) -> (command: String)
    ensures
        command@ == search_command_spec(chart@),
{
    let mut command = String::from_str("helm search repo ");
    command.append(chart);
    command.append(" --versions --output json");
    command
}

/// The charts without immediate repetitions: of every run of equal records
/// one is kept.
pub open spec fn dedup_spec(charts: Seq<ChartView>) -> Seq<ChartView>
    decreases charts.len(),
{
    if charts.len() == 0 {
        charts
    } else if charts.len() >= 2 && charts[charts.len() - 2] == charts.last() {
        dedup_spec(charts.drop_last())
    } else {
        dedup_spec(charts.drop_last()).push(charts.last())
    }
}

/// The views of the charts, in order.
pub open spec fn chart_views(charts: Seq<HelmChart>) -> Seq<ChartView> {
    charts.map_values(|chart: HelmChart| chart@)
}

/// Tells whether two optional strings say the same.
pub fn same_text(a: &Option<String>, b: &Option<String>) -> (same: bool)
    ensures
        same == (text_of(*a) == text_of(*b)),
{
    match (a, b) {
        (Some(x), Some(y)) => *x == *y,
        (None, None) => true,
        _ => false,
    }
}

/// Tells whether two records say the same.
pub fn same_chart(a: &HelmChart, b: &HelmChart) -> (same: bool)
    ensures
        same == (a@ == b@),
{
    same_text(&a.name, &b.name) && same_text(&a.chart, &b.chart) && same_text(
        &a.version,
        &b.version,
    )
}

/// Drops every record that repeats the one just before it, as an inventory
/// is cleaned up after it was read.
pub fn dedup_charts(charts: Vec<HelmChart>) -> (kept: Vec<HelmChart>)
    ensures
        chart_views(kept@) == dedup_spec(chart_views(charts@)),
{
    let ghost given = charts@;
    let mut kept: Vec<HelmChart> = Vec::new();
    assert(chart_views(given.take(0)) =~= Seq::<ChartView>::empty());
    for chart in it: charts.into_iter()
        invariant
            it.seq() == given,
            chart_views(kept@) =~= dedup_spec(chart_views(given.take(it.index() as int))),
            it.index() > 0 ==> kept@.len() > 0 && kept@.last()@ == given[it.index() - 1]@,
    {
        let ghost n = it.index() as int;
        proof {
            let longer = chart_views(given.take(n + 1));
            assert(longer.drop_last() =~= chart_views(given.take(n)));
            assert(longer.last() == chart@);
            if n > 0 {
                assert(longer[n - 1] == given[n - 1]@);
            }
        }
        let repeats = kept.len() > 0 && same_chart(&kept[kept.len() - 1], &chart);
        if !repeats {
            kept.push(chart);
        }
    }
    assert(given.take(given.len() as int) =~= given);
    kept
}

} // verus!
