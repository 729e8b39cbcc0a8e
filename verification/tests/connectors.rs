use chart_drift::connectors::{
    dedup_charts,
    repo_add_command,
    repo_update_command,
    same_chart,
    same_text,
    search_command,
    Argo,
    Helm,
    Helmfile,
};
use chart_drift::types::{HelmChart, HelmRepo};

fn s(text: &str) -> String {
    text.to_string()
}

fn chart(name: Option<&str>, chart: Option<&str>, version: Option<&str>) -> HelmChart {
    HelmChart { name: name.map(s), chart: chart.map(s), version: version.map(s) }
}

#[test]
fn init_gives_the_backends() {
    assert_eq!(Argo::init(), Argo);
    assert_eq!(Helm::init(), Helm);
    assert_eq!(Helmfile::init(s("./"), s("default")), Helmfile::init(s("./"), s("default")));
}

#[test]
fn argo_commands() {
    assert_eq!(
        Argo::init().list_command(),
        "argocd app list -o json | jq '[.[] | {chart: .spec.source.chart, version: .spec.source.targetRevision}]'"
    );
    assert_eq!(
        Argo::init().repos_command(),
        "argocd app list -o json | jq '[ .[] | {name: .spec.source.chart, url: .spec.source.repoURL} ]'"
    );
}

#[test]
fn helmfile_commands() {
    let helmfile = Helmfile::init(s("/tmp/helmfile.yaml"), s("default"));
    assert_eq!(
        helmfile.list_command(),
        "helmfile -f /tmp/helmfile.yaml -e default list --output json | jq '[.[] | {chart: .chart, version: .version, name: .name}]'"
    );
    assert_eq!(helmfile.sync_command(), "helmfile -f /tmp/helmfile.yaml -e default sync");
}

#[test]
fn helm_commands() {
    assert_eq!(
        repo_add_command("argo", "https://argoproj.github.io/argo-helm"),
        "helm repo add argo https://argoproj.github.io/argo-helm"
    );
    assert_eq!(repo_update_command(), "helm repo update");
    assert_eq!(
        search_command("argo/argo-cd"),
        "helm search repo argo/argo-cd --versions --output json"
    );
}

#[test]
fn sync_plan_adds_named_repos_then_updates() {
    let repos = vec![
        HelmRepo { name: Some(s("argo")), url: s("https://a.example") },
        HelmRepo { name: None, url: s("https://b.example") },
        HelmRepo { name: Some(s("bitnami")), url: s("https://c.example") },
    ];
    assert_eq!(
        Argo::init().sync_plan(&repos),
        vec![
            s("helm repo add argo https://a.example"),
            s("helm repo add bitnami https://c.example"),
            s("helm repo update"),
        ]
    );
    assert_eq!(Argo::init().sync_plan(&Vec::new()), vec![s("helm repo update")]);
}

#[test]
fn same_text_and_same_chart() {
    assert!(same_text(&None, &None));
    assert!(same_text(&Some(s("a")), &Some(s("a"))));
    assert!(!same_text(&Some(s("a")), &Some(s("b"))));
    assert!(!same_text(&Some(s("")), &None));
    let a = chart(Some("argocd"), Some("argo/argo-cd"), Some("5.23.3"));
    assert!(same_chart(&a, &a.clone()));
    assert!(!same_chart(&a, &chart(None, Some("argo/argo-cd"), Some("5.23.3"))));
    assert!(!same_chart(&a, &chart(Some("argocd"), Some("argo/argo"), Some("5.23.3"))));
    assert!(!same_chart(&a, &chart(Some("argocd"), Some("argo/argo-cd"), Some("5.23.4"))));
}

#[test]
fn dedup_drops_immediate_repetitions_only() {
    let a = chart(Some("argocd"), Some("argo/argo-cd"), Some("5.23.3"));
    let b = chart(None, Some("argo/argo-cd"), Some("5.23.3"));
    let given = vec![a.clone(), a.clone(), b.clone(), a.clone(), b.clone(), b.clone(), b.clone()];
    assert_eq!(dedup_charts(given), vec![a.clone(), b.clone(), a.clone(), b.clone()]);
    assert_eq!(dedup_charts(Vec::new()), Vec::<HelmChart>::new());
    assert_eq!(dedup_charts(vec![a.clone()]), vec![a]);
}

#[test]
fn test_helmfile() {
    let path = s("/tmp/helmfile.yaml");
    let helmfile = Helmfile::init(path.clone(), "default".to_string());
    assert!(helmfile.list_command().starts_with("helmfile -f /tmp/helmfile.yaml -e default list"));
    let app = HelmChart {
        chart: Some("argo/argo-cd".to_string()),
        name: Some("argocd".to_string()),
        version: Some("5.23.3".to_string()),
    };
    let apps: Vec<HelmChart> = vec![app.clone()];
    assert_eq!(apps, dedup_charts(vec![app.clone(), app]));
}
