//! Tests for the list of contexts.

use tessera_core::kubeconfig::{KubeConfig, KubeContext};
use tessera_core::list_contexts;
use tessera_core::policy::{Environment, Policy, PolicyFile, PolicySource};

#[test]
fn allowed_contexts_are_listed_with_their_environment() {
    let config = Ok(KubeConfig {
        current: Some("dev-a".into()),
        contexts: vec![
            KubeContext {
                name: "dev-a".into(),
                cluster: Some("c1".into()),
                user: Some("u".into()),
                namespace: Some("n".into()),
            },
            KubeContext { name: "old-b".into(), ..Default::default() },
            KubeContext { name: "prod-c".into(), ..Default::default() },
        ],
        users: vec![],
    });
    let file = PolicySource {
        path: "p".into(),
        content: Ok(PolicyFile { hidden_contexts: Some(vec!["old-*".into()]), ..Default::default() }),
    };
    let c = list_contexts(&Policy::from_files(Some(&file), None), &config).unwrap();
    assert_eq!(c.current.as_deref(), Some("dev-a"));
    let names: Vec<&str> = c.contexts.iter().map(|x| x.name.as_str()).collect();
    assert_eq!(names, vec!["dev-a", "prod-c"]);
    assert_eq!(c.contexts[0].environment, Environment::Development);
    assert_eq!(c.contexts[1].environment, Environment::Production);
    assert_eq!(c.contexts[0].cluster, "c1");
    assert_eq!(c.contexts[1].cluster, "");
}

#[test]
fn an_unreadable_kubeconfig_is_told() {
    let e = list_contexts(&Policy::default(), &Err("no file".into())).unwrap_err();
    assert_eq!(
        e,
        "Couldn't read a kubeconfig. Tessera looks at $KUBECONFIG, then ~/.kube/config. (no file)"
    );
}
