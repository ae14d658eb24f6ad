use kftray_portforward::deploy::{
    deploy_and_forward_pod, deploy_step, ClientOutcome, DeployCommand, DeployEvent, DeployPhase,
    DeployRun,
};
use kftray_portforward::model::{Config, CustomResponse};
use kftray_portforward::naming::{
    ascii_lower, clean_username, find_helper_pod, helper_pod_name, new_helper_pod_name,
    own_helper_pods, select_helper_pods, PodRef, PodTarget,
};
use kftray_portforward::stop_proxy::{
    stop_proxy_forward, stop_proxy_step, PodListing, StopProxyCommand, StopProxyEvent,
    StopProxyPhase, StopProxyRun,
};

fn proxy_config() -> Config {
    let mut config = Config::empty();
    config.id = Some(5);
    config.service = Some("db".to_string());
    config.namespace = "tools".to_string();
    config.remote_port = Some(5432);
    config.local_port = Some(15432);
    config.protocol = "TCP".to_string();
    config.workload_type = Some("proxy".to_string());
    config.context = "dev".to_string();
    config.kubeconfig = Some("/k".to_string());
    config.remote_address = Some("db.internal".to_string());
    config
}

fn suffix() -> Vec<char> {
    "aB3dE9".chars().collect()
}

const POD: &str = "kftray-forward-jdoe-tcp-1700000000-ab3de9";

fn response(id: i64) -> CustomResponse {
    CustomResponse {
        id: Some(id),
        service: POD.to_string(),
        namespace: "tools".to_string(),
        local_port: 15432,
        remote_port: 5432,
        context: "dev".to_string(),
        protocol: "TCP".to_string(),
        stdout: "ok".to_string(),
        stderr: String::new(),
        status: 0,
    }
}

fn connected() -> DeployEvent {
    DeployEvent::Connected { client: ClientOutcome::Ready, unix_seconds: Ok(1700000000) }
}

fn ready_run() -> DeployRun {
    let mut run = DeployRun::new(vec![proxy_config()]);
    deploy_step(&mut run, DeployEvent::Begin, "J.Doe", &suffix());
    deploy_step(&mut run, connected(), "J.Doe", &suffix());
    deploy_step(
        &mut run,
        DeployEvent::ManifestLoaded(Ok("{hashed_name}".to_string())),
        "J.Doe",
        &suffix(),
    );
    deploy_step(&mut run, DeployEvent::PodCreated(Ok(())), "J.Doe", &suffix());
    run
}

#[test]
fn helper_pod_name_format() {
    assert_eq!(helper_pod_name("J.Doe", "TCP", 1700000000, &suffix()), POD);
    assert_eq!(
        helper_pod_name("root", "udp", 0, &"zzzzzz".chars().collect()),
        "kftray-forward-root-udp-0-zzzzzz"
    );
    assert_eq!(clean_username("J.Doe-2 x"), "jdoe2x");
    assert_eq!(clean_username("Ünïcode_1"), "ünïcode1");
    assert_eq!(ascii_lower('Q'), 'q');
    assert_eq!(ascii_lower('q'), 'q');
    assert_eq!(ascii_lower('1'), '1');
    assert_eq!(ascii_lower('É'), 'É');
    for c in ['A', 'Z', 'a', 'z', '0', '@', '[', 'É', '_'] {
        assert_eq!(ascii_lower(c), c.to_ascii_lowercase());
    }
}

#[test]
fn new_helper_pod_name_has_random_suffix_of_six() {
    let first = new_helper_pod_name("UDP", 1700000000);
    assert!(first.starts_with("kftray-forward-"));
    let parts: Vec<&str> = first.split('-').collect();
    assert_eq!(parts.len(), 6);
    assert_eq!(parts[3], "udp");
    assert_eq!(parts[4], "1700000000");
    assert_eq!(parts[5].chars().count(), 6);
    assert!(parts[5].chars().all(|c| c.is_ascii_lowercase() || c.is_ascii_digit()));
    assert!(parts[2].chars().all(|c| c.is_alphanumeric()));
    assert_eq!(parts[2], parts[2].to_lowercase());
    let mut differs = false;
    for _ in 0..20 {
        if new_helper_pod_name("UDP", 1700000000) != first {
            differs = true;
        }
    }
    assert!(differs);
}

fn pod(name: Option<&str>, namespace: Option<&str>) -> PodRef {
    PodRef { name: name.map(|s| s.to_string()), namespace: namespace.map(|s| s.to_string()) }
}

#[test]
fn helper_pods_are_found_by_prefix() {
    let pods = vec![
        pod(Some("other-pod"), Some("a")),
        pod(None, Some("a")),
        pod(Some("kftray-forward-jdoe-tcp-1-abcdef"), Some("tools")),
        pod(Some("kftray-forward-jane-tcp-1-abcdef"), Some("tools")),
        pod(Some("kftray-forward-jdoe2-udp-2-abcdef"), None),
    ];
    assert_eq!(
        select_helper_pods(&pods, "jdoe"),
        vec![
            PodTarget {
                namespace: "tools".to_string(),
                name: "kftray-forward-jdoe-tcp-1-abcdef".to_string(),
            },
            PodTarget {
                namespace: "default".to_string(),
                name: "kftray-forward-jdoe2-udp-2-abcdef".to_string(),
            },
        ]
    );
    assert_eq!(
        find_helper_pod(&pods, "jdoe"),
        Some("kftray-forward-jdoe-tcp-1-abcdef".to_string())
    );
    assert_eq!(
        find_helper_pod(&pods, "jane"),
        Some("kftray-forward-jane-tcp-1-abcdef".to_string())
    );
    assert_eq!(find_helper_pod(&pods, "nobody"), None);
    assert!(select_helper_pods(&pods, "nobody").is_empty());
    assert!(select_helper_pods(&Vec::new(), "jdoe").is_empty());
}

#[test]
fn helper_pods_are_found_for_any_user_name() {
    for user in ["John.Doe", "jdoe", "ROOT", "svc-account_1", "Ünï Code", ""] {
        let name = helper_pod_name(user, "TCP", 1700000000, &suffix());
        let pods = vec![pod(Some("unrelated"), Some("a")), pod(Some(&name), Some("tools"))];
        assert_eq!(
            select_helper_pods(&pods, user),
            vec![PodTarget { namespace: "tools".to_string(), name: name.clone() }],
            "{}",
            user
        );
        assert_eq!(find_helper_pod(&pods, user), Some(name), "{}", user);
    }
    let pods = vec![pod(Some("kftray-forward-johndoe-tcp-1-abcdef"), None)];
    assert_eq!(
        find_helper_pod(&pods, "John.Doe"),
        Some("kftray-forward-johndoe-tcp-1-abcdef".to_string())
    );
    let raw = vec![pod(Some("kftray-forward-John.Doe-tcp-1-abcdef"), None)];
    assert_eq!(find_helper_pod(&raw, "John.Doe"), None);
}

#[test]
fn own_helper_pods_are_a_selection_of_the_listed_pods() {
    let pods = vec![pod(Some("other-pod"), Some("a")), pod(None, None)];
    assert!(own_helper_pods(&pods).is_empty());
    let user = clean_username(&whoami::username());
    let name = format!("kftray-forward-{}-tcp-1-abcdef", user);
    let pods = vec![pod(Some("other-pod"), Some("a")), pod(Some(&name), Some("ns"))];
    assert_eq!(own_helper_pods(&pods), vec![PodTarget { namespace: "ns".to_string(), name }]);
}

#[test]
fn deploy_and_forward_happy_path() {
    let mut run = DeployRun::new(vec![proxy_config()]);
    assert_eq!(run.phase(), DeployPhase::Ready);
    let next = deploy_step(&mut run, DeployEvent::Begin, "J.Doe", &suffix());
    assert_eq!(
        next,
        DeployCommand::Connect { kubeconfig: Some("/k".to_string()), context: "dev".to_string() }
    );
    let next = deploy_step(&mut run, connected(), "J.Doe", &suffix());
    assert_eq!(next, DeployCommand::LoadManifest);

    let template = "{hashed_name}|{config_id}|{service_name}|{remote_address}|{remote_port}|{local_port}|{protocol}|{other}";
    let next = deploy_step(
        &mut run,
        DeployEvent::ManifestLoaded(Ok(template.to_string())),
        "J.Doe",
        &suffix(),
    );
    assert_eq!(
        next,
        DeployCommand::CreatePod {
            namespace: "tools".to_string(),
            manifest: format!("{}|5|db|db.internal|5432|5432|tcp|{{other}}", POD),
        }
    );

    let next = deploy_step(&mut run, DeployEvent::PodCreated(Ok(())), "J.Doe", &suffix());
    assert_eq!(
        next,
        DeployCommand::AwaitReady { namespace: "tools".to_string(), name: POD.to_string() }
    );

    let next = deploy_step(&mut run, DeployEvent::PodReady(Ok(())), "J.Doe", &suffix());
    let mut expected = proxy_config();
    expected.service = Some(POD.to_string());
    assert_eq!(next, DeployCommand::Start { config: expected, protocol: "tcp".to_string() });
    assert_eq!(run.phase(), DeployPhase::Starting);

    let next =
        deploy_step(&mut run, DeployEvent::Started(Ok(vec![response(5)])), "J.Doe", &suffix());
    assert_eq!(next, DeployCommand::Finished(Ok(vec![response(5)])));
    assert_eq!(run.phase(), DeployPhase::Done);
}

#[test]
fn deploy_and_forward_readiness_timeout() {
    let mut run = ready_run();
    assert_eq!(run.phase(), DeployPhase::Waiting);
    let next = deploy_step(
        &mut run,
        DeployEvent::PodReady(Err("timed out waiting for pod".to_string())),
        "J.Doe",
        &suffix(),
    );
    assert_eq!(
        next,
        DeployCommand::DeletePod {
            namespace: "tools".to_string(),
            name: POD.to_string(),
            grace_period_seconds: Some(0),
        }
    );
    assert_eq!(run.phase(), DeployPhase::Deleting);
    let next = deploy_step(&mut run, DeployEvent::PodDeleted, "J.Doe", &suffix());
    assert_eq!(next, DeployCommand::Finished(Err("timed out waiting for pod".to_string())));
    assert_eq!(run.phase(), DeployPhase::Done);
}

#[test]
fn deploy_start_failure_deletes_pod() {
    let mut run = ready_run();
    deploy_step(&mut run, DeployEvent::PodReady(Ok(())), "J.Doe", &suffix());
    let next = deploy_step(
        &mut run,
        DeployEvent::Started(Err("address in use".to_string())),
        "J.Doe",
        &suffix(),
    );
    assert_eq!(
        next,
        DeployCommand::DeletePod {
            namespace: "tools".to_string(),
            name: POD.to_string(),
            grace_period_seconds: None,
        }
    );
    let next = deploy_step(&mut run, DeployEvent::PodDeleted, "J.Doe", &suffix());
    assert_eq!(
        next,
        DeployCommand::Finished(Err("Failed to start port forwarding address in use".to_string()))
    );
}

#[test]
fn deploy_start_without_summary_deletes_pod() {
    let mut run = ready_run();
    deploy_step(&mut run, DeployEvent::PodReady(Ok(())), "J.Doe", &suffix());
    let next = deploy_step(&mut run, DeployEvent::Started(Ok(Vec::new())), "J.Doe", &suffix());
    assert!(matches!(next, DeployCommand::DeletePod { grace_period_seconds: None, .. }));
    let next = deploy_step(&mut run, DeployEvent::PodDeleted, "J.Doe", &suffix());
    assert_eq!(
        next,
        DeployCommand::Finished(Err("No response received from port forwarding".to_string()))
    );
}

#[test]
fn deploy_unsupported_proxy_type_deletes_pod() {
    let mut config = proxy_config();
    config.protocol = "SCTP".to_string();
    let mut run = DeployRun::new(vec![config]);
    deploy_step(&mut run, DeployEvent::Begin, "u", &suffix());
    deploy_step(&mut run, connected(), "u", &suffix());
    deploy_step(&mut run, DeployEvent::ManifestLoaded(Ok("{}".to_string())), "u", &suffix());
    deploy_step(&mut run, DeployEvent::PodCreated(Ok(())), "u", &suffix());
    let next = deploy_step(&mut run, DeployEvent::PodReady(Ok(())), "u", &suffix());
    assert_eq!(
        next,
        DeployCommand::DeletePod {
            namespace: "tools".to_string(),
            name: "kftray-forward-u-sctp-1700000000-ab3de9".to_string(),
            grace_period_seconds: None,
        }
    );
    let next = deploy_step(&mut run, DeployEvent::PodDeleted, "u", &suffix());
    assert_eq!(next, DeployCommand::Finished(Err("Unsupported proxy type".to_string())));
}

#[test]
fn deploy_failures_before_the_pod_exists_end_the_call() {
    let begin = || {
        let mut run = DeployRun::new(vec![proxy_config()]);
        deploy_step(&mut run, DeployEvent::Begin, "u", &suffix());
        run
    };
    let mut run = begin();
    let next = deploy_step(
        &mut run,
        DeployEvent::Connected {
            client: ClientOutcome::Failed("no route".to_string()),
            unix_seconds: Ok(1),
        },
        "u",
        &suffix(),
    );
    assert_eq!(next, DeployCommand::Finished(Err("no route".to_string())));

    let mut run = begin();
    let next = deploy_step(
        &mut run,
        DeployEvent::Connected { client: ClientOutcome::Missing, unix_seconds: Ok(1) },
        "u",
        &suffix(),
    );
    assert_eq!(next, DeployCommand::Finished(Err("Client not created".to_string())));

    let mut run = begin();
    let next = deploy_step(
        &mut run,
        DeployEvent::Connected {
            client: ClientOutcome::Ready,
            unix_seconds: Err("clock went backwards".to_string()),
        },
        "u",
        &suffix(),
    );
    assert_eq!(next, DeployCommand::Finished(Err("clock went backwards".to_string())));

    let mut run = begin();
    deploy_step(&mut run, connected(), "u", &suffix());
    let next = deploy_step(
        &mut run,
        DeployEvent::ManifestLoaded(Err("No such file".to_string())),
        "u",
        &suffix(),
    );
    assert_eq!(next, DeployCommand::Finished(Err("No such file".to_string())));

    let mut run = begin();
    deploy_step(&mut run, connected(), "u", &suffix());
    deploy_step(&mut run, DeployEvent::ManifestLoaded(Ok("{}".to_string())), "u", &suffix());
    let next = deploy_step(
        &mut run,
        DeployEvent::PodCreated(Err("forbidden".to_string())),
        "u",
        &suffix(),
    );
    assert_eq!(next, DeployCommand::Finished(Err("forbidden".to_string())));
}

#[test]
fn deploy_defaults_remote_address_to_service() {
    for address in [None, Some(String::new())] {
        let mut config = proxy_config();
        config.remote_address = address;
        config.id = None;
        let mut run = DeployRun::new(vec![config.clone()]);
        deploy_step(&mut run, DeployEvent::Begin, "u", &suffix());
        deploy_step(&mut run, connected(), "u", &suffix());
        let next = deploy_step(
            &mut run,
            DeployEvent::ManifestLoaded(Ok("{config_id}/{remote_address}".to_string())),
            "u",
            &suffix(),
        );
        assert_eq!(
            next,
            DeployCommand::CreatePod {
                namespace: "tools".to_string(),
                manifest: "default/db".to_string(),
            }
        );
        deploy_step(&mut run, DeployEvent::PodCreated(Ok(())), "u", &suffix());
        let next = deploy_step(&mut run, DeployEvent::PodReady(Ok(())), "u", &suffix());
        match next {
            DeployCommand::Start { config: started, protocol } => {
                assert_eq!(started.remote_address, Some("db".to_string()));
                assert_eq!(
                    started.service,
                    Some("kftray-forward-u-tcp-1700000000-ab3de9".to_string())
                );
                assert_eq!(protocol, "tcp");
            }
            other => panic!("unexpected command {:?}", other),
        }
    }
}

#[test]
fn deploy_two_configs_and_empty_list() {
    let mut second = proxy_config();
    second.id = Some(6);
    second.protocol = "udp".to_string();
    let mut run = DeployRun::new(vec![proxy_config(), second]);
    deploy_step(&mut run, DeployEvent::Begin, "u", &suffix());
    deploy_step(&mut run, connected(), "u", &suffix());
    deploy_step(&mut run, DeployEvent::ManifestLoaded(Ok("{}".to_string())), "u", &suffix());
    deploy_step(&mut run, DeployEvent::PodCreated(Ok(())), "u", &suffix());
    deploy_step(&mut run, DeployEvent::PodReady(Ok(())), "u", &suffix());
    let next = deploy_step(
        &mut run,
        DeployEvent::Started(Ok(vec![response(1), response(5)])),
        "u",
        &suffix(),
    );
    assert!(matches!(next, DeployCommand::Connect { .. }));
    deploy_step(&mut run, connected(), "u", &suffix());
    deploy_step(&mut run, DeployEvent::ManifestLoaded(Ok("{}".to_string())), "u", &suffix());
    deploy_step(&mut run, DeployEvent::PodCreated(Ok(())), "u", &suffix());
    let next = deploy_step(&mut run, DeployEvent::PodReady(Ok(())), "u", &suffix());
    assert!(matches!(next, DeployCommand::Start { ref protocol, .. } if protocol == "udp"));
    let next = deploy_step(&mut run, DeployEvent::Started(Ok(vec![response(6)])), "u", &suffix());
    assert_eq!(next, DeployCommand::Finished(Ok(vec![response(5), response(6)])));

    let mut empty = DeployRun::new(Vec::new());
    assert_eq!(
        deploy_and_forward_pod(&mut empty, DeployEvent::Begin),
        DeployCommand::Finished(Ok(Vec::new()))
    );
}

#[test]
fn deploy_names_the_pod_after_the_current_user() {
    let mut run = DeployRun::new(vec![proxy_config()]);
    assert!(run.can_take(&DeployEvent::Begin));
    assert!(!run.can_take(&DeployEvent::PodDeleted));
    deploy_and_forward_pod(&mut run, DeployEvent::Begin);
    assert!(run.can_take(&connected()));
    deploy_and_forward_pod(&mut run, connected());
    let next = deploy_and_forward_pod(
        &mut run,
        DeployEvent::ManifestLoaded(Ok("{hashed_name}".to_string())),
    );
    match next {
        DeployCommand::CreatePod { manifest, .. } => {
            assert!(manifest.starts_with("kftray-forward-"));
            assert!(manifest.contains("-tcp-1700000000-"));
            assert_eq!(manifest, manifest.to_lowercase());
        }
        other => panic!("unexpected command {:?}", other),
    }
}

#[test]
fn deploy_needs_service_and_remote_port_to_name_a_pod() {
    let mut config = proxy_config();
    config.remote_port = None;
    let mut run = DeployRun::new(vec![config]);
    deploy_and_forward_pod(&mut run, DeployEvent::Begin);
    assert!(!run.can_take(&connected()));
    assert!(run.can_take(&DeployEvent::Connected {
        client: ClientOutcome::Missing,
        unix_seconds: Ok(1),
    }));
}

fn stopped() -> CustomResponse {
    CustomResponse {
        id: None,
        service: "db".to_string(),
        namespace: String::new(),
        local_port: 0,
        remote_port: 0,
        context: String::new(),
        protocol: String::new(),
        stdout: "Service port forwarding has been stopped".to_string(),
        stderr: String::new(),
        status: 0,
    }
}

#[test]
fn stop_proxy_deletes_first_helper_pod_then_stops() {
    let mut run = StopProxyRun::new(5, "tools");
    assert_eq!(run.phase(), StopProxyPhase::Ready);
    let next = stop_proxy_step(&mut run, StopProxyEvent::Begin, "jdoe");
    assert_eq!(next, StopProxyCommand::LoadConfig(5));
    let next = stop_proxy_step(&mut run, StopProxyEvent::ConfigLoaded(Ok(proxy_config())), "jdoe");
    assert_eq!(
        next,
        StopProxyCommand::ListPods {
            kubeconfig: "/k".to_string(),
            context: "dev".to_string(),
            namespace: "tools".to_string(),
            selector: "config_id=5".to_string(),
        }
    );
    let pods = vec![
        pod(Some("unrelated"), Some("tools")),
        pod(Some("kftray-forward-jdoe-tcp-1-aaaaaa"), Some("tools")),
        pod(Some("kftray-forward-jdoe-tcp-2-bbbbbb"), Some("tools")),
    ];
    let next =
        stop_proxy_step(&mut run, StopProxyEvent::PodsListed(PodListing::Listed(pods)), "jdoe");
    assert_eq!(
        next,
        StopProxyCommand::DeletePod {
            namespace: "tools".to_string(),
            name: "kftray-forward-jdoe-tcp-1-aaaaaa".to_string(),
        }
    );
    let next = stop_proxy_step(&mut run, StopProxyEvent::PodDeleted(Ok(())), "jdoe");
    assert_eq!(next, StopProxyCommand::StopForward("5".to_string()));
    let next = stop_proxy_step(&mut run, StopProxyEvent::Stopped(Ok(stopped())), "jdoe");
    assert_eq!(next, StopProxyCommand::Finished(Ok(stopped())));
    assert_eq!(run.phase(), StopProxyPhase::Done);
}

#[test]
fn stop_proxy_deletes_the_pod_that_deploy_named() {
    let mut deploy = DeployRun::new(vec![proxy_config()]);
    deploy_step(&mut deploy, DeployEvent::Begin, "John.Doe", &suffix());
    deploy_step(&mut deploy, connected(), "John.Doe", &suffix());
    deploy_step(
        &mut deploy,
        DeployEvent::ManifestLoaded(Ok("{}".to_string())),
        "John.Doe",
        &suffix(),
    );
    let named = match deploy_step(&mut deploy, DeployEvent::PodCreated(Ok(())), "John.Doe", &suffix())
    {
        DeployCommand::AwaitReady { name, .. } => name,
        other => panic!("unexpected command {:?}", other),
    };
    assert_eq!(named, "kftray-forward-johndoe-tcp-1700000000-ab3de9");

    let mut run = StopProxyRun::new(5, "tools");
    stop_proxy_step(&mut run, StopProxyEvent::Begin, "John.Doe");
    stop_proxy_step(&mut run, StopProxyEvent::ConfigLoaded(Ok(proxy_config())), "John.Doe");
    let next = stop_proxy_step(
        &mut run,
        StopProxyEvent::PodsListed(PodListing::Listed(vec![pod(Some(&named), Some("tools"))])),
        "John.Doe",
    );
    assert_eq!(
        next,
        StopProxyCommand::DeletePod { namespace: "tools".to_string(), name: named }
    );
}

#[test]
fn stop_proxy_without_helper_pod_still_stops() {
    let mut run = StopProxyRun::new(-5, "tools");
    stop_proxy_forward(&mut run, StopProxyEvent::Begin);
    stop_proxy_forward(&mut run, StopProxyEvent::ConfigLoaded(Ok(proxy_config())));
    let next = stop_proxy_forward(
        &mut run,
        StopProxyEvent::PodsListed(PodListing::Listed(vec![pod(Some("unrelated"), None)])),
    );
    assert_eq!(next, StopProxyCommand::StopForward("-5".to_string()));
    let next = stop_proxy_forward(&mut run, StopProxyEvent::Stopped(Err("nope".to_string())));
    assert_eq!(next, StopProxyCommand::Finished(Err("nope".to_string())));
}

#[test]
fn stop_proxy_errors_end_the_call() {
    let mut run = StopProxyRun::new(5, "tools");
    stop_proxy_forward(&mut run, StopProxyEvent::Begin);
    assert!(run.can_take(&StopProxyEvent::ConfigLoaded(Err(String::new()))));
    assert!(!run.can_take(&StopProxyEvent::Begin));
    assert_eq!(
        stop_proxy_forward(&mut run, StopProxyEvent::ConfigLoaded(Err("missing".to_string()))),
        StopProxyCommand::Finished(Err("missing".to_string()))
    );

    let mut run = StopProxyRun::new(5, "tools");
    stop_proxy_forward(&mut run, StopProxyEvent::Begin);
    let mut config = proxy_config();
    config.kubeconfig = None;
    assert_eq!(
        stop_proxy_forward(&mut run, StopProxyEvent::ConfigLoaded(Ok(config))),
        StopProxyCommand::Finished(Err("Kubeconfig not found".to_string()))
    );

    let listings = [
        (PodListing::ClientFailed("no route".to_string()), "no route"),
        (PodListing::NoClient, "Client not created"),
        (PodListing::ListFailed("forbidden".to_string()), "forbidden"),
    ];
    for (listing, error) in listings {
        let mut run = StopProxyRun::new(5, "tools");
        stop_proxy_forward(&mut run, StopProxyEvent::Begin);
        stop_proxy_forward(&mut run, StopProxyEvent::ConfigLoaded(Ok(proxy_config())));
        assert_eq!(
            stop_proxy_forward(&mut run, StopProxyEvent::PodsListed(listing)),
            StopProxyCommand::Finished(Err(error.to_string()))
        );
    }

    let mut run = StopProxyRun::new(5, "tools");
    stop_proxy_step(&mut run, StopProxyEvent::Begin, "u");
    stop_proxy_step(&mut run, StopProxyEvent::ConfigLoaded(Ok(proxy_config())), "u");
    stop_proxy_step(
        &mut run,
        StopProxyEvent::PodsListed(PodListing::Listed(vec![pod(
            Some("kftray-forward-u-x"),
            None,
        )])),
        "u",
    );
    assert_eq!(
        stop_proxy_step(&mut run, StopProxyEvent::PodDeleted(Err("gone".to_string())), "u"),
        StopProxyCommand::Finished(Err("gone".to_string()))
    );
}
