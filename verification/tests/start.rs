use kftray_portforward::model::{Config, ConfigState, CustomResponse};
use kftray_portforward::registry::Registry;
use kftray_portforward::start::{
    pick_transport, start_port_forward, HostsOutcome, Selector, StartCommand, StartEvent,
    StartPhase, StartRun, Transport,
};

fn api_config() -> Config {
    let mut config = Config::empty();
    config.id = Some(7);
    config.service = Some("api".to_string());
    config.namespace = "default".to_string();
    config.local_port = Some(0);
    config.remote_port = Some(8080);
    config.protocol = "tcp".to_string();
    config.workload_type = Some("service".to_string());
    config.context = "dev".to_string();
    config
}

fn domain_config() -> Config {
    let mut config = api_config();
    config.domain_enabled = Some(true);
    config.local_address = Some("10.0.0.1".to_string());
    config.alias = Some("api.local".to_string());
    config
}

#[test]
fn start_one_tcp_service() {
    let mut registry: Registry<u32> = Registry::new();
    let mut run = StartRun::new(vec![api_config()], "tcp");
    assert_eq!(run.phase(), StartPhase::Ready);

    let step = start_port_forward(&mut run, &mut registry, StartEvent::Begin);
    match step.next {
        StartCommand::Build(request) => {
            assert_eq!(request.selector, Selector::ServiceName("api".to_string()));
            assert_eq!(request.remote_port, 8080);
            assert_eq!(request.namespace, "default");
            assert_eq!(request.local_port, Some(0));
            assert_eq!(request.local_address, None);
            assert_eq!(request.context, Some("dev".to_string()));
            assert_eq!(request.kubeconfig, None);
            assert_eq!(request.config_id, 7);
            assert_eq!(request.workload_type, "service");
        }
        other => panic!("unexpected command {:?}", other),
    }

    let step = start_port_forward(&mut run, &mut registry, StartEvent::Built(Ok(())));
    assert_eq!(step.next, StartCommand::Forward(Transport::Tcp));

    let step = start_port_forward(&mut run, &mut registry, StartEvent::Forwarded(Ok((40123, 1))));
    assert!(step.replaced.is_none());
    assert!(step.abort.is_empty());
    assert_eq!(
        step.next,
        StartCommand::Reconcile(ConfigState { config_id: 7, is_running: true })
    );
    assert!(registry.contains_key("7_api"));

    let step = start_port_forward(&mut run, &mut registry, StartEvent::Reconciled);
    assert!(step.abort.is_empty());
    match step.next {
        StartCommand::Finished(Ok(responses)) => {
            assert_eq!(responses.len(), 1);
            let response = &responses[0];
            assert!(response.local_port > 0);
            assert_eq!(response.local_port, 40123);
            assert_eq!(response.status, 0);
            assert_eq!(response.id, Some(7));
            assert_eq!(response.service, "api");
            assert_eq!(response.namespace, "default");
            assert_eq!(response.remote_port, 8080);
            assert_eq!(response.context, "dev");
            assert_eq!(response.protocol, "tcp");
            assert_eq!(response.stdout, "TCP forwarding from 127.0.0.1:40123 -> 8080:api");
            assert_eq!(response.stderr, "");
        }
        other => panic!("unexpected command {:?}", other),
    }
    assert_eq!(run.phase(), StartPhase::Done);
    assert!(registry.contains_key("7_api"));
    assert_eq!(registry.len(), 1);
}

#[test]
fn start_with_hosts_file_error() {
    let mut registry: Registry<u32> = Registry::new();
    let mut run = StartRun::new(vec![domain_config()], "tcp");
    start_port_forward(&mut run, &mut registry, StartEvent::Begin);
    start_port_forward(&mut run, &mut registry, StartEvent::Built(Ok(())));
    let step = start_port_forward(&mut run, &mut registry, StartEvent::Forwarded(Ok((5000, 9))));
    match step.next {
        StartCommand::InstallHosts(block) => {
            assert_eq!(block.marker, "kftray custom host for api - 7");
            assert_eq!(block.address, "10.0.0.1");
            assert_eq!(block.hostname, "api.local");
        }
        other => panic!("unexpected command {:?}", other),
    }
    assert!(registry.contains_key("7_api"));

    let step = start_port_forward(
        &mut run,
        &mut registry,
        StartEvent::HostsDone(HostsOutcome::WriteFailed("Permission denied".to_string())),
    );
    assert_eq!(step.abort, vec![9]);
    match step.next {
        StartCommand::Finished(Err(error)) => {
            assert!(error.contains("Failed to write to the hostfile"));
            assert_eq!(error, "Failed to write to the hostfile for api: Permission denied");
        }
        other => panic!("unexpected command {:?}", other),
    }
    assert!(!registry.contains_key("7_api"));
    assert!(registry.is_empty());
}

#[test]
fn start_with_hosts_installed() {
    let mut registry: Registry<u32> = Registry::new();
    let mut run = StartRun::new(vec![domain_config()], "tcp");
    start_port_forward(&mut run, &mut registry, StartEvent::Begin);
    start_port_forward(&mut run, &mut registry, StartEvent::Built(Ok(())));
    start_port_forward(&mut run, &mut registry, StartEvent::Forwarded(Ok((5000, 9))));
    let step = start_port_forward(
        &mut run,
        &mut registry,
        StartEvent::HostsDone(HostsOutcome::Installed),
    );
    assert_eq!(
        step.next,
        StartCommand::Reconcile(ConfigState { config_id: 7, is_running: true })
    );
    let step = start_port_forward(&mut run, &mut registry, StartEvent::Reconciled);
    match step.next {
        StartCommand::Finished(Ok(responses)) => assert_eq!(responses.len(), 1),
        other => panic!("unexpected command {:?}", other),
    }
    assert!(registry.contains_key("7_api"));
}

#[test]
fn start_with_invalid_address_keeps_forward() {
    let mut registry: Registry<u32> = Registry::new();
    let mut config = domain_config();
    config.local_address = Some("not-an-ip".to_string());
    let mut run = StartRun::new(vec![config], "tcp");
    start_port_forward(&mut run, &mut registry, StartEvent::Begin);
    start_port_forward(&mut run, &mut registry, StartEvent::Built(Ok(())));
    start_port_forward(&mut run, &mut registry, StartEvent::Forwarded(Ok((5000, 4))));
    assert!(run.warnings().is_empty());
    let step = start_port_forward(
        &mut run,
        &mut registry,
        StartEvent::HostsDone(HostsOutcome::InvalidAddress),
    );
    assert!(step.abort.is_empty());
    assert_eq!(
        step.next,
        StartCommand::Reconcile(ConfigState { config_id: 7, is_running: true })
    );
    assert!(registry.contains_key("7_api"));
    let step = start_port_forward(&mut run, &mut registry, StartEvent::Reconciled);
    assert!(step.abort.is_empty());
    match step.next {
        StartCommand::Finished(Ok(responses)) => {
            assert_eq!(responses.len(), 1);
            assert_eq!(responses[0].status, 0);
            assert_eq!(responses[0].local_port, 5000);
            assert_eq!(responses[0].stderr, "");
        }
        other => panic!("unexpected command {:?}", other),
    }
    assert_eq!(run.warnings(), vec!["Invalid IP address format: not-an-ip".to_string()]);
    assert!(registry.contains_key("7_api"));
    assert_eq!(registry.remove("7_api"), Some(4));
}

#[test]
fn start_empty_list_returns_empty_list() {
    let mut registry: Registry<u32> = Registry::new();
    registry.insert("1_kept".to_string(), 11);
    let mut run = StartRun::new(Vec::new(), "tcp");
    let step = start_port_forward(&mut run, &mut registry, StartEvent::Begin);
    assert!(step.abort.is_empty());
    assert_eq!(step.next, StartCommand::Finished(Ok(Vec::<CustomResponse>::new())));
    assert_eq!(run.phase(), StartPhase::Done);
    assert_eq!(registry.len(), 1);
}

#[test]
fn start_reports_bound_port_not_requested_port() {
    let mut registry: Registry<u32> = Registry::new();
    let mut run = StartRun::new(vec![api_config()], "udp");
    start_port_forward(&mut run, &mut registry, StartEvent::Begin);
    let step = start_port_forward(&mut run, &mut registry, StartEvent::Built(Ok(())));
    assert_eq!(step.next, StartCommand::Forward(Transport::Udp));
    start_port_forward(&mut run, &mut registry, StartEvent::Forwarded(Ok((61000, 2))));
    let step = start_port_forward(&mut run, &mut registry, StartEvent::Reconciled);
    match step.next {
        StartCommand::Finished(Ok(responses)) => {
            assert_eq!(responses[0].local_port, 61000);
            assert_ne!(responses[0].local_port, 0);
            assert_eq!(responses[0].stdout, "UDP forwarding from 127.0.0.1:61000 -> 8080:api");
        }
        other => panic!("unexpected command {:?}", other),
    }
}

#[test]
fn start_build_error_is_reported() {
    let mut registry: Registry<u32> = Registry::new();
    let mut run = StartRun::new(vec![api_config()], "tcp");
    start_port_forward(&mut run, &mut registry, StartEvent::Begin);
    let step = start_port_forward(
        &mut run,
        &mut registry,
        StartEvent::Built(Err("no cluster".to_string())),
    );
    assert_eq!(
        step.next,
        StartCommand::Finished(Err(
            "Failed to create PortForward for service api: no cluster".to_string()
        ))
    );
    assert!(registry.is_empty());
}

#[test]
fn start_transport_error_names_pod_label() {
    let mut registry: Registry<u32> = Registry::new();
    let mut config = api_config();
    config.workload_type = Some("pod".to_string());
    config.target = Some("app=api".to_string());
    let mut run = StartRun::new(vec![config], "tcp");
    let step = start_port_forward(&mut run, &mut registry, StartEvent::Begin);
    match step.next {
        StartCommand::Build(request) => {
            assert_eq!(request.selector, Selector::PodLabel("app=api".to_string()));
            assert_eq!(request.workload_type, "pod");
        }
        other => panic!("unexpected command {:?}", other),
    }
    start_port_forward(&mut run, &mut registry, StartEvent::Built(Ok(())));
    let step = start_port_forward(
        &mut run,
        &mut registry,
        StartEvent::Forwarded(Err("address in use".to_string())),
    );
    assert_eq!(
        step.next,
        StartCommand::Finished(Err(
            "Failed to start TCP port forwarding for pod label api: address in use".to_string()
        ))
    );
}

#[test]
fn start_unsupported_protocol() {
    let mut registry: Registry<u32> = Registry::new();
    let mut run = StartRun::new(vec![api_config()], "sctp");
    start_port_forward(&mut run, &mut registry, StartEvent::Begin);
    let step = start_port_forward(&mut run, &mut registry, StartEvent::Built(Ok(())));
    assert_eq!(
        step.next,
        StartCommand::Finished(Err(
            "Failed to start SCTP port forwarding for service api: Unsupported protocol"
                .to_string()
        ))
    );
}

#[test]
fn start_partial_failure_rolls_back_every_started_forward() {
    let mut registry: Registry<u32> = Registry::new();
    registry.insert("99_other".to_string(), 50);
    let first = api_config();
    let mut second = api_config();
    second.id = Some(8);
    second.service = Some("db".to_string());
    let mut third = api_config();
    third.id = Some(9);
    third.service = Some("cache".to_string());
    let mut run = StartRun::new(vec![first, second, third], "tcp");

    start_port_forward(&mut run, &mut registry, StartEvent::Begin);
    start_port_forward(&mut run, &mut registry, StartEvent::Built(Ok(())));
    start_port_forward(&mut run, &mut registry, StartEvent::Forwarded(Ok((1001, 1))));
    let step = start_port_forward(&mut run, &mut registry, StartEvent::Reconciled);
    assert!(matches!(step.next, StartCommand::Build(_)));
    assert_eq!(run.index(), 1);

    let step = start_port_forward(
        &mut run,
        &mut registry,
        StartEvent::Built(Err("boom".to_string())),
    );
    assert!(matches!(step.next, StartCommand::Build(_)));

    start_port_forward(&mut run, &mut registry, StartEvent::Built(Ok(())));
    start_port_forward(&mut run, &mut registry, StartEvent::Forwarded(Ok((1003, 3))));
    assert!(registry.contains_key("7_api"));
    assert!(registry.contains_key("9_cache"));
    let step = start_port_forward(&mut run, &mut registry, StartEvent::Reconciled);
    assert_eq!(step.abort, vec![1, 3]);
    assert_eq!(
        step.next,
        StartCommand::Finished(Err(
            "Failed to create PortForward for service db: boom".to_string()
        ))
    );
    assert!(!registry.contains_key("7_api"));
    assert!(!registry.contains_key("9_cache"));
    assert!(registry.contains_key("99_other"));
}

#[test]
fn start_errors_are_joined_by_line_feeds() {
    let mut registry: Registry<u32> = Registry::new();
    let mut second = api_config();
    second.id = Some(8);
    second.service = Some("db".to_string());
    let mut run = StartRun::new(vec![api_config(), second], "tcp");
    start_port_forward(&mut run, &mut registry, StartEvent::Begin);
    start_port_forward(&mut run, &mut registry, StartEvent::Built(Err("a".to_string())));
    let step =
        start_port_forward(&mut run, &mut registry, StartEvent::Built(Err("b".to_string())));
    assert_eq!(
        step.next,
        StartCommand::Finished(Err(
            "Failed to create PortForward for service api: a\nFailed to create PortForward for service db: b"
                .to_string()
        ))
    );
}

#[test]
fn start_two_configs_keeps_input_order() {
    let mut registry: Registry<u32> = Registry::new();
    let mut second = api_config();
    second.id = Some(8);
    second.service = Some("db".to_string());
    let mut run = StartRun::new(vec![api_config(), second], "tcp");
    start_port_forward(&mut run, &mut registry, StartEvent::Begin);
    start_port_forward(&mut run, &mut registry, StartEvent::Built(Ok(())));
    start_port_forward(&mut run, &mut registry, StartEvent::Forwarded(Ok((1001, 1))));
    start_port_forward(&mut run, &mut registry, StartEvent::Reconciled);
    start_port_forward(&mut run, &mut registry, StartEvent::Built(Ok(())));
    start_port_forward(&mut run, &mut registry, StartEvent::Forwarded(Ok((1002, 2))));
    let step = start_port_forward(&mut run, &mut registry, StartEvent::Reconciled);
    match step.next {
        StartCommand::Finished(Ok(responses)) => {
            assert_eq!(responses.len(), 2);
            assert_eq!(responses[0].id, Some(7));
            assert_eq!(responses[0].local_port, 1001);
            assert_eq!(responses[1].id, Some(8));
            assert_eq!(responses[1].local_port, 1002);
        }
        other => panic!("unexpected command {:?}", other),
    }
    assert_eq!(registry.keys(), vec!["7_api".to_string(), "8_db".to_string()]);
    assert_eq!(registry.first_key_with_prefix("7_"), Some("7_api".to_string()));
    assert_eq!(registry.first_key_with_prefix("8_"), Some("8_db".to_string()));
}

#[test]
fn start_same_key_replaces_handle() {
    let mut registry: Registry<u32> = Registry::new();
    registry.insert("7_api".to_string(), 70);
    let mut run = StartRun::new(vec![api_config()], "tcp");
    start_port_forward(&mut run, &mut registry, StartEvent::Begin);
    start_port_forward(&mut run, &mut registry, StartEvent::Built(Ok(())));
    let step = start_port_forward(&mut run, &mut registry, StartEvent::Forwarded(Ok((1001, 71))));
    assert_eq!(step.replaced, Some(70));
    assert_eq!(registry.len(), 1);
    assert_eq!(registry.remove("7_api"), Some(71));
}

#[test]
fn start_rejects_event_out_of_turn() {
    let run = StartRun::new(vec![api_config()], "tcp");
    assert!(run.can_take(&StartEvent::<u32>::Begin));
    assert!(!run.can_take(&StartEvent::<u32>::Reconciled));
    assert!(!run.can_take(&StartEvent::<u32>::Built(Ok(()))));
}

#[test]
fn start_needs_identity_for_started_transport() {
    let mut registry: Registry<u32> = Registry::new();
    let mut config = api_config();
    config.id = None;
    let mut run = StartRun::new(vec![config], "tcp");
    start_port_forward(&mut run, &mut registry, StartEvent::Begin);
    start_port_forward(&mut run, &mut registry, StartEvent::Built(Ok(())));
    assert!(!run.can_take(&StartEvent::Forwarded(Ok((1, 1u32)))));
    assert!(run.can_take(&StartEvent::<u32>::Forwarded(Err("x".to_string()))));
}

#[test]
fn transport_names() {
    assert_eq!(pick_transport("tcp"), Some(Transport::Tcp));
    assert_eq!(pick_transport("udp"), Some(Transport::Udp));
    assert_eq!(pick_transport("TCP"), None);
    assert_eq!(pick_transport(""), None);
}
