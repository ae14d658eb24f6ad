use kftray_portforward::model::{Config, ConfigState, ConfigView, CustomResponse};
use kftray_portforward::registry::Registry;
use kftray_portforward::stop::{
    has_domain, stop_port_forward, stopped_response, StopCommand, StopEvent, StopPhase, StopRun,
};
use kftray_portforward::stop_all::{
    stop_all_port_forward, PodCleanup, StopAllCommand, StopAllEvent, StopAllPhase, StopAllRun,
};

fn config(id: i64, service: &str, domain: bool) -> Config {
    let mut config = Config::empty();
    config.id = Some(id);
    config.service = Some(service.to_string());
    config.protocol = "tcp".to_string();
    config.context = "dev".to_string();
    config.domain_enabled = Some(domain);
    config
}

fn stopped(id: Option<i64>, service: &str) -> CustomResponse {
    CustomResponse {
        id,
        service: service.to_string(),
        namespace: String::new(),
        local_port: 0,
        remote_port: 0,
        context: String::new(),
        protocol: String::new(),
        stdout: "Service port forwarding has been stopped".to_string(),
        stderr: String::new(),
        status: 0,
    }
}

#[test]
fn stop_one_running_forward() {
    let mut registry: Registry<u32> = Registry::new();
    registry.insert("7_api".to_string(), 1);
    registry.insert("8_db".to_string(), 2);
    let mut run = StopRun::new("7");
    assert_eq!(run.phase(), StopPhase::Ready);

    let step = stop_port_forward(&mut run, &mut registry, StopEvent::Begin);
    assert!(step.signal_cancel);
    assert_eq!(step.abort, Some(1));
    assert_eq!(step.next, StopCommand::LoadConfigs);
    assert!(!registry.contains_key("7_api"));
    assert_eq!(registry.first_key_with_prefix("7_"), None);
    assert!(registry.contains_key("8_db"));

    let step: kftray_portforward::stop::StopStep<u32> = stop_port_forward(
        &mut run,
        &mut registry,
        StopEvent::ConfigsLoaded(Ok(vec![config(7, "api", false)])),
    );
    assert!(!step.signal_cancel);
    assert_eq!(step.abort, None);
    assert_eq!(
        step.next,
        StopCommand::Finish {
            state: ConfigState { config_id: 7, is_running: false },
            result: Ok(stopped(None, "api")),
        }
    );
    assert_eq!(run.phase(), StopPhase::Done);
}

#[test]
fn stop_one_not_found_still_clears_flag() {
    let mut registry: Registry<u32> = Registry::new();
    registry.insert("17_api".to_string(), 1);
    let mut run = StopRun::new("7");
    let step = stop_port_forward(&mut run, &mut registry, StopEvent::Begin);
    assert!(step.signal_cancel);
    assert_eq!(step.abort, None);
    assert_eq!(
        step.next,
        StopCommand::Finish {
            state: ConfigState { config_id: 7, is_running: false },
            result: Err("No port forwarding process found for config_id '7'".to_string()),
        }
    );
    assert_eq!(registry.len(), 1);
    assert_eq!(registry.first_key_with_prefix("7_"), None);
}

#[test]
fn stop_one_not_found_with_unreadable_id_clears_flag_zero() {
    let mut registry: Registry<u32> = Registry::new();
    let mut run = StopRun::new("abc");
    let step = stop_port_forward(&mut run, &mut registry, StopEvent::Begin);
    assert_eq!(
        step.next,
        StopCommand::Finish {
            state: ConfigState { config_id: 0, is_running: false },
            result: Err("No port forwarding process found for config_id 'abc'".to_string()),
        }
    );
}

#[test]
fn stop_one_removes_hosts_block() {
    let mut registry: Registry<u32> = Registry::new();
    registry.insert("7_api".to_string(), 1);
    let mut run = StopRun::new("7");
    stop_port_forward(&mut run, &mut registry, StopEvent::Begin);
    let step = stop_port_forward(
        &mut run,
        &mut registry,
        StopEvent::ConfigsLoaded(Ok(vec![config(6, "x", false), config(7, "api", true)])),
    );
    assert_eq!(
        step.next,
        StopCommand::UninstallHosts("kftray custom host for api - 7".to_string())
    );
    assert_eq!(run.phase(), StopPhase::Uninstalling);
    let step = stop_port_forward(&mut run, &mut registry, StopEvent::HostsDone(Ok(())));
    assert_eq!(
        step.next,
        StopCommand::Finish {
            state: ConfigState { config_id: 7, is_running: false },
            result: Ok(stopped(None, "api")),
        }
    );
}

#[test]
fn stop_one_hosts_failure_is_returned_after_clearing_flag() {
    let mut registry: Registry<u32> = Registry::new();
    registry.insert("7_api".to_string(), 1);
    let mut run = StopRun::new("7");
    stop_port_forward(&mut run, &mut registry, StopEvent::Begin);
    stop_port_forward(
        &mut run,
        &mut registry,
        StopEvent::ConfigsLoaded(Ok(vec![config(7, "api", true)])),
    );
    let step = stop_port_forward(
        &mut run,
        &mut registry,
        StopEvent::HostsDone(Err("Permission denied".to_string())),
    );
    assert_eq!(
        step.next,
        StopCommand::Finish {
            state: ConfigState { config_id: 7, is_running: false },
            result: Err("Permission denied".to_string()),
        }
    );
    assert!(registry.is_empty());
}

#[test]
fn stop_one_config_load_failure() {
    let mut registry: Registry<u32> = Registry::new();
    registry.insert("7_api".to_string(), 1);
    let mut run = StopRun::new("7");
    stop_port_forward(&mut run, &mut registry, StopEvent::Begin);
    let step = stop_port_forward(
        &mut run,
        &mut registry,
        StopEvent::ConfigsLoaded(Err("db locked".to_string())),
    );
    assert_eq!(
        step.next,
        StopCommand::Finish {
            state: ConfigState { config_id: 7, is_running: false },
            result: Err("Failed to retrieve configs: db locked".to_string()),
        }
    );
}

#[test]
fn stop_one_service_name_with_separator_is_recovered() {
    let mut registry: Registry<u32> = Registry::new();
    registry.insert("7_my_api".to_string(), 1);
    let mut run = StopRun::new("7");
    stop_port_forward(&mut run, &mut registry, StopEvent::Begin);
    let step = stop_port_forward(&mut run, &mut registry, StopEvent::ConfigsLoaded(Ok(vec![])));
    assert_eq!(
        step.next,
        StopCommand::Finish {
            state: ConfigState { config_id: 7, is_running: false },
            result: Ok(stopped(None, "my_api")),
        }
    );
}

#[test]
fn stop_one_takes_only_the_first_of_two_keys() {
    let mut registry: Registry<u32> = Registry::new();
    registry.insert("7_a".to_string(), 1);
    registry.insert("7_b".to_string(), 2);
    let mut run = StopRun::new("7");
    let step = stop_port_forward(&mut run, &mut registry, StopEvent::Begin);
    assert_eq!(step.abort, Some(1));
    assert_eq!(registry.first_key_with_prefix("7_"), Some("7_b".to_string()));
}

#[test]
fn stop_one_rejects_event_out_of_turn() {
    let run = StopRun::new("7");
    assert!(run.can_take(&StopEvent::Begin));
    assert!(!run.can_take(&StopEvent::HostsDone(Ok(()))));
    assert!(!run.can_take(&StopEvent::ConfigsLoaded(Ok(vec![]))));
}

#[test]
fn first_config_with_id_decides_domain() {
    let configs = vec![config(7, "api", true), config(7, "api", false)];
    assert!(has_domain(&configs, 7));
    assert!(!has_domain(&configs, 8));
    let mut none = config(7, "api", true);
    none.domain_enabled = None;
    assert!(!has_domain(&vec![none], 7));
}

#[test]
fn stopped_response_fields() {
    assert_eq!(stopped_response(Some(3), "svc"), stopped(Some(3), "svc"));
}

#[test]
fn stop_all_with_two_running_forwards() {
    let mut registry: Registry<u32> = Registry::new();
    registry.insert("1_a".to_string(), 10);
    registry.insert("2_b".to_string(), 20);
    let mut run: StopAllRun<u32> = StopAllRun::new();
    assert_eq!(run.phase(), StopAllPhase::Ready);

    let step = stop_all_port_forward(&mut run, &mut registry, StopAllEvent::Begin);
    assert!(step.signal_cancel);
    assert!(step.abort.is_empty());
    assert_eq!(step.next, StopAllCommand::LoadStates);
    assert!(registry.is_empty());

    let step = stop_all_port_forward(
        &mut run,
        &mut registry,
        StopAllEvent::StatesLoaded(Ok(vec![
            ConfigState { config_id: 1, is_running: true },
            ConfigState { config_id: 2, is_running: true },
        ])),
    );
    assert_eq!(step.next, StopAllCommand::LoadConfigs);

    let step = stop_all_port_forward(
        &mut run,
        &mut registry,
        StopAllEvent::ConfigsLoaded(Ok(vec![config(1, "a", false), config(2, "b", false)])),
    );
    let mut aborted = step.abort.clone();
    aborted.sort();
    assert_eq!(aborted, vec![10, 20]);
    assert_eq!(
        step.next,
        StopAllCommand::Cleanup {
            pods: Vec::<PodCleanup>::new(),
            states: vec![
                ConfigState { config_id: 1, is_running: false },
                ConfigState { config_id: 2, is_running: false },
            ],
        }
    );

    let step = stop_all_port_forward(&mut run, &mut registry, StopAllEvent::CleanedUp);
    match step.next {
        StopAllCommand::Finished(Ok(responses)) => {
            assert_eq!(responses.len(), 2);
            assert!(responses.iter().all(|r| r.status == 0));
            assert!(responses.contains(&stopped(Some(1), "a")));
            assert!(responses.contains(&stopped(Some(2), "b")));
        }
        other => panic!("unexpected command {:?}", other),
    }
    assert!(registry.is_empty());
    assert_eq!(run.phase(), StopAllPhase::Done);
}

#[test]
fn stop_all_malformed_composite_key() {
    let mut registry: Registry<u32> = Registry::new();
    registry.insert("bogus".to_string(), 5);
    let mut run: StopAllRun<u32> = StopAllRun::new();
    stop_all_port_forward(&mut run, &mut registry, StopAllEvent::Begin);
    stop_all_port_forward(&mut run, &mut registry, StopAllEvent::StatesLoaded(Ok(vec![])));
    let step =
        stop_all_port_forward(&mut run, &mut registry, StopAllEvent::ConfigsLoaded(Ok(vec![])));
    assert_eq!(step.abort, vec![5]);
    let step = stop_all_port_forward(&mut run, &mut registry, StopAllEvent::CleanedUp);
    match step.next {
        StopAllCommand::Finished(Ok(responses)) => {
            assert_eq!(responses.len(), 1);
            assert_eq!(responses[0].status, 1);
            assert_eq!(responses[0].stderr, "Invalid composite key format");
            assert_eq!(responses[0].id, None);
            assert_eq!(responses[0].service, "");
            assert_eq!(responses[0].stdout, "");
        }
        other => panic!("unexpected command {:?}", other),
    }
    assert!(registry.is_empty());
}

#[test]
fn stop_all_removes_hosts_blocks_and_aborts_on_failure_too() {
    let mut registry: Registry<u32> = Registry::new();
    registry.insert("1_a".to_string(), 10);
    registry.insert("2_b".to_string(), 20);
    registry.insert("3_c".to_string(), 30);
    let mut run: StopAllRun<u32> = StopAllRun::new();
    stop_all_port_forward(&mut run, &mut registry, StopAllEvent::Begin);
    stop_all_port_forward(&mut run, &mut registry, StopAllEvent::StatesLoaded(Ok(vec![])));
    let step = stop_all_port_forward(
        &mut run,
        &mut registry,
        StopAllEvent::ConfigsLoaded(Ok(vec![
            config(1, "a", false),
            config(2, "b", true),
            config(3, "c", true),
        ])),
    );
    assert_eq!(step.abort, vec![10]);
    assert_eq!(
        step.next,
        StopAllCommand::UninstallHosts("kftray custom host for b - 2".to_string())
    );
    assert_eq!(run.phase(), StopAllPhase::Uninstalling);

    let step = stop_all_port_forward(
        &mut run,
        &mut registry,
        StopAllEvent::HostsDone(Err("Permission denied".to_string())),
    );
    assert_eq!(step.abort, vec![20]);
    assert_eq!(
        step.next,
        StopAllCommand::UninstallHosts("kftray custom host for c - 3".to_string())
    );

    let step = stop_all_port_forward(&mut run, &mut registry, StopAllEvent::HostsDone(Ok(())));
    assert_eq!(step.abort, vec![30]);
    assert!(matches!(step.next, StopAllCommand::Cleanup { .. }));

    let step = stop_all_port_forward(&mut run, &mut registry, StopAllEvent::CleanedUp);
    match step.next {
        StopAllCommand::Finished(Ok(responses)) => {
            assert_eq!(responses.len(), 3);
            assert_eq!(responses[0], stopped(Some(1), "a"));
            assert_eq!(responses[1].status, 1);
            assert_eq!(responses[1].id, Some(2));
            assert_eq!(responses[1].service, "b");
            assert_eq!(responses[1].stderr, "Permission denied");
            assert_eq!(responses[1].stdout, "");
            assert_eq!(responses[2], stopped(Some(3), "c"));
        }
        other => panic!("unexpected command {:?}", other),
    }
}

#[test]
fn stop_all_last_config_with_id_decides_domain() {
    let mut registry: Registry<u32> = Registry::new();
    registry.insert("1_a".to_string(), 10);
    let mut run: StopAllRun<u32> = StopAllRun::new();
    stop_all_port_forward(&mut run, &mut registry, StopAllEvent::Begin);
    stop_all_port_forward(&mut run, &mut registry, StopAllEvent::StatesLoaded(Ok(vec![])));
    let step = stop_all_port_forward(
        &mut run,
        &mut registry,
        StopAllEvent::ConfigsLoaded(Ok(vec![config(1, "a", true), config(1, "a", false)])),
    );
    assert!(matches!(step.next, StopAllCommand::Cleanup { .. }));
    assert_eq!(step.abort, vec![10]);
}

#[test]
fn stop_all_cleans_pods_of_running_udp_and_proxy_configs() {
    let mut registry: Registry<u32> = Registry::new();
    let mut run: StopAllRun<u32> = StopAllRun::new();
    stop_all_port_forward(&mut run, &mut registry, StopAllEvent::Begin);
    stop_all_port_forward(
        &mut run,
        &mut registry,
        StopAllEvent::StatesLoaded(Ok(vec![
            ConfigState { config_id: 1, is_running: true },
            ConfigState { config_id: 2, is_running: true },
            ConfigState { config_id: 3, is_running: false },
            ConfigState { config_id: 4, is_running: true },
            ConfigState { config_id: 5, is_running: true },
        ])),
    );
    let mut udp = config(1, "a", false);
    udp.protocol = "udp".to_string();
    udp.kubeconfig = Some("/k1".to_string());
    let mut proxy = config(2, "b", false);
    proxy.workload_type = Some("proxy".to_string());
    proxy.kubeconfig = Some("/k2".to_string());
    let mut stopped_udp = config(3, "c", false);
    stopped_udp.protocol = "udp".to_string();
    stopped_udp.kubeconfig = Some("/k3".to_string());
    let mut tcp = config(4, "d", false);
    tcp.kubeconfig = Some("/k4".to_string());
    let mut no_kubeconfig = config(5, "e", false);
    no_kubeconfig.protocol = "udp".to_string();
    let step = stop_all_port_forward(
        &mut run,
        &mut registry,
        StopAllEvent::ConfigsLoaded(Ok(vec![udp, proxy, stopped_udp, tcp, no_kubeconfig])),
    );
    match step.next {
        StopAllCommand::Cleanup { pods, states } => {
            assert_eq!(
                pods,
                vec![
                    PodCleanup {
                        kubeconfig: "/k1".to_string(),
                        context: "dev".to_string(),
                        selector: "config_id=1".to_string(),
                    },
                    PodCleanup {
                        kubeconfig: "/k2".to_string(),
                        context: "dev".to_string(),
                        selector: "config_id=2".to_string(),
                    },
                ]
            );
            assert_eq!(states.len(), 5);
            assert!(states.iter().all(|s| !s.is_running));
            assert_eq!(states[4].config_id, 5);
        }
        other => panic!("unexpected command {:?}", other),
    }
}

#[test]
fn stop_all_state_load_failure_gives_every_handle_up() {
    let mut registry: Registry<u32> = Registry::new();
    registry.insert("1_a".to_string(), 10);
    registry.insert("2_b".to_string(), 20);
    let mut run: StopAllRun<u32> = StopAllRun::new();
    stop_all_port_forward(&mut run, &mut registry, StopAllEvent::Begin);
    let step = stop_all_port_forward(
        &mut run,
        &mut registry,
        StopAllEvent::StatesLoaded(Err("db locked".to_string())),
    );
    assert_eq!(step.abort, vec![10, 20]);
    assert_eq!(
        step.next,
        StopAllCommand::Finished(Err("Failed to retrieve config states: db locked".to_string()))
    );
    assert!(registry.is_empty());
    assert_eq!(run.phase(), StopAllPhase::Done);
}

#[test]
fn stop_all_config_load_failure() {
    let mut registry: Registry<u32> = Registry::new();
    registry.insert("1_a".to_string(), 10);
    let mut run: StopAllRun<u32> = StopAllRun::new();
    stop_all_port_forward(&mut run, &mut registry, StopAllEvent::Begin);
    stop_all_port_forward(&mut run, &mut registry, StopAllEvent::StatesLoaded(Ok(vec![])));
    let step = stop_all_port_forward(
        &mut run,
        &mut registry,
        StopAllEvent::ConfigsLoaded(Err("gone".to_string())),
    );
    assert_eq!(step.abort, vec![10]);
    assert_eq!(
        step.next,
        StopAllCommand::Finished(Err("Failed to retrieve configs: gone".to_string()))
    );
}

#[test]
fn stop_all_on_empty_registry() {
    let mut registry: Registry<u32> = Registry::new();
    let mut run: StopAllRun<u32> = StopAllRun::new();
    stop_all_port_forward(&mut run, &mut registry, StopAllEvent::Begin);
    stop_all_port_forward(&mut run, &mut registry, StopAllEvent::StatesLoaded(Ok(vec![])));
    stop_all_port_forward(&mut run, &mut registry, StopAllEvent::ConfigsLoaded(Ok(vec![])));
    assert!(run.can_take(&StopAllEvent::CleanedUp));
    assert!(!run.can_take(&StopAllEvent::Begin));
    let step = stop_all_port_forward(&mut run, &mut registry, StopAllEvent::CleanedUp);
    assert_eq!(step.next, StopAllCommand::Finished(Ok(Vec::<CustomResponse>::new())));
}

#[test]
fn config_view_type_is_exported() {
    fn takes(_: Option<ConfigView>) {}
    takes(None);
}
