use docker_hosts::container::{
    container_to_exposed_hostname, container_to_hosts_entries, generate_hosts, get_container_ips,
    render_snapshot, ContainerDetails, HostEntry, InventoryError, NetworkInterface,
};
use docker_hosts::merge::{merge_hosts, HOSTS_HEADER};
use docker_hosts::sync::{
    is_resync_trigger, next_step, plan_update, SyncAction, SyncEvent, SyncState,
};

fn container(hostname: &str, domain: &str, ips: &[&str]) -> ContainerDetails {
    ContainerDetails {
        hostname: hostname.to_string(),
        domain_name: domain.to_string(),
        networks: ips
            .iter()
            .enumerate()
            .map(|(i, ip)| NetworkInterface { name: format!("net{}", i), ip_address: ip.to_string() })
            .collect(),
    }
}

fn inventory_error(message: &str) -> InventoryError {
    InventoryError { message: message.to_string() }
}

fn notification(status: &str) -> SyncEvent {
    SyncEvent::Notification { status: Some(status.to_string()) }
}

#[test]
fn hostname_without_domain_gets_docker_local() {
    assert_eq!(container_to_exposed_hostname(&container("web", "", &[])), "web.docker.local");
    assert_eq!(container_to_exposed_hostname(&container("db-1", "", &["1.2.3.4"])), "db-1.docker.local");
}

#[test]
fn hostname_with_domain_joins_with_dot() {
    assert_eq!(container_to_exposed_hostname(&container("api", "svc", &[])), "api.svc");
    assert_eq!(container_to_exposed_hostname(&container("h", "example.org", &[])), "h.example.org");
}

#[test]
fn empty_hostname_is_passed_through() {
    assert_eq!(container_to_exposed_hostname(&container("", "", &[])), ".docker.local");
    assert_eq!(container_to_exposed_hostname(&container("", "d", &[])), ".d");
}

#[test]
fn container_ips_follow_interface_order() {
    let ips = get_container_ips(&container("x", "", &["10.0.0.9", "10.0.0.1"]));
    assert_eq!(ips, vec!["10.0.0.9".to_string(), "10.0.0.1".to_string()]);
}

#[test]
fn one_entry_per_interface_sharing_a_hostname() {
    let entries = container_to_hosts_entries(&container("api", "svc", &["10.0.0.6", "10.0.0.7", "10.0.0.8"]));
    assert_eq!(entries.len(), 3);
    assert_eq!(entries[0], HostEntry { ip_address: "10.0.0.6".to_string(), hostname: "api.svc".to_string() });
    assert_eq!(entries[1].ip_address, "10.0.0.7");
    assert_eq!(entries[2].ip_address, "10.0.0.8");
    assert!(entries.iter().all(|e| e.hostname == "api.svc"));
}

#[test]
fn no_interfaces_no_entries() {
    assert!(container_to_hosts_entries(&container("web", "", &[])).is_empty());
}

#[test]
fn entry_line_is_ip_tab_hostname() {
    let entry = HostEntry { ip_address: "10.0.0.5".to_string(), hostname: "web.docker.local".to_string() };
    assert_eq!(entry.to_line(), "10.0.0.5\tweb.docker.local");
}

#[test]
fn single_container_scenario() {
    let block = generate_hosts(&vec![container("web", "", &["10.0.0.5"])]);
    assert_eq!(block, "10.0.0.5\tweb.docker.local\n");
}

#[test]
fn multi_network_scenario() {
    let block = generate_hosts(&vec![container("api", "svc", &["10.0.0.6", "10.0.0.7"])]);
    assert_eq!(block, "10.0.0.6\tapi.svc\n10.0.0.7\tapi.svc\n");
}

#[test]
fn snapshot_flattens_in_listing_order() {
    let block = generate_hosts(&vec![
        container("a", "", &["1.1.1.1"]),
        container("idle", "", &[]),
        container("b", "dom", &["2.2.2.2", "3.3.3.3"]),
    ]);
    assert_eq!(block, "1.1.1.1\ta.docker.local\n2.2.2.2\tb.dom\n3.3.3.3\tb.dom\n");
}

#[test]
fn empty_snapshot_is_a_lone_newline() {
    assert_eq!(generate_hosts(&vec![]), "\n");
    assert_eq!(generate_hosts(&vec![container("idle", "", &[])]), "\n");
}

#[test]
fn render_snapshot_succeeds_when_all_lookups_do() {
    let lookups = vec![Ok(container("web", "", &["10.0.0.5"])), Ok(container("api", "svc", &["10.0.0.6"]))];
    assert_eq!(render_snapshot(lookups), Ok("10.0.0.5\tweb.docker.local\n10.0.0.6\tapi.svc\n".to_string()));
}

#[test]
fn render_snapshot_fails_with_first_lookup_error() {
    let lookups = vec![
        Ok(container("web", "", &["10.0.0.5"])),
        Err(inventory_error("gone")),
        Err(inventory_error("also gone")),
    ];
    assert_eq!(render_snapshot(lookups), Err(inventory_error("gone")));
}

#[test]
fn missing_file_gets_only_the_block() {
    let content = merge_hosts("", "10.0.0.5\tweb.docker.local\n");
    assert_eq!(content, format!("{}10.0.0.5\tweb.docker.local\n{}", HOSTS_HEADER, HOSTS_HEADER));
}

#[test]
fn file_without_marker_is_all_prefix() {
    let content = merge_hosts("127.0.0.1\tlocalhost\n", "B\n");
    assert_eq!(content, format!("127.0.0.1\tlocalhost\n{}B\n{}", HOSTS_HEADER, HOSTS_HEADER));
}

#[test]
fn block_is_replaced_and_user_text_kept() {
    let existing = format!("# mine\n::1 localhost\n{}OLD\nOLDER\n{}# after\n1.2.3.4 x\n", HOSTS_HEADER, HOSTS_HEADER);
    let content = merge_hosts(&existing, "NEW\n");
    assert_eq!(content, format!("# mine\n::1 localhost\n{}NEW\n{}# after\n1.2.3.4 x\n", HOSTS_HEADER, HOSTS_HEADER));
}

#[test]
fn merging_twice_equals_merging_once() {
    let existing = format!("pre\n{}old\n{}post\n", HOSTS_HEADER, HOSTS_HEADER);
    let once = merge_hosts(&existing, "10.0.0.5\tweb.docker.local\n");
    let twice = merge_hosts(&once, "10.0.0.5\tweb.docker.local\n");
    assert_eq!(once, twice);
    let fresh_once = merge_hosts("", "b\n");
    assert_eq!(merge_hosts(&fresh_once, "b\n"), fresh_once);
}

#[test]
fn lone_marker_drops_what_follows_it() {
    let existing = format!("keep\n{}lost\n", HOSTS_HEADER);
    let content = merge_hosts(&existing, "B\n");
    assert_eq!(content, format!("keep\n{}B\n{}", HOSTS_HEADER, HOSTS_HEADER));
}

#[test]
fn text_after_second_marker_keeps_further_markers() {
    let existing = format!("p\n{}old\n{}s1\n{}s2\n", HOSTS_HEADER, HOSTS_HEADER, HOSTS_HEADER);
    let content = merge_hosts(&existing, "B\n");
    assert_eq!(content, format!("p\n{}B\n{}s1\n{}s2\n", HOSTS_HEADER, HOSTS_HEADER, HOSTS_HEADER));
}

#[test]
fn only_start_and_stop_trigger_a_resync() {
    assert!(!is_resync_trigger(&Some("die".to_string())));
    assert!(is_resync_trigger(&Some("stop".to_string())));
    assert!(is_resync_trigger(&Some("start".to_string())));
    assert!(!is_resync_trigger(&Some("started".to_string())));
    assert!(!is_resync_trigger(&None));
}

#[test]
fn die_event_is_ignored_stop_event_resyncs() {
    assert_eq!(next_step(SyncState::Watching, &notification("die")), (SyncState::Watching, SyncAction::AwaitEvent));
    assert_eq!(next_step(SyncState::Watching, &notification("stop")), (SyncState::Syncing, SyncAction::RunSync));
}

#[test]
fn loop_goes_through_its_states() {
    assert_eq!(next_step(SyncState::Starting, &SyncEvent::Boot), (SyncState::Syncing, SyncAction::RunSync));
    assert_eq!(next_step(SyncState::Syncing, &SyncEvent::SyncSucceeded), (SyncState::Watching, SyncAction::AwaitEvent));
    assert_eq!(next_step(SyncState::Watching, &SyncEvent::FeedEnded), (SyncState::Failed, SyncAction::Backoff { secs: 1 }));
    assert_eq!(next_step(SyncState::Syncing, &SyncEvent::SyncFailed), (SyncState::Failed, SyncAction::Backoff { secs: 1 }));
    assert_eq!(next_step(SyncState::Failed, &SyncEvent::BackoffElapsed), (SyncState::Starting, SyncAction::Restart));
    assert_eq!(next_step(SyncState::Failed, &notification("start")), (SyncState::Failed, SyncAction::Ignore));
}

#[test]
fn failed_lookup_leaves_nothing_to_write() {
    let existing = format!("user\n{}old\n{}", HOSTS_HEADER, HOSTS_HEADER);
    let lookups = vec![
        Ok(container("a", "", &["1.1.1.1"])),
        Err(inventory_error("no such container")),
        Ok(container("c", "", &["3.3.3.3"])),
    ];
    assert_eq!(plan_update(&existing, lookups), Err(inventory_error("no such container")));
}

#[test]
fn successful_pass_plans_merged_content() {
    let existing = format!("user\n{}old\n{}tail\n", HOSTS_HEADER, HOSTS_HEADER);
    let lookups = vec![Ok(container("web", "", &["10.0.0.5"]))];
    assert_eq!(
        plan_update(&existing, lookups),
        Ok(format!("user\n{}10.0.0.5\tweb.docker.local\n{}tail\n", HOSTS_HEADER, HOSTS_HEADER))
    );
}
