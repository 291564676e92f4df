use ow2_server_picker::cgroup::{CGroup, NET_CLS_CLASSID};
use ow2_server_picker::classify::{select_pids, TrackedPids};
use ow2_server_picker::daemon::{
    any_selected, blocked_keys, elevation_args, handle_control, is_kill_command, kill,
    kill_command, select_blocks, stop_result, ConnectOutcome, KillError, SOCKET_NAME,
};
use ow2_server_picker::net::{IpAddress, NetworkBlock};
use ow2_server_picker::nft::{FilterState, RuleSpec};
use ow2_server_picker::ping::PingStatus;
use ow2_server_picker::prefixes::{load, Region, RegionSource};
use ow2_server_picker::regions::{RegionEntry, RegionSortBy, RegionSorting};
use std::cmp::Ordering;

fn source(key: &str, name: &str, code: &str, ping: &str, prefixes: &str) -> RegionSource {
    RegionSource {
        key: key.to_string(),
        name: name.to_string(),
        code: code.to_string(),
        ping: ping.to_string(),
        prefixes: prefixes.to_string(),
    }
}

fn entry(region: Region, selected: bool) -> RegionEntry {
    RegionEntry { region, ping: PingStatus::Unknown, selected }
}

#[test]
fn kill_outcomes_are_distinguishable() {
    assert!(kill(ConnectOutcome::Sent).is_ok());
    // No listener: a distinguishable "refused" outcome, not a generic error.
    assert!(matches!(kill(ConnectOutcome::Refused), Err(KillError::Refused)));
    match kill(ConnectOutcome::Failed("broken pipe".to_string())) {
        Err(KillError::IoError(m)) => assert_eq!(m, "broken pipe"),
        other => panic!("expected an I/O error, got {:?}", other),
    }
}

#[test]
fn kill_error_messages() {
    assert_eq!(
        KillError::Refused.message(),
        "connection was refused, the daemon is likely not running"
    );
    assert_eq!(
        KillError::IoError("oops".to_string()).message(),
        "failed to communicate with the process: oops"
    );
}

#[test]
fn silent_stop_treats_refused_as_stopped() {
    assert!(stop_result(true, Err(KillError::Refused)).is_ok());
    assert!(matches!(
        stop_result(false, Err(KillError::Refused)),
        Err(KillError::Refused)
    ));
    assert!(stop_result(false, Ok(())).is_ok());
    assert!(matches!(
        stop_result(true, Err(KillError::IoError("x".to_string()))),
        Err(KillError::IoError(_))
    ));
}

#[test]
fn kill_word_recognition() {
    assert_eq!(SOCKET_NAME, "ow2dropshiprs");
    let word = kill_command();
    assert_eq!(word, b"kill".to_vec());
    assert!(is_kill_command(&word));
    assert!(!is_kill_command(b"killx"));
    assert!(!is_kill_command(b"kil"));
    assert!(!is_kill_command(b"stop"));
}

#[test]
fn kill_word_tears_filter_state_down_in_one_step() {
    let items = vec!["203.0.113.0/24".to_string()];
    let blocks = ow2_server_picker::net::parse_block_list(&items).expect("block parses");
    let mut state = FilterState::empty();
    state.install(&blocks, NET_CLS_CLASSID);
    assert!(state.v4.is_some());

    // Not the kill word: the state is untouched and the daemon keeps running.
    assert!(!handle_control(&mut state, b"hello"));
    assert!(state.v4.is_some());

    // The kill word: the filter state is removed within the same step.
    assert!(handle_control(&mut state, b"kill"));
    assert!(state.v4.is_none());
    assert!(state.v6.is_none());
}

#[test]
fn elevation_invocation() {
    let keys = vec!["blizzard/ord1".to_string(), "google/me-central2".to_string()];
    let args = elevation_args("/usr/bin/picker", "/games/app", &keys);
    assert_eq!(
        args,
        vec![
            "pkexec".to_string(),
            "/usr/bin/picker".to_string(),
            "--daemon".to_string(),
            "--game-path".to_string(),
            "/games/app".to_string(),
            "blizzard/ord1".to_string(),
            "google/me-central2".to_string(),
        ]
    );
}

#[test]
fn load_parses_the_region_table() {
    let table = vec![
        source("blizzard/ord1", "USA - Central", "ORD1", "8.34.210.23", "64.224.0.0/21,24.105.40.0/21"),
        source("google/europe-north1", "Finland", "GEN1", "34.88.0.1", "34.88.0.0/16,2600:1900:4150::/44"),
    ];
    let regions = load(&table).expect("table parses");
    assert_eq!(regions.len(), 2);
    assert_eq!(regions[0].key, "blizzard/ord1");
    assert_eq!(regions[0].name, "USA - Central");
    assert_eq!(regions[0].code, "ORD1");
    assert_eq!(regions[0].ping, IpAddress::V4(0x0822_D217)); // 8.34.210.23
    assert_eq!(
        regions[0].prefixes,
        vec![
            NetworkBlock::V4 { addr: 0x40E0_0000, prefix: 21 },
            NetworkBlock::V4 { addr: 0x1869_2800, prefix: 21 },
        ]
    );
    assert_eq!(regions[1].prefixes.len(), 2);
}

#[test]
fn load_rejects_bad_entries() {
    // An invalid CIDR in the prefix list.
    let table = vec![source("k", "n", "c", "1.2.3.4", "10.0.0.0/24,bogus")];
    assert!(load(&table).is_none());
    // A ping target that is not a single address.
    let table = vec![source("k", "n", "c", "10.0.0.0/8", "10.0.0.0/24")];
    assert!(load(&table).is_none());
    // An empty prefix list has no valid piece.
    let table = vec![source("k", "n", "c", "1.2.3.4", "")];
    assert!(load(&table).is_none());
}

#[test]
fn select_blocks_resolves_keys_in_region_order() {
    let table = vec![
        source("a", "A", "A1", "1.1.1.1", "10.0.0.0/8"),
        source("b", "B", "B1", "2.2.2.2", "172.16.0.0/12,192.168.0.0/16"),
        source("c", "C", "C1", "3.3.3.3", "203.0.113.0/24"),
    ];
    let regions = load(&table).expect("table parses");
    let keys = vec!["c".to_string(), "a".to_string()];
    let blocks = select_blocks(&regions, &keys);
    // Region order, not key order; unrequested keys are absent.
    assert_eq!(
        blocks,
        vec![
            NetworkBlock::V4 { addr: 0x0A00_0000, prefix: 8 },
            NetworkBlock::V4 { addr: 0xCB00_7100, prefix: 24 },
        ]
    );
    assert!(select_blocks(&regions, &Vec::new()).is_empty());
}

#[test]
fn selection_helpers() {
    let table = vec![
        source("a", "A", "A1", "1.1.1.1", "10.0.0.0/8"),
        source("b", "B", "B1", "2.2.2.2", "172.16.0.0/12"),
        source("c", "C", "C1", "3.3.3.3", "203.0.113.0/24"),
    ];
    let regions = load(&table).expect("table parses");
    let entries: Vec<RegionEntry> = regions
        .into_iter()
        .enumerate()
        .map(|(i, r)| entry(r, i == 1))
        .collect();
    assert!(any_selected(&entries));
    // The blocked groups are exactly the unselected ones.
    assert_eq!(blocked_keys(&entries), vec!["a".to_string(), "c".to_string()]);

    let none: Vec<RegionEntry> = Vec::new();
    assert!(!any_selected(&none));
}

#[test]
fn sorting_cycles_and_compares() {
    let mut sorting = RegionSorting::default();
    assert_eq!(sorting.by, RegionSortBy::Name);
    assert!(sorting.asc);
    assert_eq!(sorting.ordering_name(), "ascending");
    assert_eq!(sorting.by.text(), "name");
    assert_eq!(sorting.next_property(), RegionSortBy::Ping);
    sorting.cycle_property();
    assert_eq!(sorting.by, RegionSortBy::Ping);
    assert_eq!(sorting.by.text(), "ping");
    sorting.toggle_asc();
    assert!(!sorting.asc);
    assert_eq!(sorting.ordering_name(), "descending");

    let table = vec![
        source("a", "Brazil", "GBR1", "1.1.1.1", "10.0.0.0/8"),
        source("b", "Australia", "SYD2", "2.2.2.2", "172.16.0.0/12"),
    ];
    let regions = load(&table).expect("table parses");
    let mut a = entry(regions[0].clone(), false);
    let mut b = entry(regions[1].clone(), false);

    let by_name = RegionSorting { by: RegionSortBy::Name, asc: true };
    assert_eq!(by_name.as_cmp(&a, &b), Ordering::Greater); // Brazil > Australia
    let by_name_desc = RegionSorting { by: RegionSortBy::Name, asc: false };
    assert_eq!(by_name_desc.as_cmp(&a, &b), Ordering::Less);

    a.ping = PingStatus::Reachable(80);
    b.ping = PingStatus::Unreachable; // sorts as 1000 ms
    let by_ping = RegionSorting { by: RegionSortBy::Ping, asc: true };
    assert_eq!(by_ping.as_cmp(&a, &b), Ordering::Less);
    assert_eq!(by_ping.as_cmp(&a, &a), Ordering::Equal);
    // An unknown status also counts as the 1000 ms default.
    b.ping = PingStatus::Unknown;
    assert_eq!(by_ping.as_cmp(&b, &b), Ordering::Equal);
    assert_eq!(b.ping.as_millis_or(1000), 1000);
}

#[test]
fn ping_updates_carry_key_and_status() {
    let update = ow2_server_picker::ping::PingUpdate(
        "blizzard/ord1".to_string(),
        PingStatus::Reachable(42),
    );
    assert_eq!(update.0, "blizzard/ord1");
    assert_eq!(update.1.as_millis_or(1000), 42);
    assert_eq!(PingStatus::Unreachable.as_millis_or(7), 7);
}

#[test]
fn end_to_end_scenario() {
    // Input block set {"test": ["203.0.113.0/24"]}, exe path /games/app.
    let table = vec![source("test", "Test", "T1", "203.0.113.1", "203.0.113.0/24")];
    let regions = load(&table).expect("table parses");
    let blocks = select_blocks(&regions, &vec!["test".to_string()]);

    // After install, the only active drop rule matches destination network
    // 203.0.113.0/24, scoped to the designated classifier id.
    let mut state = FilterState::empty();
    state.install(&blocks, NET_CLS_CLASSID);
    let v4 = state.v4.as_ref().expect("v4 table present");
    assert_eq!(
        v4.rules,
        vec![RuleSpec {
            classid: NET_CLS_CLASSID,
            block: NetworkBlock::V4 { addr: 0xCB00_7100, prefix: 24 },
        }]
    );
    assert!(state.v6.as_ref().expect("v6 table present").rules.is_empty());

    // A discovered process with working directory /games/app is classified,
    // and its id appears in the group membership exactly once.
    let mut seen_pids = TrackedPids::new();
    let mut group = CGroup::new();
    let scan = select_pids(
        &vec![(41, "/".to_string()), (42, "/games/app".to_string())],
        "/games/app",
    );
    assert_eq!(scan, vec![42]);
    seen_pids.scan_step(&scan, &mut group);
    let rescan = select_pids(&vec![(42, "/games/app".to_string())], "/games/app");
    seen_pids.scan_step(&rescan, &mut group);
    assert_eq!(group.procs, vec![42]);

    // After teardown, no table with the reserved name remains.
    state.teardown();
    assert!(state.v4.is_none());
    assert!(state.v6.is_none());
}
