use ow2_server_picker::cgroup::NET_CLS_CLASSID;
use ow2_server_picker::net::{mask_v4, mask_v6, network_text, parse_block_list, NetworkBlock};
use ow2_server_picker::nft::{
    ack_step, build_install_plan, AckEvent, FilterState, RuleSpec, CHAIN_NAME, CHUNK_LIMIT,
    HOOK_PRIORITY, TABLE_NAME,
};
use ow2_server_picker::winfw::{build_rule, RuleSet, RULE_NAME};

fn v4(addr: u32, prefix: u8) -> NetworkBlock {
    NetworkBlock::V4 { addr, prefix }
}

fn parse_all(texts: &[&str]) -> Vec<NetworkBlock> {
    let items: Vec<String> = texts.iter().map(|t| (*t).to_string()).collect();
    parse_block_list(&items).expect("all blocks should parse")
}

#[test]
fn reserved_names_and_constants() {
    assert_eq!(TABLE_NAME, "ow2dropshiprs");
    assert_eq!(CHAIN_NAME, "output");
    assert_eq!(HOOK_PRIORITY, 500);
    assert_eq!(CHUNK_LIMIT, 50);
    assert_eq!(RULE_NAME, "ow2dropshiprs");
    assert_eq!(NET_CLS_CLASSID, 0x1b854c);
}

#[test]
fn masks_have_prefix_high_bits() {
    assert_eq!(mask_v4(0), 0);
    assert_eq!(mask_v4(24), 0xFFFF_FF00);
    assert_eq!(mask_v4(32), u32::MAX);
    assert_eq!(mask_v6(0), 0);
    assert_eq!(mask_v6(44), 0xFFFF_FFFF_FFF0_0000_0000_0000_0000_0000u128);
    assert_eq!(mask_v6(128), u128::MAX);
}

#[test]
fn parse_rejects_bad_blocks() {
    let items = vec!["10.0.0.0/24".to_string(), "10.0.0.0/33".to_string()];
    assert!(parse_block_list(&items).is_none());
    let items = vec!["not an address".to_string()];
    assert!(parse_block_list(&items).is_none());
}

#[test]
fn parse_keeps_order_and_values() {
    let blocks = parse_all(&["10.1.9.32/16", "2600:1900:4080::/44", "192.168.1.1"]);
    assert_eq!(blocks.len(), 3);
    assert_eq!(blocks[0], v4(0x0A01_0920, 16));
    assert_eq!(
        blocks[1],
        NetworkBlock::V6 { addr: 0x2600_1900_4080_0000_0000_0000_0000_0000u128, prefix: 44 }
    );
    // A bare address gets the full-width prefix.
    assert_eq!(blocks[2], v4(0xC0A8_0101, 32));
}

#[test]
fn masking_clears_host_bits() {
    let b = v4(0x0A00_0005, 24); // 10.0.0.5/24
    assert_eq!(b.masked(), v4(0x0A00_0000, 24));
    // Masking an already-masked block changes nothing.
    assert_eq!(b.masked().masked(), b.masked());
}

#[test]
fn premasked_block_compiles_to_same_rule() {
    // A block authored as 10.0.0.5/24 must produce the same comparison rule
    // as one authored as 10.0.0.0/24.
    let unmasked = parse_all(&["10.0.0.5/24"]);
    let premasked = parse_all(&["10.0.0.0/24"]);
    let plan_a = build_install_plan(&unmasked, NET_CLS_CLASSID);
    let plan_b = build_install_plan(&premasked, NET_CLS_CLASSID);
    assert_eq!(plan_a.len(), 1);
    assert_eq!(plan_a[0].v4_rules, plan_b[0].v4_rules);
    assert_eq!(
        plan_a[0].v4_rules[0],
        RuleSpec { classid: NET_CLS_CLASSID, block: v4(0x0A00_0000, 24) }
    );
}

#[test]
fn plan_chunking_matches_ceiling() {
    let mut texts: Vec<String> = Vec::new();
    for i in 0..120 {
        texts.push(format!("10.0.{}.0/24", i));
    }
    let blocks = parse_block_list(&texts).expect("blocks parse");
    let plan = build_install_plan(&blocks, NET_CLS_CLASSID);
    assert_eq!(plan.len(), 3); // ceil(120 / 50)
    assert!(plan[0].create_table);
    assert!(!plan[1].create_table);
    assert!(!plan[2].create_table);
    assert_eq!(plan[0].v4_rules.len(), 50);
    assert_eq!(plan[1].v4_rules.len(), 50);
    assert_eq!(plan[2].v4_rules.len(), 20);

    let one = build_install_plan(&blocks[..50].to_vec(), NET_CLS_CLASSID);
    assert_eq!(one.len(), 1);
}

#[test]
fn empty_block_set_still_arms_the_table() {
    let plan = build_install_plan(&Vec::new(), NET_CLS_CLASSID);
    assert_eq!(plan.len(), 1);
    assert!(plan[0].create_table);
    assert!(plan[0].v4_rules.is_empty());
    assert!(plan[0].v6_rules.is_empty());
}

#[test]
fn plan_separates_families() {
    let blocks = parse_all(&["10.0.0.0/8", "2600:1900:4080::/44", "172.16.0.0/12"]);
    let plan = build_install_plan(&blocks, NET_CLS_CLASSID);
    assert_eq!(plan.len(), 1);
    assert_eq!(plan[0].v4_rules.len(), 2);
    assert_eq!(plan[0].v6_rules.len(), 1);
    assert_eq!(plan[0].v4_rules[0].block, v4(0x0A00_0000, 8));
    assert_eq!(plan[0].v4_rules[1].block, v4(0xAC10_0000, 12));
}

#[test]
fn install_then_teardown_leaves_no_table() {
    let blocks = parse_all(&["203.0.113.0/24", "2600:1900:4080::/44"]);
    let mut state = FilterState::empty();
    state.install(&blocks, NET_CLS_CLASSID);
    assert!(state.v4.is_some());
    assert!(state.v6.is_some());
    state.teardown();
    assert!(state.v4.is_none());
    assert!(state.v6.is_none());
}

#[test]
fn reinstall_replaces_previous_rules() {
    let set_a = parse_all(&["10.0.0.0/8", "192.168.0.0/16"]);
    let set_b = parse_all(&["203.0.113.0/24"]);
    let mut state = FilterState::empty();
    state.install(&set_a, NET_CLS_CLASSID);
    state.install(&set_b, NET_CLS_CLASSID);
    let table = state.v4.as_ref().expect("table exists");
    assert_eq!(table.rules.len(), 1);
    assert_eq!(
        table.rules[0],
        RuleSpec { classid: NET_CLS_CLASSID, block: v4(0xCB00_7100, 24) }
    );
    assert!(state.v6.as_ref().expect("v6 table exists").rules.is_empty());
}

#[test]
fn network_text_formats_both_families() {
    let blocks = parse_all(&["10.0.0.0/24", "2600:1900:4080::/44", "0.0.0.0/0", "255.255.255.255"]);
    assert_eq!(network_text(&blocks[0]), "10.0.0.0/24");
    assert_eq!(network_text(&blocks[1]), "2600:1900:4080::/44");
    assert_eq!(network_text(&blocks[2]), "0.0.0.0/0");
    assert_eq!(network_text(&blocks[3]), "255.255.255.255/32");
}

#[test]
fn declarative_rule_joins_remote_addresses() {
    let blocks = parse_all(&["64.224.0.0/21", "24.105.40.0/21", "2600:1900:4080::/44"]);
    let rule = build_rule(&blocks, "C:/games/overwatch.exe");
    assert_eq!(rule.name, "ow2dropshiprs");
    assert_eq!(rule.description, "");
    assert_eq!(rule.application, "C:/games/overwatch.exe");
    assert_eq!(rule.remote_addresses, "64.224.0.0/21,24.105.40.0/21,2600:1900:4080::/44");
    assert!(rule.enabled);
}

#[test]
fn acknowledgement_loop_decisions() {
    assert_eq!(ack_step(AckEvent::Processed), Ok(true));
    assert_eq!(ack_step(AckEvent::Stop), Ok(false));
    assert_eq!(ack_step(AckEvent::Drained), Ok(false));
    assert_eq!(ack_step(AckEvent::Error("bad ack".to_string())), Err("bad ack".to_string()));
}

#[test]
fn declarative_install_and_teardown() {
    let set_a = parse_all(&["10.0.0.0/8"]);
    let set_b = parse_all(&["203.0.113.0/24"]);
    let mut rules = RuleSet::empty();
    rules.install(&set_a, "/games/app");
    rules.install(&set_b, "/games/app");
    let rule = rules.rule.as_ref().expect("rule present");
    assert_eq!(rule.remote_addresses, "203.0.113.0/24");
    rules.teardown();
    assert!(rules.rule.is_none());
    // Tearing down an absent rule is a tolerated no-op.
    rules.teardown();
    assert!(rules.rule.is_none());
}
