use larps::oodle::{split_state, WINDOW_AT, WINDOW_LEN};
use larps::meter::{PlayerData, SkillUsage};
use larps::ordered::{sorted_keys, sorted_keys_u32};
use larps::socket::{make_word, Connections, IpTableEntry, SelectError};
use larps::ui::{skills_by_damage, slice_at_nth_char, Ranked};
use std::collections::BTreeMap;

fn entry(src_addr: u32, dst_addr: u32, dst_port: u16, pid: u32) -> IpTableEntry {
    IpTableEntry { src_addr, src_port: 50000, dst_addr, dst_port, pid }
}

#[test]
fn make_word_puts_the_first_byte_low() {
    assert_eq!(make_word(2, 2), 0x0202);
    assert_eq!(make_word(0x34, 0x12), 0x1234);
    assert_eq!(make_word(0xff, 0xff), 0xffff);
    assert_eq!(make_word(0, 0), 0);
}

#[test]
fn select_error_values() {
    assert_ne!(SelectError::Timeout, SelectError::WinSock(0));
    assert_eq!(SelectError::WinSock(10054), SelectError::WinSock(10054));
}

#[test]
fn refresh_adds_the_wanted_connections() {
    let mut c = Connections::new(7, 6040, vec![10, 11]);
    assert_eq!(c.len(), 0);
    let table = vec![
        entry(10, 100, 6040, 7),
        entry(10, 101, 6041, 7),
        entry(10, 102, 6040, 8),
        entry(12, 103, 6040, 7),
        entry(11, 104, 6040, 7),
    ];
    let plan = c.refresh(&table);
    assert!(plan.removals.is_empty());
    assert_eq!(plan.additions, vec![table[0], table[4]]);
    assert_eq!(c.ips, vec![100, 104]);
    // the same table again changes nothing
    let plan = c.refresh(&table);
    assert!(plan.removals.is_empty());
    assert!(plan.additions.is_empty());
    assert_eq!(c.ips, vec![100, 104]);
}

#[test]
fn refresh_takes_out_the_connections_that_are_gone() {
    let mut c = Connections::new(7, 6040, vec![10]);
    let all: Vec<IpTableEntry> = (100..105).map(|ip| entry(10, ip, 6040, 7)).collect();
    c.refresh(&all);
    assert_eq!(c.ips, vec![100, 101, 102, 103, 104]);
    // 101 and 103 are gone, 105 is new
    let table = vec![all[0], all[2], all[4], entry(10, 105, 6040, 7)];
    let plan = c.refresh(&table);
    assert_eq!(plan.removals, vec![3, 1]);
    assert_eq!(plan.additions, vec![table[3]]);
    // position 3 takes the last address, then position 1 takes the new last
    assert_eq!(c.ips, vec![100, 104, 102, 105]);
    let mut mirror = vec![100u32, 101, 102, 103, 104];
    for at in plan.removals {
        mirror.swap_remove(at);
    }
    mirror.extend(plan.additions.iter().map(|e| e.dst_addr));
    assert_eq!(mirror, c.ips);
    // everything is gone
    let plan = c.refresh(&vec![]);
    assert_eq!(plan.removals, vec![3, 2, 1, 0]);
    assert!(c.ips.is_empty());
}

#[test]
fn slice_at_nth_char_counts_characters() {
    assert_eq!(slice_at_nth_char("abcdefghijkl", 8), "abcdefghi");
    assert_eq!(slice_at_nth_char("abc", 8), "abc");
    assert_eq!(slice_at_nth_char("abc", 0), "a");
    assert_eq!(slice_at_nth_char("abc", 2), "abc");
    assert_eq!(slice_at_nth_char("", 0), "");
    assert_eq!(slice_at_nth_char("äöüß", 1), "äö");
    assert_eq!(slice_at_nth_char("?", usize::MAX), "?");
}

#[test]
fn state_file_is_cut_into_window_and_state() {
    let mut blob = vec![0u8; WINDOW_AT + WINDOW_LEN + 5];
    blob[0x18] = 3;
    blob[WINDOW_AT] = 0xaa;
    blob[WINDOW_AT + WINDOW_LEN - 1] = 0xbb;
    blob[WINDOW_AT + WINDOW_LEN] = 1;
    blob[WINDOW_AT + WINDOW_LEN + 2] = 3;
    let parts = split_state(&blob).unwrap();
    assert_eq!(parts.window.len(), WINDOW_LEN);
    assert_eq!(parts.window[0], 0xaa);
    assert_eq!(parts.window[WINDOW_LEN - 1], 0xbb);
    assert_eq!(parts.compacted, &[1, 0, 3]);
    blob[0x18] = 5;
    assert_eq!(split_state(&blob).unwrap().compacted.len(), 5);
    blob[0x18] = 6;
    assert!(split_state(&blob).is_none());
    blob[0x18] = 0;
    blob[0x1b] = 0x80;
    assert!(split_state(&blob).is_none());
    assert!(split_state(&blob[..WINDOW_AT + WINDOW_LEN - 1]).is_none());
    assert!(split_state(&[]).is_none());
}

#[test]
fn sorted_keys_are_increasing() {
    let mut m = BTreeMap::new();
    for k in [5u64, 1, 9, 3, u64::MAX, 0] {
        m.insert(k, ());
    }
    assert_eq!(sorted_keys(&m), vec![0, 1, 3, 5, 9, u64::MAX]);
    assert_eq!(sorted_keys(&BTreeMap::<u64, u8>::new()), Vec::<u64>::new());
}

#[test]
fn sorted_keys_of_narrow_maps_are_increasing() {
    let mut m = BTreeMap::new();
    for k in [7u32, u32::MAX, 2, 0, 19] {
        m.insert(k, ());
    }
    assert_eq!(sorted_keys_u32(&m), vec![0, 2, 7, 19, u32::MAX]);
    assert_eq!(sorted_keys_u32(&BTreeMap::<u32, u8>::new()), Vec::<u32>::new());
}

#[test]
fn skills_are_ranked_by_damage() {
    let mut player = PlayerData::default();
    assert!(skills_by_damage(&player).is_empty());
    for (id, damage) in [(10u32, 50i64), (11, 700), (12, 50), (13, -4), (9, 50)] {
        player.skills.insert(id, SkillUsage { damage, ..Default::default() });
    }
    assert_eq!(
        skills_by_damage(&player),
        vec![
            Ranked { id: 11, damage: 700 },
            Ranked { id: 9, damage: 50 },
            Ranked { id: 10, damage: 50 },
            Ranked { id: 12, damage: 50 },
            Ranked { id: 13, damage: -4 },
        ]
    );
}
