use devcontainer_mcp_core::process_tree::{collect_descendants, ppid_from_status, reap_step, ReapAction, ReapEvent};

#[test]
fn ppid_from_proc_status() {
    let status = "Name:\tbash\nState:\tS (sleeping)\nPid:\t4242\nPPid:\t  17 \nTracerPid:\t0\n";
    assert_eq!(ppid_from_status(status), Some(17));
    assert_eq!(ppid_from_status("Name:\tx\n"), None);
    assert_eq!(ppid_from_status("PPid:\tnope\nPPid:\t3\n"), None);
    assert_eq!(ppid_from_status("PPid:\t+8\n"), Some(8));
}

#[test]
fn descendants_include_root_and_whole_subtree() {
    let entries = vec![(10, 1), (11, 10), (12, 10), (13, 11), (20, 1), (14, 13)];
    let mut got = collect_descendants(10, &entries);
    assert_eq!(got[0], 10);
    got.sort();
    assert_eq!(got, vec![10, 11, 12, 13, 14]);
    assert_eq!(collect_descendants(99, &entries), vec![99]);
}

#[test]
fn descendants_walk_depth_first_in_table_order() {
    let entries = vec![(11, 10), (12, 10), (13, 11)];
    assert_eq!(collect_descendants(10, &entries), vec![10, 12, 11, 13]);
}

#[test]
fn descendants_stop_on_a_cycle() {
    let entries = vec![(2, 1), (1, 2)];
    let got = collect_descendants(1, &entries);
    assert_eq!(got, vec![1, 2]);
}

#[test]
fn reaper_polls_until_exit_or_deadline() {
    assert_eq!(reap_step(ReapEvent::Terminated, 0, 2000), ReapAction::Wait { millis: 100 });
    assert_eq!(reap_step(ReapEvent::Probed { any_alive: false }, 500, 2000), ReapAction::Stop);
    assert_eq!(reap_step(ReapEvent::Probed { any_alive: true }, 500, 2000), ReapAction::Wait { millis: 100 });
    assert_eq!(reap_step(ReapEvent::Probed { any_alive: true }, 2000, 2000), ReapAction::KillSurvivors);
}
