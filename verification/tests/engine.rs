use hypr_workstyle::aggregate::{aggregate, group_of};
use hypr_workstyle::args::{Args, LogLevel};
use hypr_workstyle::icons::{IconMapping, MatchRule};
use hypr_workstyle::label::compose;
use hypr_workstyle::sync::{resync, workspace_ids, Rename};
use hypr_workstyle::window::{Window, Workspace};

fn table() -> IconMapping {
    let mut mapping = IconMapping::new("?");
    mapping.push(MatchRule::for_class("firefox", "🌐"));
    mapping.push(MatchRule::for_class("kitty", "💻"));
    mapping
}

fn settings(deduplicate: bool) -> Args {
    Args { log_level: LogLevel::Warn, config_path: None, deduplicate }
}

fn window(class: &str, workspace: i32, mapped: bool) -> Window {
    Window { class: String::from(class), title: String::new(), workspace, mapped }
}

fn workspace(id: i32, name: &str, windows: u16) -> Workspace {
    Workspace { id, name: String::from(name), windows }
}

fn classes(group: &Vec<Window>) -> Vec<String> {
    group.iter().map(|w| w.class.clone()).collect()
}

fn pairs(renames: &Vec<Rename>) -> Vec<(i32, String)> {
    renames.iter().map(|r| (r.id, r.name.clone())).collect()
}

fn carry_out(workspaces: &mut Vec<Workspace>, renames: &Vec<Rename>) {
    for rename in renames {
        for ws in workspaces.iter_mut() {
            if ws.id == rename.id {
                ws.name = rename.name.clone();
            }
        }
    }
}

fn snapshot() -> Vec<Window> {
    vec![
        window("firefox", 1, true),
        window("kitty", 2, true),
        window("firefox", 1, true),
        window("kitty", 1, false),
        window("gimp", 3, true),
        window("kitty", 2, true),
    ]
}

#[test]
fn aggregate_groups_by_workspace_in_order() {
    let groups = aggregate(&snapshot(), &vec![1, 2, 3]);
    assert_eq!(classes(groups.get(&1).unwrap()), vec!["firefox", "firefox"]);
    assert_eq!(classes(groups.get(&2).unwrap()), vec!["kitty", "kitty"]);
    assert_eq!(classes(groups.get(&3).unwrap()), vec!["gimp"]);
    assert_eq!(groups.len(), 3);
}

#[test]
fn aggregate_lists_empty_workspaces() {
    let groups = aggregate(&snapshot(), &vec![1, 2, 3, 4, 9]);
    assert!(groups.get(&4).unwrap().is_empty());
    assert!(groups.get(&9).unwrap().is_empty());
    assert_eq!(groups.len(), 5);
}

#[test]
fn aggregate_keeps_the_workspace_of_every_shown_window() {
    let groups = aggregate(&snapshot(), &vec![]);
    assert_eq!(groups.len(), 3);
    assert_eq!(classes(groups.get(&1).unwrap()), vec!["firefox", "firefox"]);
}

#[test]
fn aggregate_leaves_out_windows_that_are_not_shown() {
    let windows = vec![window("firefox", 1, true), window("kitty", 1, false)];
    let groups = aggregate(&windows, &vec![1]);
    let group = groups.get(&1).unwrap();
    assert_eq!(group.len(), 1);
    assert_eq!(group[0].class, "firefox");
    assert!(group[0].mapped);
}

#[test]
fn aggregate_gives_no_group_to_a_workspace_of_hidden_windows_alone() {
    let windows = vec![window("kitty", 7, false)];
    let groups = aggregate(&windows, &vec![]);
    assert!(groups.get(&7).is_none());
    let listed = aggregate(&windows, &vec![7]);
    assert!(listed.get(&7).unwrap().is_empty());
}

#[test]
fn aggregate_of_nothing_is_empty() {
    let groups = aggregate(&vec![], &vec![]);
    assert!(groups.is_empty());
}

#[test]
fn aggregate_takes_an_identifier_listed_twice_once() {
    let groups = aggregate(&snapshot(), &vec![1, 1, 2]);
    assert_eq!(classes(groups.get(&1).unwrap()), vec!["firefox", "firefox"]);
    assert_eq!(groups.len(), 3);
}

#[test]
fn mapped_and_unmapped_window_compose_as_the_mapped_one_alone() {
    let mapping = table();
    let both = vec![window("firefox", 1, true), window("kitty", 1, false)];
    let alone = vec![window("firefox", 1, true)];
    let grouped_both = aggregate(&both, &vec![1]);
    let grouped_alone = aggregate(&alone, &vec![1]);
    for dedup in [false, true] {
        assert_eq!(
            compose(&mapping, 1, grouped_both.get(&1).unwrap(), dedup),
            compose(&mapping, 1, grouped_alone.get(&1).unwrap(), dedup)
        );
    }
}

#[test]
fn group_of_copies_the_windows_whole() {
    let windows = vec![Window {
        class: String::from("kitty"),
        title: String::from("~/src"),
        workspace: 2,
        mapped: true,
    }];
    let group = group_of(&windows, 2);
    assert_eq!(group.len(), 1);
    assert_eq!(group[0].class, "kitty");
    assert_eq!(group[0].title, "~/src");
    assert_eq!(group[0].workspace, 2);
    assert!(group[0].mapped);
    assert!(group_of(&windows, 3).is_empty());
}

#[test]
fn window_clone_keeps_every_field() {
    let w = Window { class: String::from("a"), title: String::from("b"), workspace: -4, mapped: false };
    let copy = w.clone();
    assert_eq!(copy.class, "a");
    assert_eq!(copy.title, "b");
    assert_eq!(copy.workspace, -4);
    assert!(!copy.mapped);
}

#[test]
fn workspace_ids_in_order() {
    let workspaces = vec![workspace(3, "x", 0), workspace(1, "y", 2), workspace(3, "z", 0)];
    assert_eq!(workspace_ids(&workspaces), vec![3, 1, 3]);
}

#[test]
fn resync_renames_every_stale_workspace() {
    let workspaces = vec![workspace(1, "1", 3), workspace(2, "2", 2), workspace(3, "3", 1), workspace(4, "4: old ", 0)];
    let renames = resync(&table(), &settings(false), &workspaces, &snapshot());
    assert_eq!(
        pairs(&renames),
        vec![
            (1, String::from("1: 🌐 🌐 ")),
            (2, String::from("2: 💻 💻 ")),
            (3, String::from("3: ? ")),
            (4, String::from("4")),
        ]
    );
}

#[test]
fn resync_with_deduplication() {
    let workspaces = vec![workspace(1, "1", 3), workspace(2, "2", 2)];
    let renames = resync(&table(), &settings(true), &workspaces, &snapshot());
    assert_eq!(pairs(&renames), vec![(1, String::from("1: 🌐 ")), (2, String::from("2: 💻 "))]);
}

#[test]
fn resync_skips_a_workspace_whose_name_is_already_its_label() {
    let workspaces = vec![workspace(1, "1: 🌐 🌐 ", 3), workspace(2, "2", 2), workspace(5, "5", 0)];
    let renames = resync(&table(), &settings(false), &workspaces, &snapshot());
    assert_eq!(pairs(&renames), vec![(2, String::from("2: 💻 💻 "))]);
}

#[test]
fn resync_plans_nothing_when_everything_is_up_to_date() {
    let workspaces = vec![workspace(1, "1: 🌐 🌐 ", 3), workspace(2, "2: 💻 💻 ", 2), workspace(3, "3: ? ", 1)];
    let renames = resync(&table(), &settings(false), &workspaces, &snapshot());
    assert!(renames.is_empty());
}

#[test]
fn resync_twice_plans_nothing_the_second_time() {
    for dedup in [false, true] {
        let mut workspaces = vec![
            workspace(1, "web", 3),
            workspace(2, "2", 2),
            workspace(3, "3: ? ", 1),
            workspace(4, "4: gone ", 0),
            workspace(2, "term", 2),
        ];
        let first = resync(&table(), &settings(dedup), &workspaces, &snapshot());
        assert!(!first.is_empty());
        carry_out(&mut workspaces, &first);
        let second = resync(&table(), &settings(dedup), &workspaces, &snapshot());
        assert!(second.is_empty());
    }
}

#[test]
fn resync_relabels_a_workspace_whose_last_window_closed() {
    let workspaces = vec![workspace(6, "6: 💻 ", 0)];
    let renames = resync(&table(), &settings(false), &workspaces, &vec![]);
    assert_eq!(pairs(&renames), vec![(6, String::from("6"))]);
}

#[test]
fn resync_ignores_windows_that_are_not_shown() {
    let workspaces = vec![workspace(1, "1", 1)];
    let windows = vec![window("kitty", 1, false)];
    assert!(resync(&table(), &settings(false), &workspaces, &windows).is_empty());
}

#[test]
fn resync_without_workspaces_plans_nothing() {
    assert!(resync(&table(), &settings(false), &vec![], &snapshot()).is_empty());
}
