use fluidspaces::workspace::Workspace;
use fluidspaces::workspace::Workspaces;

fn wp(name: &str, num: i32, output: &str, focused: bool) -> Workspace {
    Workspace {
        name: String::from(name),
        num,
        output: String::from(output),
        focused,
    }
}

fn sample() -> Workspaces {
    Workspaces {
        workspaces: vec![
            wp("1:work", 1, "A", true),
            wp("2:chat", 2, "A", false),
            wp("3:mail", 3, "B", false),
        ],
    }
}

#[test]
fn finds_focused() {
    let set = sample();
    assert_eq!(set.get_wp_with_focus().unwrap().name, "1:work");
    let none = Workspaces {
        workspaces: vec![wp("1:a", 1, "A", false)],
    };
    assert!(none.get_wp_with_focus().is_none());
}

#[test]
fn finds_by_name() {
    let set = sample();
    assert_eq!(set.get_wp_with_name("2:chat").unwrap().num, 2);
    assert!(set.get_wp_with_name("chat").is_none());
}

#[test]
fn finds_by_number() {
    let set = sample();
    assert_eq!(set.get_wp_with_number(3).unwrap().name, "3:mail");
    assert!(set.get_wp_with_number(9).is_none());
}

#[test]
fn finds_by_title() {
    let set = sample();
    assert_eq!(set.get_wp_with_title("chat").unwrap().name, "2:chat");
    assert!(set.get_wp_with_title("2:chat").is_none());
    assert!(set.get_wp_with_title("nope").is_none());
}

#[test]
fn first_match_wins_on_duplicate_titles() {
    let set = Workspaces {
        workspaces: vec![
            wp("1:dup", 1, "A", false),
            wp("2:dup", 2, "A", false),
        ],
    };
    assert_eq!(set.get_wp_with_title("dup").unwrap().name, "1:dup");
}

#[test]
fn second_on_output() {
    let set = sample();
    assert_eq!(set.get_second_wp_with_output("A").unwrap().name, "2:chat");
    assert!(set.get_second_wp_with_output("B").is_none());
    assert!(set.get_second_wp_with_output("C").is_none());
}

#[test]
fn next_unused_number_is_count_plus_one() {
    let set = sample();
    assert_eq!(set.next_unused_number(), 4);
    let empty = Workspaces { workspaces: vec![] };
    assert_eq!(empty.next_unused_number(), 1);
    let gappy = Workspaces {
        workspaces: vec![wp("5:a", 5, "A", false), wp("9:b", 9, "A", false)],
    };
    assert_eq!(gappy.next_unused_number(), 3);
}

#[test]
fn fixup_on_aligned_set_is_empty() {
    let set = sample();
    assert!(set.fixup_wps().is_empty());
}

#[test]
fn fixup_renumbers_gaps_and_negatives() {
    let set = Workspaces {
        workspaces: vec![
            wp("0:gamma", 0, "A", true),
            wp("1:alpha", 1, "A", false),
            wp("2:beta", 2, "A", false),
        ],
    };
    assert_eq!(
        set.fixup_wps(),
        vec![
            String::from("rename workspace \"0:gamma\" to \"1:gamma\""),
            String::from("rename workspace \"1:alpha\" to \"2:alpha\""),
            String::from("rename workspace \"2:beta\" to \"3:beta\""),
        ]
    );
}

#[test]
fn fixup_treats_unnumbered_as_zero() {
    let set = Workspaces {
        workspaces: vec![wp("scratch", -1, "A", false), wp("7:b", 7, "A", false)],
    };
    assert_eq!(
        set.fixup_wps(),
        vec![
            String::from("rename workspace \"scratch\" to \"1:scratch\""),
            String::from("rename workspace \"7:b\" to \"2:b\""),
        ]
    );
}

#[test]
fn fixup_skips_only_aligned_entries() {
    let set = Workspaces {
        workspaces: vec![wp("1:a", 1, "A", false), wp("5:b", 5, "A", false)],
    };
    assert_eq!(
        set.fixup_wps(),
        vec![String::from("rename workspace \"5:b\" to \"2:b\"")]
    );
}

#[test]
fn fixup_applied_once_leaves_nothing_to_do() {
    let set = Workspaces {
        workspaces: vec![
            wp("0:gamma", 0, "A", true),
            wp("3:alpha", 3, "A", false),
            wp("9:beta", 9, "A", false),
        ],
    };
    let cmds = set.fixup_wps();
    assert_eq!(cmds.len(), 3);
    let after = Workspaces {
        workspaces: vec![
            wp("1:gamma", 1, "A", true),
            wp("2:alpha", 2, "A", false),
            wp("3:beta", 3, "A", false),
        ],
    };
    assert!(after.fixup_wps().is_empty());
}

#[test]
fn promote_renames_to_index_zero() {
    let w = wp("3:mail", 3, "B", true);
    assert_eq!(w.promote(), "rename workspace \"3:mail\" to \"0:mail\"");
}

#[test]
fn title_of_workspace() {
    assert_eq!(wp("3:mail", 3, "B", false).title(), "mail");
    assert_eq!(wp("scratch", -1, "A", false).title(), "scratch");
    assert_eq!(wp("4:", 4, "A", false).title(), "4");
}

#[test]
fn choices_are_titles_sorted_by_number() {
    let set = Workspaces {
        workspaces: vec![
            wp("2:chat", 2, "A", false),
            wp("1:work", 1, "A", true),
            wp("3:mail", 3, "B", false),
        ],
    };
    assert_eq!(set.choices_str(), "work\nchat\nmail");
}

#[test]
fn choices_treat_negative_numbers_as_zero() {
    let set = Workspaces {
        workspaces: vec![
            wp("1:work", 1, "A", false),
            wp("scratch", -1, "A", false),
        ],
    };
    assert_eq!(set.choices_str(), "scratch\nwork");
}

#[test]
fn choices_keep_set_order_on_ties() {
    let set = Workspaces {
        workspaces: vec![
            wp("2:first", 2, "A", false),
            wp("2:second", 2, "B", false),
            wp("1:head", 1, "A", false),
        ],
    };
    assert_eq!(set.choices_str(), "head\nfirst\nsecond");
}

#[test]
fn choices_of_empty_set_are_empty() {
    let set = Workspaces { workspaces: vec![] };
    assert_eq!(set.choices_str(), "");
}
