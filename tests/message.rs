use git_mob_rs::git_config::{set_git_template_config, template_needs_update};
use git_mob_rs::message::{
    compose_display, format_for_display, format_identity, format_initials, render,
    template_from_trailers, trailer_line,
};
use git_mob_rs::paths::{
    home_coauthors_path, join_path, pick_coauthors_path, xdg_coauthors_path,
};
use git_mob_rs::{Author, Coauthors};

fn roster() -> Coauthors {
    let mut c = Coauthors::new();
    c.insert(
        "ab".to_string(),
        Author {
            name: "A B".to_string(),
            email: "ab@x.com".to_string(),
        },
    );
    c.insert(
        "cd".to_string(),
        Author {
            name: "C D".to_string(),
            email: "cd@x.com".to_string(),
        },
    );
    c
}

fn sel(list: &[&str]) -> Vec<String> {
    list.iter().map(|s| s.to_string()).collect()
}

#[test]
fn render_example() {
    assert_eq!(
        Ok("\n\nCo-authored-by: A B <ab@x.com>\nCo-authored-by: C D <cd@x.com>".to_string()),
        render(&sel(&["ab", "cd"]), &roster())
    );
}

#[test]
fn render_one_line_per_initial_in_order() {
    let text = render(&sel(&["cd", "ab", "cd"]), &roster()).unwrap();
    let lines: Vec<&str> = text.split('\n').collect();
    assert_eq!(
        vec![
            "",
            "",
            "Co-authored-by: C D <cd@x.com>",
            "Co-authored-by: A B <ab@x.com>",
            "Co-authored-by: C D <cd@x.com>",
        ],
        lines
    );
}

#[test]
fn render_empty_selection_is_empty() {
    assert_eq!(Ok(String::new()), render(&[], &roster()));
    assert_eq!(Ok(String::new()), render(&[], &Coauthors::new()));
}

#[test]
fn render_reports_first_unknown_initial() {
    assert_eq!(
        Err("ef".to_string()),
        render(&sel(&["ab", "ef", "gh"]), &roster())
    );
}

#[test]
fn trailer_and_identity_lines() {
    let a = Author {
        name: "John Doe".to_string(),
        email: "jdoe@example.com".to_string(),
    };
    assert_eq!("Co-authored-by: John Doe <jdoe@example.com>", trailer_line(&a));
    assert_eq!("John Doe <jdoe@example.com>", format_identity("John Doe", "jdoe@example.com"));
    assert_eq!(" <>", format_identity("", ""));
    assert_eq!("\n\ntest", template_from_trailers("test"));
}

#[test]
fn initials_line() {
    assert_eq!("ab,cd\n", format_initials(&sel(&["ab", "cd"])));
    assert_eq!("\n", format_initials(&[]));
}

#[test]
fn display_trims_the_template() {
    assert_eq!(
        "me <me@x.com>\nCo-authored-by: A B <ab@x.com>",
        format_for_display("me <me@x.com>", "\n\nCo-authored-by: A B <ab@x.com>\n")
    );
    assert_eq!("me <me@x.com>", format_for_display("me <me@x.com>", ""));
    assert_eq!("me <me@x.com>", format_for_display("me <me@x.com>", " \n\t\n"));
}

#[test]
fn compose_display_from_trimmed_body() {
    assert_eq!("u", compose_display("u", ""));
    assert_eq!("u\nbody", compose_display("u", "body"));
}

#[test]
fn template_update_decision() {
    assert!(template_needs_update(None));
    assert!(template_needs_update(Some(".git/.somethingelse")));
    assert!(!template_needs_update(Some(".git/.gitmessage")));
}

#[test]
fn test_set_git_template_config() {
    let default_config = "
[core]
\trepositoryformatversion = 0
\tfilemode = true
\tbare = false
\tlogallrefupdates = true
";
    let expected_config = "
[core]
\trepositoryformatversion = 0
\tfilemode = true
\tbare = false
\tlogallrefupdates = true
[commit]
\ttemplate = .git/.gitmessage
";

    assert_eq!(
        Ok(Some(expected_config.to_string())),
        set_git_template_config(default_config)
    );
}

#[test]
fn test_replace_git_template_config() {
    let default_config = "
[core]
\trepositoryformatversion = 0
\tfilemode = true
\tbare = false
\tlogallrefupdates = true
[commit]
\ttemplate = .git/.somethingelse
";
    let expected_config = "
[core]
\trepositoryformatversion = 0
\tfilemode = true
\tbare = false
\tlogallrefupdates = true
[commit]
\ttemplate = .git/.gitmessage
";

    assert_eq!(
        Ok(Some(expected_config.to_string())),
        set_git_template_config(default_config)
    );
}

#[test]
fn config_already_pointing_at_template_is_left_alone() {
    let config = "[commit]\n\ttemplate = .git/.gitmessage\n";
    assert_eq!(Ok(None), set_git_template_config(config));
}

#[test]
fn invalid_config_is_refused() {
    assert_eq!(Err(()), set_git_template_config("[core\n"));
}

#[test]
fn roster_path_choice() {
    let xdg = xdg_coauthors_path("/home/me/.config");
    let home = home_coauthors_path("/home/me/");
    assert_eq!("/home/me/.config/git-coauthors", xdg);
    assert_eq!("/home/me/.git-coauthors", home);

    assert_eq!(
        "/tmp/roster",
        pick_coauthors_path(Some("/tmp/roster".to_string()), xdg.clone(), true, home.clone(), true)
    );
    assert_eq!(xdg, pick_coauthors_path(None, xdg.clone(), true, home.clone(), true));
    assert_eq!(home, pick_coauthors_path(None, xdg.clone(), false, home.clone(), true));
    assert_eq!(xdg, pick_coauthors_path(None, xdg.clone(), false, home.clone(), false));
}

#[test]
fn join_path_separators() {
    assert_eq!(".git/config", join_path(".git", "config"));
    assert_eq!(".git/config", join_path(".git/", "config"));
    assert_eq!("config", join_path("", "config"));
}
