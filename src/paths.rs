use vstd::prelude::*;

verus! {

/// `name` appended to the directory `dir`, with one `/` between them.
pub open spec fn path_join(dir: Seq<char>, name: Seq<char>) -> Seq<char> {
    if dir.len() == 0 {
        name
    } else if dir.last() == '/' {
        dir + name
    } else {
        dir + "/"@ + name
    }
}

/// The path of `name` inside the directory `dir`.
pub fn join_path(dir: &str, name: &str) -> (r: String)
    ensures
        r@ == path_join(dir@, name@),
{
    let n = dir.unicode_len();
    if n == 0 {
        name.to_owned()
    } else if dir.get_char(n - 1) == '/' {
        let mut r = dir.to_owned();
        r.append(name);
        r
    } else {
        let mut r = dir.to_owned();
        r.append("/");
        r.append(name);
        r
    }
}

/// The roster file in the configuration directory.
pub fn xdg_coauthors_path(config_dir: &str) -> (r: String)
    ensures
        r@ == path_join(config_dir@, "git-coauthors"@),
{
    join_path(config_dir, "git-coauthors")
}

/// The roster file in the home directory, as older installs kept it.
pub fn home_coauthors_path(home_dir: &str) -> (r: String)
    ensures
        r@ == path_join(home_dir@, ".git-coauthors"@),
{
    join_path(home_dir, ".git-coauthors")
}

/// Which roster file to use: an explicit override first; else the one in
/// the configuration directory if it exists; else the one in the home
/// directory if it exists; else the one in the configuration directory.
pub fn pick_coauthors_path(
    override_path: Option<String>,
    xdg_path: String,
    xdg_exists: bool,
    home_path: String,
    home_exists: bool,
) -> (r: String)
    ensures
        r@ == match override_path {
            Some(p) => p@,
            None => if !xdg_exists && home_exists {
                home_path@
            } else {
                xdg_path@
            },
        },
{
    match override_path {
        Some(p) => p,
        None => if !xdg_exists && home_exists {
            home_path
        } else {
            xdg_path
        },
    }
}

} // verus!
