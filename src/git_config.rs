use gix::bstr::BStr;
use vstd::prelude::*;

verus! {

/// The value `commit.template` is set to: the message file, relative to the
/// work tree.
pub const TEMPLATE_PATH: &'static str = ".git/.gitmessage";

/// Whether gix-config parses `text` as a git configuration file.
pub uninterp spec fn config_parses(text: Seq<char>) -> bool;

/// The last value of `section.name` (no subsection) in the configuration
/// `text`, as gix-config reads it.
pub uninterp spec fn config_value(text: Seq<char>, section: Seq<char>, name: Seq<char>) -> Option<
    Seq<char>,
>;

/// The configuration `text` with `section.name` (no subsection) set to
/// `value`, as gix-config writes it; `None` when it refuses.
pub uninterp spec fn config_with_value(
    text: Seq<char>,
    section: Seq<char>,
    name: Seq<char>,
    value: Seq<char>,
) -> Option<Seq<char>>;

/// The current value of `commit.template` in `text`.
pub open spec fn template_value(text: Seq<char>) -> Option<Seq<char>> {
    config_value(text, "commit"@, "template"@)
}

/// `text` with `commit.template` pointing at the message file.
pub open spec fn with_template(text: Seq<char>) -> Option<Seq<char>> {
    config_with_value(text, "commit"@, "template"@, TEMPLATE_PATH@)
}

/// `commit.template` can be made to point at the message file in `text`:
/// the text parses, and the value is already right or can be set.
pub open spec fn template_settable(text: Seq<char>) -> bool {
    config_parses(text) && (template_value(text) == Some(TEMPLATE_PATH@) || with_template(
        text,
    ) is Some)
}

/// The configuration text after pointing `commit.template` at the message
/// file: unchanged when it already does.
pub open spec fn config_after(text: Seq<char>) -> Seq<char> {
    if template_value(text) == Some(TEMPLATE_PATH@) {
        text
    } else {
        with_template(text)->0
    }
}

/// Relies on gix_config::File::from_bytes_no_includes: whether `text`
/// parses as a repository's local configuration.
#[verifier::external_body]
fn parses(text: &str) -> (r: bool)
    ensures
        r == config_parses(text@),
{
    gix_config::File::from_bytes_no_includes(
        text.as_bytes(),
        gix_config::file::Metadata::from(gix_config::Source::Local),
        Default::default(),
    ).is_ok()
}

/// Relies on gix_config::File::raw_value_by, on `text` parsed by
/// gix_config::File::from_bytes_no_includes: the last value of
/// `section.name`, if set.
#[verifier::external_body]
fn raw_value(text: &str, section: &str, name: &str) -> (r: Option<String>)
    ensures
        match r {
            Some(v) => config_value(text@, section@, name@) == Some(v@),
            None => config_value(text@, section@, name@) is None,
        },
{
    let config = gix_config::File::from_bytes_no_includes(
        text.as_bytes(),
        gix_config::file::Metadata::from(gix_config::Source::Local),
        Default::default(),
    ).ok()?;
    config.raw_value_by(section, None::<&BStr>, name).ok().map(|v| v.to_string())
}

/// Relies on gix_config::File::set_raw_value_by, on `text` parsed by
/// gix_config::File::from_bytes_no_includes and written back by
/// gix_config::File::to_bstring: sets `section.name`, creating the section
/// if needed; `None` when the text does not parse or the value is refused.
#[verifier::external_body]
fn set_raw_value(text: &str, section: &str, name: &str, value: &str) -> (r: Option<String>)
    ensures
        match r {
            Some(t) => config_with_value(text@, section@, name@, value@) == Some(t@),
            None => config_with_value(text@, section@, name@, value@) is None,
        },
        !config_parses(text@) ==> r is None,
{
    let mut config = gix_config::File::from_bytes_no_includes(
        text.as_bytes(),
        gix_config::file::Metadata::from(gix_config::Source::Local),
        Default::default(),
    ).ok()?;
    config.set_raw_value_by(section, None::<&BStr>, name, value).ok()?;
    Some(config.to_bstring().to_string())
}

/// Whether `commit.template` must be written, given its current value:
/// only when it is unset or differs from the message file.
pub fn template_needs_update(current: Option<&str>) -> (r: bool)
    ensures
        r == !(current is Some && current->0@ == TEMPLATE_PATH@),
{
    match current {
        None => true,
        Some(v) => {
            let v = v.to_owned();
            let t = TEMPLATE_PATH.to_owned();
            !(v == t)
        },
    }
}

/// Points `commit.template` at the message file in the configuration text
/// `text`. `Ok(None)` when it already does, so the file need not be written;
/// `Ok(Some(new_text))` otherwise; `Err(())` when the text does not parse or
/// the value cannot be set.
pub fn set_git_template_config(text: &str) -> (r: Result<Option<String>, ()>)
    ensures
        r == Ok::<Option<String>, ()>(None) <==> config_parses(text@) && template_value(text@)
            == Some(TEMPLATE_PATH@),
        r is Err <==> !template_settable(text@),
        r matches Ok(Some(t)) ==> Some(t@) == with_template(text@),
{
    if !parses(text) {
        return Err(());
    }
    let current = raw_value(text, "commit", "template");
    let needed = match &current {
        None => template_needs_update(None),
        Some(v) => template_needs_update(Some(v.as_str())),
    };
    if !needed {
        Ok(None)
    } else {
        match set_raw_value(text, "commit", "template", TEMPLATE_PATH) {
            Some(t) => Ok(Some(t)),
            None => Err(()),
        }
    }
}

} // verus!
