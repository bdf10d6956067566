use crate::coauthors::{has_key, key_index, lemma_key_index, Author, Coauthors, EntryView};
use vstd::prelude::*;

verus! {

/// The views of a list of strings.
pub open spec fn views(v: Seq<String>) -> Seq<Seq<char>> {
    v.map_values(|s: String| s@)
}

/// `Co-authored-by: Name <email>`
pub open spec fn trailer(name: Seq<char>, email: Seq<char>) -> Seq<char> {
    "Co-authored-by: "@ + name + " <"@ + email + ">"@
}

/// The trailer line of the author under `k` in `roster`.
pub open spec fn trailer_of(roster: Seq<EntryView>, k: Seq<char>) -> Seq<char> {
    let e = roster[key_index(roster, k)];
    trailer(e.1, e.2)
}

/// One trailer line for each selected initial, in the selection's order.
pub open spec fn trailers(selection: Seq<Seq<char>>, roster: Seq<EntryView>) -> Seq<Seq<char>> {
    selection.map_values(|k: Seq<char>| trailer_of(roster, k))
}

/// The parts joined with `sep` between each two.
pub open spec fn join(parts: Seq<Seq<char>>, sep: Seq<char>) -> Seq<char>
    decreases parts.len(),
{
    if parts.len() == 0 {
        Seq::empty()
    } else if parts.len() == 1 {
        parts[0]
    } else {
        join(parts.drop_last(), sep) + sep + parts.last()
    }
}

/// Every selected initial has an author in the roster.
pub open spec fn all_known(selection: Seq<Seq<char>>, roster: Seq<EntryView>) -> bool {
    forall|i: int| 0 <= i < selection.len() ==> has_key(roster, #[trigger] selection[i])
}

/// The template text: empty for no selection, else two newlines and then
/// the trailer lines separated by newlines.
pub open spec fn template_text(selection: Seq<Seq<char>>, roster: Seq<EntryView>) -> Seq<char> {
    if selection.len() == 0 {
        Seq::empty()
    } else {
        "\n\n"@ + join(trailers(selection, roster), "\n"@)
    }
}

/// The remembered selection: the initials joined by commas, then a newline.
pub open spec fn initials_text(selection: Seq<Seq<char>>) -> Seq<char> {
    join(selection, ","@) + "\n"@
}

/// `Name <email>`
pub open spec fn identity(name: Seq<char>, email: Seq<char>) -> Seq<char> {
    name + " <"@ + email + ">"@
}

/// What is shown after a change: the identity line, then the template body
/// when it is not empty.
pub open spec fn display_text(git_user: Seq<char>, body: Seq<char>) -> Seq<char> {
    if body.len() == 0 {
        git_user
    } else {
        git_user + "\n"@ + body
    }
}

/// How many times `c` occurs in `s`.
pub open spec fn count_char(s: Seq<char>, c: char) -> nat
    decreases s.len(),
{
    if s.len() == 0 {
        0
    } else {
        count_char(s.drop_last(), c) + if s.last() == c {
            1nat
        } else {
            0nat
        }
    }
}

proof fn lemma_count_concat(a: Seq<char>, b: Seq<char>, c: char)
    ensures
        count_char(a + b, c) == count_char(a, c) + count_char(b, c),
    decreases b.len(),
{
    if b.len() == 0 {
        assert(a + b =~= a);
    } else {
        lemma_count_concat(a, b.drop_last(), c);
        assert((a + b).drop_last() =~= a + b.drop_last());
    }
}

/// No name or email in the roster holds a newline.
pub open spec fn single_line_entries(roster: Seq<EntryView>) -> bool {
    forall|i: int|
        0 <= i < roster.len() ==> count_char((#[trigger] roster[i]).1, '\n') == 0 && count_char(
            roster[i].2,
            '\n',
        ) == 0
}

proof fn lemma_join_newlines(lines: Seq<Seq<char>>)
    requires
        lines.len() > 0,
        forall|i: int| 0 <= i < lines.len() ==> count_char(#[trigger] lines[i], '\n') == 0,
    ensures
        count_char(join(lines, "\n"@), '\n') == lines.len() - 1,
    decreases lines.len(),
{
    reveal_strlit("\n");
    if lines.len() > 1 {
        let rest = lines.drop_last();
        assert forall|i: int| 0 <= i < rest.len() implies count_char(#[trigger] rest[i], '\n') == 0 by {
            assert(rest[i] == lines[i]);
        }
        lemma_join_newlines(rest);
        lemma_count_concat(join(rest, "\n"@), "\n"@, '\n');
        lemma_count_concat(join(rest, "\n"@) + "\n"@, lines.last(), '\n');
        assert(count_char("\n"@, '\n') == 1) by {
            assert("\n"@.len() == 1);
            assert("\n"@.drop_last() =~= Seq::<char>::empty());
            assert(count_char(Seq::<char>::empty(), '\n') == 0);
        }
    }
}

/// Rendering a selection whose initials are all in the roster gives two
/// newlines, then one trailer line per selected initial, in the selection's
/// order, joined by newlines: line `i` names the author under `selection[i]`.
/// When no name or email holds a newline, the text holds exactly
/// `selection.len() + 1` newlines, so that it has two blank lines and then
/// exactly `selection.len()` trailer lines.
pub proof fn lemma_render_one_line_each(selection: Seq<Seq<char>>, roster: Seq<EntryView>)
    requires
        selection.len() > 0,
        all_known(selection, roster),
    ensures
        template_text(selection, roster) == "\n\n"@ + join(trailers(selection, roster), "\n"@),
        trailers(selection, roster).len() == selection.len(),
        forall|i: int|
            #![trigger selection[i]]
            0 <= i < selection.len() ==> 0 <= key_index(roster, selection[i]) < roster.len()
                && roster[key_index(roster, selection[i])].0 == selection[i],
        forall|i: int|
            0 <= i < selection.len() ==> (#[trigger] trailers(selection, roster)[i]) == trailer_of(
                roster,
                selection[i],
            ),
        single_line_entries(roster) ==> count_char(template_text(selection, roster), '\n')
            == selection.len() + 1,
{
    let ls = trailers(selection, roster);
    assert forall|i: int| #![trigger selection[i]] 0 <= i < selection.len() implies 0 <= key_index(
        roster,
        selection[i],
    ) < roster.len() && roster[key_index(roster, selection[i])].0 == selection[i] && trailers(
        selection,
        roster,
    )[i] == trailer_of(roster, selection[i]) by {
        assert(has_key(roster, selection[i]));
        lemma_key_index(roster, selection[i]);
    }
    if single_line_entries(roster) {
        reveal_strlit("Co-authored-by: ");
        reveal_strlit(" <");
        reveal_strlit(">");
        reveal_strlit("\n\n");
        assert forall|i: int| 0 <= i < ls.len() implies count_char(#[trigger] ls[i], '\n') == 0 by {
            assert(has_key(roster, selection[i]));
            lemma_key_index(roster, selection[i]);
            let ki = key_index(roster, selection[i]);
            let e = roster[ki];
            assert(0 <= ki < roster.len());
            assert(count_char(e.1, '\n') == 0 && count_char(e.2, '\n') == 0);
            let lead = "Co-authored-by: "@;
            let open = " <"@;
            let close = ">"@;
            assert(count_char(lead, '\n') == 0) by {
                lemma_count_prefix_free(lead, lead.len() as int, '\n');
                assert(lead.subrange(0, lead.len() as int) =~= lead);
            }
            assert(count_char(open, '\n') == 0) by {
                lemma_count_prefix_free(open, open.len() as int, '\n');
                assert(open.subrange(0, open.len() as int) =~= open);
            }
            assert(count_char(close, '\n') == 0) by {
                lemma_count_prefix_free(close, close.len() as int, '\n');
                assert(close.subrange(0, close.len() as int) =~= close);
            }
            lemma_count_concat(lead, e.1, '\n');
            lemma_count_concat(lead + e.1, open, '\n');
            lemma_count_concat(lead + e.1 + open, e.2, '\n');
            lemma_count_concat(lead + e.1 + open + e.2, close, '\n');
        }
        lemma_join_newlines(ls);
        lemma_count_concat("\n\n"@, join(ls, "\n"@), '\n');
        assert(count_char("\n\n"@, '\n') == 2) by {
            let t = "\n\n"@;
            assert(t.len() == 2);
            assert(t.drop_last().drop_last() =~= Seq::<char>::empty());
            assert(count_char(Seq::<char>::empty(), '\n') == 0);
            assert(t.drop_last().last() == '\n');
            assert(count_char(t.drop_last(), '\n') == 1);
        }
    }
}

proof fn lemma_count_prefix_free(s: Seq<char>, j: int, c: char)
    requires
        0 <= j <= s.len(),
        forall|k: int| 0 <= k < s.len() ==> s[k] != c,
    ensures
        count_char(s.subrange(0, j), c) == 0,
    decreases j,
{
    if j > 0 {
        lemma_count_prefix_free(s, j - 1, c);
        assert(s.subrange(0, j).drop_last() =~= s.subrange(0, j - 1));
    }
}

/// An empty selection renders to the empty string, whatever the roster.
pub proof fn lemma_render_empty(roster: Seq<EntryView>)
    ensures
        all_known(Seq::empty(), roster),
        template_text(Seq::empty(), roster) == Seq::<char>::empty(),
{
}

/// What `str::trim` returns for `s`.
pub uninterp spec fn trim_of(s: Seq<char>) -> Seq<char>;

/// Relies on str::trim: leading and trailing whitespace removed, so the
/// result is a contiguous part of `s`; an empty string stays empty.
#[verifier::external_body]
fn trim_str(s: &str) -> (r: &str)
    ensures
        r@ == trim_of(s@),
        r@.len() <= s@.len() && exists|i: int| 0 <= i <= s@.len() - r@.len() && r@ == #[trigger] s@.subrange(i, i + r@.len()),
        s@.len() == 0 ==> r@.len() == 0,
{
    s.trim()
}

/// The trailer line for one author.
pub fn trailer_line(author: &Author) -> (r: String)
    ensures
        r@ == trailer(author.name@, author.email@),
{
    let mut r = "Co-authored-by: ".to_owned();
    r.append(author.name.as_str());
    r.append(" <");
    r.append(author.email.as_str());
    r.append(">");
    r
}

/// `Name <email>` for the identity git knows the user by.
pub fn format_identity(name: &str, email: &str) -> (r: String)
    ensures
        r@ == identity(name@, email@),
{
    let mut r = name.to_owned();
    r.append(" <");
    r.append(email);
    r.append(">");
    r
}

/// The display text from the identity line and an already trimmed body.
pub fn compose_display(git_user: &str, body: &str) -> (r: String)
    ensures
        r@ == display_text(git_user@, body@),
{
    if body.is_empty() {
        git_user.to_owned()
    } else {
        let mut r = git_user.to_owned();
        r.append("\n");
        r.append(body);
        r
    }
}

/// The display text for a stored template: surrounding whitespace of the
/// template is dropped first.
pub fn format_for_display(git_user: &str, template: &str) -> (r: String)
    ensures
        r@ == display_text(git_user@, trim_of(template@)),
        template@.len() == 0 ==> r@ == git_user@,
{
    compose_display(git_user, trim_str(template))
}

/// The template holding the given trailer lines: two newlines keep them
/// apart from the subject and body written above them.
pub fn template_from_trailers(trailers: &str) -> (r: String)
    ensures
        r@ == "\n\n"@ + trailers@,
{
    let mut r = "\n\n".to_owned();
    r.append(trailers);
    r
}

/// The initials joined by commas, with a trailing newline.
pub fn format_initials(selection: &[String]) -> (r: String)
    ensures
        r@ == initials_text(views(selection@)),
{
    let ghost sel = views(selection@);
    let mut r = String::new();
    let mut i: usize = 0;
    while i < selection.len()
        invariant
            i <= selection@.len(),
            sel == views(selection@),
            r@ == join(sel.subrange(0, i as int), ","@),
        decreases selection@.len() - i,
    {
        proof {
            let sub = sel.subrange(0, i as int + 1);
            assert(sub.drop_last() =~= sel.subrange(0, i as int));
        }
        if i > 0 {
            r.append(",");
        }
        r.append(selection[i].as_str());
        i = i + 1;
    }
    proof {
        assert(sel.subrange(0, i as int) =~= sel);
    }
    r.append("\n");
    r
}

/// The template for `selection`: `Ok` with the text when every initial is in
/// the roster, else `Err` with the first initial that is not.
pub fn render(selection: &[String], roster: &Coauthors) -> (r: Result<String, String>)
    ensures
        r is Ok <==> all_known(views(selection@), roster@),
        r is Ok ==> r->Ok_0@ == template_text(views(selection@), roster@),
        r is Err ==> exists|i: int|
            0 <= i < selection@.len() && #[trigger] selection@[i]@ == r->Err_0@ && !has_key(
                roster@,
                r->Err_0@,
            ) && all_known(views(selection@).subrange(0, i), roster@),
{
    let ghost sel = views(selection@);
    if selection.len() == 0 {
        return Ok(String::new());
    }
    let mut r = String::new();
    let mut i: usize = 0;
    while i < selection.len()
        invariant
            i <= selection@.len(),
            sel == views(selection@),
            sel.len() > 0,
            all_known(sel.subrange(0, i as int), roster@),
            r@ == join(trailers(sel.subrange(0, i as int), roster@), "\n"@),
        decreases selection@.len() - i,
    {
        match roster.get(selection[i].as_str()) {
            None => {
                proof {
                    assert(sel[i as int] == selection@[i as int]@);
                }
                return Err(selection[i].clone());
            },
            Some(author) => {
                let line = trailer_line(author);
                proof {
                    let sub = sel.subrange(0, i as int + 1);
                    assert(sub.drop_last() =~= sel.subrange(0, i as int));
                    assert(trailers(sub, roster@).drop_last() =~= trailers(
                        sel.subrange(0, i as int),
                        roster@,
                    ));
                    assert(sub[i as int] == sel[i as int]);
                    assert forall|j: int| 0 <= j < sub.len() implies has_key(
                        roster@,
                        #[trigger] sub[j],
                    ) by {
                        if j < i {
                            assert(sub[j] == sel.subrange(0, i as int)[j]);
                        }
                    }
                }
                if i > 0 {
                    r.append("\n");
                }
                r.append(line.as_str());
                i = i + 1;
            },
        }
    }
    proof {
        assert(sel.subrange(0, i as int) =~= sel);
    }
    Ok(template_from_trailers(r.as_str()))
}

} // verus!
