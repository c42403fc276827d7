//! Distinguished names: their grammar, and the entries that they name below
//! the base of the directory.

use vstd::prelude::*;
use vstd::string::*;
use crate::error::{LdapError, LdapErrorView, LdapResult, LdapResultCode};
use crate::text::{join_texts, debug_quoted, debug_text, is_whitespace, same_text, text_chars,
    text_from_chars, white_space};
use crate::types::UserId;
use crate::text::ascii_lowercase;

verus! {

/// The pieces of a text between the occurrences of a separator: one more piece
/// than there are separators, none of which holds one.
pub open spec fn split_text(s: Seq<char>, sep: char) -> Seq<Seq<char>>
    decreases s.len(),
{
    if s.len() == 0 {
        seq![Seq::empty()]
    } else {
        let before = split_text(s.drop_last(), sep);
        if s.last() == sep {
            before.push(Seq::empty())
        } else {
            before.update(before.len() - 1, before.last().push(s.last()))
        }
    }
}

/// The pieces of a text, with the separator between one piece and the next.
pub open spec fn joined(pieces: Seq<Seq<char>>, sep: char) -> Seq<char>
    decreases pieces.len(),
{
    if pieces.len() == 0 {
        Seq::empty()
    } else if pieces.len() == 1 {
        pieces[0]
    } else {
        joined(pieces.drop_last(), sep) + seq![sep] + pieces.last()
    }
}

/// A text is cut into at least one piece, no piece holds the separator, and
/// the pieces joined by the separator give the text back.
pub proof fn lemma_split_text(s: Seq<char>, sep: char)
    ensures
        split_text(s, sep).len() >= 1,
        forall|i: int, j: int|
            0 <= i < split_text(s, sep).len() && 0 <= j < split_text(s, sep)[i].len() ==> (
            #[trigger] split_text(s, sep)[i][j]) != sep,
        joined(split_text(s, sep), sep) == s,
    decreases s.len(),
{
    let out = split_text(s, sep);
    if s.len() == 0 {
        assert(joined(out, sep) =~= s);
    } else {
        let before = split_text(s.drop_last(), sep);
        lemma_split_text(s.drop_last(), sep);
        let c = s.last();
        if c == sep {
            assert(out.drop_last() =~= before);
            assert(joined(out, sep) =~= s.drop_last().push(c));
            assert(s.drop_last().push(c) =~= s);
        } else {
            if before.len() == 1 {
                assert(joined(out, sep) =~= s.drop_last().push(c));
            } else {
                assert(out.drop_last() =~= before.drop_last());
                assert(joined(out, sep) =~= joined(before, sep).push(c));
            }
            assert(s.drop_last().push(c) =~= s);
        }
    }
}

/// The position of the first character that is not marked, or the length
/// where every character is marked.
pub open spec fn first_unmarked(marks: Seq<bool>) -> int
    decreases marks.len(),
{
    if marks.len() == 0 || !marks[0] {
        0
    } else {
        1 + first_unmarked(marks.drop_first())
    }
}

/// The position behind the last character that is not marked, or 0 where
/// every character is marked.
pub open spec fn end_unmarked(marks: Seq<bool>) -> int
    decreases marks.len(),
{
    if marks.len() == 0 {
        0
    } else if !marks.last() {
        marks.len() as int
    } else {
        end_unmarked(marks.drop_last())
    }
}

/// The text without the marked characters at its start and at its end.
pub open spec fn stripped(s: Seq<char>, marks: Seq<bool>) -> Seq<char> {
    if first_unmarked(marks) >= end_unmarked(marks) {
        Seq::empty()
    } else {
        s.subrange(first_unmarked(marks), end_unmarked(marks))
    }
}

/// For each character of a text, whether it is white space.
pub open spec fn white_space_marks(s: Seq<char>) -> Seq<bool> {
    Seq::new(s.len(), |i: int| white_space(s[i]))
}

/// The text without the white space at either end.
pub open spec fn trim(s: Seq<char>) -> Seq<char> {
    stripped(s, white_space_marks(s))
}

/// The error of a distinguished name that breaks the grammar.
pub open spec fn syntax_error(message: Seq<char>) -> LdapErrorView {
    LdapErrorView { code: LdapResultCode::InvalidDNSyntax, message }
}

/// The message for a component with more than one `=`.
pub open spec fn too_many_elements(first: Seq<char>, second: Seq<char>, third: Seq<char>) -> Seq<
    char,
> {
    "Too many elements in distinguished name: \""@ + debug_quoted(first) + "\", \""@
        + debug_quoted(second) + "\", \""@ + debug_quoted(third) + "\""@
}

/// One component of a distinguished name: a key and a value around a single
/// `=`, each without the white space around it.
pub open spec fn dn_pair(component: Seq<char>) -> Result<(Seq<char>, Seq<char>), LdapErrorView> {
    let parts = split_text(component, '=');
    if parts.len() == 2 {
        Ok((trim(parts[0]), trim(parts[1])))
    } else if parts.len() > 2 {
        Err(syntax_error(too_many_elements(trim(parts[0]), trim(parts[1]), trim(parts[2]))))
    } else {
        Err(syntax_error("Missing DN value"@))
    }
}

/// The pairs of a list of components, or the error of the first component that
/// has none.
pub open spec fn dn_pairs(components: Seq<Seq<char>>) -> Result<
    Seq<(Seq<char>, Seq<char>)>,
    LdapErrorView,
>
    decreases components.len(),
{
    if components.len() == 0 {
        Ok(Seq::empty())
    } else {
        match dn_pairs(components.drop_last()) {
            Err(e) => Err(e),
            Ok(before) => match dn_pair(components.last()) {
                Err(e) => Err(e),
                Ok(pair) => Ok(before.push(pair)),
            },
        }
    }
}

/// A distinguished name as its pairs of key and value: the components stand
/// between commas.
pub open spec fn parsed_dn(dn: Seq<char>) -> Result<Seq<(Seq<char>, Seq<char>)>, LdapErrorView> {
    dn_pairs(split_text(dn, ','))
}

/// Whether a name ends with all the components of the base.
pub open spec fn subtree_of(
    subtree: Seq<(Seq<char>, Seq<char>)>,
    base_tree: Seq<(Seq<char>, Seq<char>)>,
) -> bool {
    subtree.len() >= base_tree.len() && subtree.skip(subtree.len() - base_tree.len()) == base_tree
}

/// The organisational unit under which the entries of a kind stand.
pub open spec fn unit_name(is_group: bool) -> Seq<char> {
    if is_group {
        "groups"@
    } else {
        "people"@
    }
}

/// The message for a name that stands below the base but is no entry of the
/// kind asked for.
pub open spec fn unexpected_format(dn: Seq<char>, is_group: bool, base_dn_str: Seq<char>) -> Seq<
    char,
> {
    "Unexpected DN format. Got \""@ + dn + "\", expected: \"uid=id,ou="@ + unit_name(is_group)
        + ","@ + base_dn_str + "\""@
}

/// The error of a name that names no entry of the kind asked for.
pub open spec fn invalid_username(reason: Seq<char>) -> LdapErrorView {
    syntax_error("Invalid username: "@ + reason)
}

/// The identifier that a distinguished name gives to an entry: the name has
/// two components more than the base, `ou=people` (or `ou=groups`) directly
/// above the base and below it a component with the key `uid` or `cn`, whose
/// value is the identifier.
pub open spec fn id_from_dn(
    dn: Seq<char>,
    base_tree: Seq<(Seq<char>, Seq<char>)>,
    base_dn_str: Seq<char>,
    is_group: bool,
) -> Result<Seq<char>, LdapErrorView> {
    match parsed_dn(dn) {
        Err(e) => Err(e),
        Ok(parts) => if !subtree_of(parts, base_tree) {
            Err(invalid_username("Not a subtree of the base tree"@))
        } else if parts.len() == base_tree.len() + 2 && parts[1].0 == "ou"@ && parts[1].1
            == unit_name(is_group) && (parts[0].0 == "cn"@ || parts[0].0 == "uid"@) {
            Ok(parts[0].1)
        } else {
            Err(invalid_username(unexpected_format(dn, is_group, base_dn_str)))
        },
    }
}

/// The user that a distinguished name names, see [`id_from_dn`].
pub open spec fn user_id_from_dn(
    dn: Seq<char>,
    base_tree: Seq<(Seq<char>, Seq<char>)>,
    base_dn_str: Seq<char>,
) -> Result<Seq<char>, LdapErrorView> {
    match id_from_dn(dn, base_tree, base_dn_str, false) {
        Ok(id) => Ok(ascii_lowercase(id)),
        Err(e) => Err(e),
    }
}

/// A name that reads as `uid=<id>,ou=people,<base>` names the user `<id>`, and
/// one that reads as `cn=<id>,ou=groups,<base>` names the group `<id>`.
pub proof fn lemma_entry_below_base(
    dn: Seq<char>,
    id: Seq<char>,
    base_tree: Seq<(Seq<char>, Seq<char>)>,
    base_dn_str: Seq<char>,
    is_group: bool,
)
    requires
        parsed_dn(dn) == Ok::<Seq<(Seq<char>, Seq<char>)>, LdapErrorView>(
            seq![(if is_group { "cn"@ } else { "uid"@ }, id), ("ou"@, unit_name(is_group))]
                + base_tree,
        ),
    ensures
        id_from_dn(dn, base_tree, base_dn_str, is_group) == Ok::<Seq<char>, LdapErrorView>(id),
        !is_group ==> user_id_from_dn(dn, base_tree, base_dn_str) == Ok::<
            Seq<char>,
            LdapErrorView,
        >(ascii_lowercase(id)),
{
    let parts = seq![(if is_group { "cn"@ } else { "uid"@ }, id), ("ou"@, unit_name(is_group))]
        + base_tree;
    assert(parts.skip(parts.len() - base_tree.len()) =~= base_tree);
}

/// Whether a result and what a contract expects of it agree.
pub open spec fn agrees<T: DeepView>(r: Result<T, LdapError>, expected: Result<T::V, LdapErrorView>) -> bool {
    match expected {
        Ok(v) => r matches Ok(x) && x.deep_view() == v,
        Err(e) => r matches Err(x) && x@ == e,
    }
}

/// Cuts a text at every occurrence of a separator.
pub fn split(s: &Vec<char>, sep: char) -> (r: Vec<Vec<char>>)
    ensures
        r.deep_view() == split_text(s@, sep),
{
    let mut pieces: Vec<Vec<char>> = Vec::new();
    let mut current: Vec<char> = Vec::new();
    let mut i: usize = 0;
    while i < s.len()
        invariant
            i <= s.len(),
            pieces.deep_view().push(current@) == split_text(s@.take(i as int), sep),
        decreases s.len() - i,
    {
        let ghost before = split_text(s@.take(i as int), sep);
        proof {
            assert(s@.take(i as int + 1).drop_last() =~= s@.take(i as int));
            assert(before.len() == pieces.deep_view().len() + 1);
            assert(before.last() == current@);
        }
        let c = s[i];
        if c == sep {
            let ghost old_pieces = pieces.deep_view();
            let ghost old_current = current@;
            pieces.push(current);
            current = Vec::new();
            proof {
                assert(pieces.deep_view() =~~= old_pieces.push(old_current));
                assert(pieces.deep_view().push(current@) =~= before.push(Seq::empty()));
            }
        } else {
            current.push(c);
            proof {
                assert(pieces.deep_view().push(current@) =~= before.update(
                    before.len() - 1,
                    before.last().push(c),
                ));
            }
        }
        i = i + 1;
    }
    let ghost old_pieces = pieces.deep_view();
    let ghost old_current = current@;
    pieces.push(current);
    proof {
        assert(s@.take(s@.len() as int) =~= s@);
        assert(pieces.deep_view() =~~= old_pieces.push(old_current));
    }
    pieces
}

/// The end of the unmarked part lies within the text, behind a character that
/// is not marked, and every character from there on is marked.
pub proof fn lemma_end_unmarked(marks: Seq<bool>)
    ensures
        0 <= end_unmarked(marks) <= marks.len(),
        end_unmarked(marks) > 0 ==> !marks[end_unmarked(marks) - 1],
        forall|j: int| end_unmarked(marks) <= j < marks.len() ==> #[trigger] marks[j],
    decreases marks.len(),
{
    if marks.len() > 0 && marks.last() {
        let rest = marks.drop_last();
        lemma_end_unmarked(rest);
        assert forall|j: int| end_unmarked(marks) <= j < marks.len() implies #[trigger] marks[j] by {
            if j < rest.len() {
                assert(rest[j]);
            }
        }
    }
}

/// The start of the unmarked part lies within the text, at a character that
/// is not marked, and every character before it is marked.
pub proof fn lemma_first_unmarked(marks: Seq<bool>)
    ensures
        0 <= first_unmarked(marks) <= marks.len(),
        first_unmarked(marks) < marks.len() ==> !marks[first_unmarked(marks)],
        forall|j: int| 0 <= j < first_unmarked(marks) ==> #[trigger] marks[j],
    decreases marks.len(),
{
    if marks.len() > 0 && marks[0] {
        let rest = marks.drop_first();
        lemma_first_unmarked(rest);
        assert forall|j: int| 0 <= j < first_unmarked(marks) implies #[trigger] marks[j] by {
            if j > 0 {
                assert(rest[j - 1]);
            }
        }
    }
}

/// Removes the marked characters at both ends of a text: `marks` says of each
/// character whether it is marked.
pub fn strip_marked(s: &Vec<char>, marks: &Vec<bool>) -> (r: Vec<char>)
    requires
        marks.len() == s.len(),
    ensures
        r@ == stripped(s@, marks@),
{
    let mut start: usize = 0;
    assert(marks@.skip(0) =~= marks@);
    while start < s.len() && marks[start]
        invariant
            start <= s.len(),
            marks.len() == s.len(),
            first_unmarked(marks@) == start + first_unmarked(marks@.skip(start as int)),
        decreases s.len() - start,
    {
        proof {
            assert(marks@.skip(start as int).drop_first() =~= marks@.skip(start as int + 1));
        }
        start = start + 1;
    }
    assert(first_unmarked(marks@) == start);
    let mut end: usize = s.len();
    assert(marks@.take(end as int) =~= marks@);
    while end > start && marks[end - 1]
        invariant
            start <= end <= s.len(),
            marks.len() == s.len(),
            end_unmarked(marks@) == end_unmarked(marks@.take(end as int)),
        decreases end,
    {
        proof {
            assert(marks@.take(end as int).drop_last() =~= marks@.take(end - 1));
        }
        end = end - 1;
    }
    proof {
        lemma_end_unmarked(marks@.take(end as int));
    }
    let mut out: Vec<char> = Vec::new();
    let mut i: usize = start;
    while i < end
        invariant
            start <= i <= end <= s.len(),
            out@ == s@.subrange(start as int, i as int),
        decreases end - i,
    {
        out.push(s[i]);
        proof {
            assert(out@ =~= s@.subrange(start as int, i as int + 1));
        }
        i = i + 1;
    }
    proof {
        if start == end {
            assert(out@ =~= Seq::<char>::empty());
        }
    }
    out
}

/// Removes the white space at both ends of a text.
pub fn trimmed(s: &Vec<char>) -> (r: Vec<char>)
    ensures
        r@ == trim(s@),
{
    let mut marks: Vec<bool> = Vec::new();
    let mut i: usize = 0;
    while i < s.len()
        invariant
            i <= s.len(),
            marks@ == white_space_marks(s@).take(i as int),
        decreases s.len() - i,
    {
        marks.push(is_whitespace(s[i]));
        proof {
            assert(marks@ =~= white_space_marks(s@).take(i as int + 1));
        }
        i = i + 1;
    }
    proof {
        assert(marks@ =~= white_space_marks(s@));
    }
    strip_marked(s, &marks)
}

/// A vector of characters holds the text that it shows.
pub proof fn lemma_chars_view(v: Vec<char>)
    ensures
        v.deep_view() == v@,
{
    assert(v.deep_view() =~= v@);
}

/// An error among the first components is the error of the whole list.
pub proof fn lemma_dn_pairs_error(components: Seq<Seq<char>>, n: int)
    requires
        0 <= n <= components.len(),
        dn_pairs(components.take(n)) is Err,
    ensures
        dn_pairs(components) == dn_pairs(components.take(n)),
    decreases components.len() - n,
{
    if n == components.len() {
        assert(components.take(n) =~= components);
    } else {
        assert(components.take(n + 1).drop_last() =~= components.take(n));
        lemma_dn_pairs_error(components, n + 1);
    }
}

/// The error for a distinguished name that breaks the grammar.
fn make_syntax_error(message: String) -> (r: LdapError)
    ensures
        r@ == syntax_error(message@),
{
    LdapError { code: LdapResultCode::InvalidDNSyntax, message }
}

/// Reads one component of a distinguished name.
pub fn make_dn_pair(component: &Vec<char>) -> (r: LdapResult<(String, String)>)
    ensures
        agrees(r, dn_pair(component@)),
{
    let parts = split(component, '=');
    proof {
        if parts.len() > 0 {
            lemma_chars_view(parts@[0]);
        }
        if parts.len() > 1 {
            lemma_chars_view(parts@[1]);
        }
        if parts.len() > 2 {
            lemma_chars_view(parts@[2]);
        }
    }
    if parts.len() == 2 {
        let key = text_from_chars(trimmed(&parts[0]).as_slice());
        let value = text_from_chars(trimmed(&parts[1]).as_slice());
        Ok((key, value))
    } else if parts.len() > 2 {
        let first = text_from_chars(trimmed(&parts[0]).as_slice());
        let second = text_from_chars(trimmed(&parts[1]).as_slice());
        let third = text_from_chars(trimmed(&parts[2]).as_slice());
        let mut message = String::from_str("Too many elements in distinguished name: \"");
        message.append(debug_text(first.as_str()).as_str());
        message.append("\", \"");
        message.append(debug_text(second.as_str()).as_str());
        message.append("\", \"");
        message.append(debug_text(third.as_str()).as_str());
        message.append("\"");
        Err(make_syntax_error(message))
    } else {
        Err(make_syntax_error(String::from_str("Missing DN value")))
    }
}

/// Reads a distinguished name into its pairs of key and value. A component
/// without `=`, or with more than one, is an error with the code
/// `InvalidDNSyntax`; the first such component decides.
pub fn parse_distinguished_name(dn: &str) -> (r: LdapResult<Vec<(String, String)>>)
    ensures
        agrees(r, parsed_dn(dn@)),
{
    let chars = text_chars(dn);
    let components = split(&chars, ',');
    let ghost all = components.deep_view();
    let mut pairs: Vec<(String, String)> = Vec::new();
    let mut i: usize = 0;
    assert(all.take(0) =~= Seq::<Seq<char>>::empty());
    assert(pairs.deep_view() =~= Seq::<(Seq<char>, Seq<char>)>::empty());
    while i < components.len()
        invariant
            i <= components.len(),
            all == components.deep_view(),
            all == split_text(dn@, ','),
            dn_pairs(all.take(i as int)) == Ok::<Seq<(Seq<char>, Seq<char>)>, LdapErrorView>(
                pairs.deep_view(),
            ),
        decreases components.len() - i,
    {
        proof {
            lemma_chars_view(components@[i as int]);
            assert(all.take(i as int + 1).drop_last() =~= all.take(i as int));
            assert(all.take(i as int + 1).last() == components@[i as int]@);
        }
        match make_dn_pair(&components[i]) {
            Err(e) => {
                proof {
                    lemma_dn_pairs_error(all, i as int + 1);
                }
                return Err(e);
            },
            Ok(pair) => {
                let ghost before = pairs.deep_view();
                let ghost added = pair.deep_view();
                pairs.push(pair);
                proof {
                    assert(pairs.deep_view() =~= before.push(added));
                }
            },
        }
        i = i + 1;
    }
    proof {
        assert(all.take(all.len() as int) =~= all);
    }
    Ok(pairs)
}

/// Whether a name stands in the tree below a base: whether its last components
/// are those of the base.
pub fn is_subtree(subtree: &[(String, String)], base_tree: &[(String, String)]) -> (r: bool)
    ensures
        r == subtree_of(subtree.deep_view(), base_tree.deep_view()),
{
    if subtree.len() < base_tree.len() {
        return false;
    }
    let size_diff = subtree.len() - base_tree.len();
    let ghost tail = subtree.deep_view().skip(size_diff as int);
    let mut i: usize = 0;
    while i < base_tree.len()
        invariant
            i <= base_tree.len(),
            size_diff + base_tree.len() == subtree.len(),
            tail == subtree.deep_view().skip(size_diff as int),
            forall|j: int| 0 <= j < i ==> tail[j] == #[trigger] base_tree.deep_view()[j],
        decreases base_tree.len() - i,
    {
        let a = &subtree[size_diff + i];
        let b = &base_tree[i];
        if !same_text(a.0.as_str(), b.0.as_str()) || !same_text(a.1.as_str(), b.1.as_str()) {
            proof {
                assert(tail[i as int] != base_tree.deep_view()[i as int]);
            }
            return false;
        }
        i = i + 1;
    }
    proof {
        assert(tail =~= base_tree.deep_view());
    }
    true
}

/// The error for a name that names no entry of the kind asked for.
fn make_invalid_username(reason: &str) -> (r: LdapError)
    ensures
        r@ == invalid_username(reason@),
{
    make_syntax_error(join_texts("Invalid username: ", reason))
}

/// The identifier of the user or the group that a distinguished name names.
pub fn get_id_from_distinguished_name(
    dn: &str,
    base_tree: &[(String, String)],
    base_dn_str: &str,
    is_group: bool,
) -> (r: LdapResult<String>)
    ensures
        agrees(r, id_from_dn(dn@, base_tree.deep_view(), base_dn_str@, is_group)),
{
    let parts = match parse_distinguished_name(dn) {
        Ok(parts) => parts,
        Err(e) => {
            return Err(e);
        },
    };
    let ou = if is_group {
        "groups"
    } else {
        "people"
    };
    if !is_subtree(parts.as_slice(), base_tree) {
        return Err(make_invalid_username("Not a subtree of the base tree"));
    }
    if parts.len() - base_tree.len() == 2 {
        let unit = &parts[1];
        let entry = &parts[0];
        if same_text(unit.0.as_str(), "ou") && same_text(unit.1.as_str(), ou) && (same_text(
            entry.0.as_str(),
            "cn",
        ) || same_text(entry.0.as_str(), "uid")) {
            return Ok(entry.1.clone());
        }
    }
    let mut reason = String::from_str("Unexpected DN format. Got \"");
    reason.append(dn);
    reason.append("\", expected: \"uid=id,ou=");
    reason.append(ou);
    reason.append(",");
    reason.append(base_dn_str);
    reason.append("\"");
    Err(make_invalid_username(reason.as_str()))
}

/// The user that a distinguished name names: the name is
/// `uid=<user_id>,ou=people,<base>`.
pub fn get_user_id_from_distinguished_name(
    dn: &str,
    base_tree: &[(String, String)],
    base_dn_str: &str,
) -> (r: LdapResult<UserId>)
    ensures
        agrees(r, user_id_from_dn(dn@, base_tree.deep_view(), base_dn_str@)),
{
    match get_id_from_distinguished_name(dn, base_tree, base_dn_str, false) {
        Ok(id) => Ok(UserId::new(id.as_str())),
        Err(e) => Err(e),
    }
}

/// The group that a distinguished name names: the name is
/// `cn=<group>,ou=groups,<base>`.
pub fn get_group_id_from_distinguished_name(
    dn: &str,
    base_tree: &[(String, String)],
    base_dn_str: &str,
) -> (r: LdapResult<String>)
    ensures
        agrees(r, id_from_dn(dn@, base_tree.deep_view(), base_dn_str@, true)),
{
    get_id_from_distinguished_name(dn, base_tree, base_dn_str, true)
}

} // verus!
