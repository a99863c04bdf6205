//! Condensing a manual page into a short digest of three sections.
use vstd::prelude::*;
use crate::text::{
    append_bytes, contains, copy_range, find_from, first_match, lemma_first_match, matches_at,
};

verus! {

/// The longest description fragment kept in a digest, in bytes.
pub const DESCRIPTION_LIMIT: usize = 300;

/// The two-character paragraph break that ends a section.
pub open spec fn paragraph_break() -> Seq<u8> {
    seq![13u8, 10, 13, 10]
}

pub open spec fn name_label() -> Seq<u8> {
    seq![78u8, 65, 77, 69]
}

pub open spec fn synopsis_label() -> Seq<u8> {
    seq![83u8, 89, 78, 79, 80, 83, 73, 83]
}

pub open spec fn description_label() -> Seq<u8> {
    seq![68u8, 69, 83, 67, 82, 73, 80, 84, 73, 79, 78]
}

/// What a section label is searched as: the label at the start of a line.
pub open spec fn heading(label: Seq<u8>) -> Seq<u8> {
    seq![10u8] + label
}

/// `s` without one line break at its start.
pub open spec fn skip_line_break(s: Seq<u8>) -> Seq<u8> {
    if s.len() > 0 && s[0] == 10u8 {
        s.drop_first()
    } else {
        s
    }
}

/// `s` up to and including its first paragraph break, or all of `s`.
pub open spec fn up_to_break(s: Seq<u8>) -> Seq<u8> {
    match first_match(s, paragraph_break()) {
        Some(j) => s.subrange(0, j + 4),
        None => s,
    }
}

/// The content of the section `label` in `text`: it follows the first
/// line-initial occurrence of the label (past one line break) and runs up to
/// and including the next paragraph break, or to the end of the text.
pub open spec fn section_body(text: Seq<u8>, label: Seq<u8>) -> Option<Seq<u8>> {
    match first_match(text, heading(label)) {
        Some(i) => Some(
            up_to_break(skip_line_break(text.subrange(i + label.len() + 1, text.len() as int))),
        ),
        None => None,
    }
}

/// A section as it stands in a digest: `"<LABEL>: "` and its content.
pub open spec fn labeled(label: Seq<u8>, body: Seq<u8>) -> Seq<u8> {
    label + seq![58u8, 32] + body
}

/// `s` cut to at most `n` bytes.
pub open spec fn truncated(s: Seq<u8>, n: int) -> Seq<u8> {
    if s.len() > n {
        s.subrange(0, n)
    } else {
        s
    }
}

/// What a section contributes to a digest: nothing where it is missing.
pub open spec fn part(text: Seq<u8>, label: Seq<u8>) -> Seq<u8> {
    match section_body(text, label) {
        Some(b) => labeled(label, b),
        None => Seq::empty(),
    }
}

/// The description's contribution, its content cut to the byte limit.
pub open spec fn description_part(text: Seq<u8>) -> Seq<u8> {
    match section_body(text, description_label()) {
        Some(b) => labeled(description_label(), truncated(b, DESCRIPTION_LIMIT as int)),
        None => Seq::empty(),
    }
}

/// None of the three sections is in `text`.
pub open spec fn no_section(text: Seq<u8>) -> bool {
    &&& section_body(text, name_label()) is None
    &&& section_body(text, synopsis_label()) is None
    &&& section_body(text, description_label()) is None
}

/// The text that stands in for a manual that could not be had.
pub open spec fn placeholder(command: Seq<u8>) -> Seq<u8> {
    seq![78u8, 111, 32, 109, 97, 110, 117, 97, 108, 32, 102, 111, 117, 110, 100, 32, 102, 111, 114, 32, 99, 111, 109, 109, 97, 110, 100, 32] + command
        + seq![46u8]
}

/// The digest of a manual: NAME, SYNOPSIS and DESCRIPTION in this order,
/// or the placeholder where the tool gave nothing or no section was found.
pub open spec fn digest(command: Seq<u8>, manual: Option<Seq<u8>>) -> Seq<u8> {
    match manual {
        Some(text) => if no_section(text) {
            placeholder(command)
        } else {
            part(text, name_label()) + part(text, synopsis_label()) + description_part(text)
        },
        None => placeholder(command),
    }
}

/// The content of the section `label` of `content`, without its label.
pub fn section_content(content: &[u8], label: &[u8]) -> (r: Option<Vec<u8>>)
    requires
        content@.len() + label@.len() < usize::MAX - 2,
    ensures
        match section_body(content@, label@) {
            Some(b) => r matches Some(v) && v@ == b,
            None => r is None,
        },
        r matches Some(v) ==> v@.len() <= content@.len(),
{
    let mut pattern: Vec<u8> = Vec::new();
    pattern.push(10u8);
    append_bytes(&mut pattern, label);
    assert(pattern@ =~= heading(label@));
    match find_from(content, pattern.as_slice(), 0) {
        None => None,
        Some(i) => {
            proof {
                lemma_first_match(content@, heading(label@));
            }
            let mut start: usize = i + label.len() + 1;
            let ghost rest = content@.subrange(start as int, content@.len() as int);
            if start < content.len() && content[start] == 10u8 {
                start = start + 1;
                assert(skip_line_break(rest) =~= content@.subrange(
                    start as int,
                    content@.len() as int,
                ));
            } else {
                assert(skip_line_break(rest) == content@.subrange(
                    start as int,
                    content@.len() as int,
                ));
            }
            let body = copy_range(content, start, content.len());
            let end = find_from(body.as_slice(), &[13u8, 10, 13, 10], 0);
            proof {
                assert(seq![13u8, 10, 13, 10] =~= paragraph_break());
                lemma_first_match(body@, paragraph_break());
            }
            match end {
                Some(j) => Some(copy_range(body.as_slice(), 0, j + 4)),
                None => Some(body),
            }
        },
    }
}

/// The section `section` of `content` as it stands in a digest:
/// `"<LABEL>: "` followed by its content.
pub fn extract_section(content: &[u8], section: &[u8]) -> (r: Option<Vec<u8>>)
    requires
        content@.len() + section@.len() < usize::MAX - 2,
    ensures
        match section_body(content@, section@) {
            Some(b) => r matches Some(v) && v@ == labeled(section@, b),
            None => r is None,
        },
        r matches Some(v) ==> v@.len() <= content@.len() + section@.len() + 2,
{
    match section_content(content, section) {
        None => None,
        Some(body) => Some(labeled_bytes(section, body.as_slice())),
    }
}

fn labeled_bytes(label: &[u8], body: &[u8]) -> (r: Vec<u8>)
    requires
        label@.len() + body@.len() < usize::MAX - 2,
    ensures
        r@ == labeled(label@, body@),
{
    let mut r: Vec<u8> = Vec::new();
    append_bytes(&mut r, label);
    r.push(58u8);
    r.push(32u8);
    append_bytes(&mut r, body);
    assert(r@ =~= labeled(label@, body@));
    r
}

fn name_label_bytes() -> (r: Vec<u8>)
    ensures
        r@ == name_label(),
{
    let r: Vec<u8> = vec![78u8, 65, 77, 69];
    assert(r@ =~= name_label());
    r
}

fn synopsis_label_bytes() -> (r: Vec<u8>)
    ensures
        r@ == synopsis_label(),
{
    let r: Vec<u8> = vec![83u8, 89, 78, 79, 80, 83, 73, 83];
    assert(r@ =~= synopsis_label());
    r
}

fn description_label_bytes() -> (r: Vec<u8>)
    ensures
        r@ == description_label(),
{
    let r: Vec<u8> = vec![68u8, 69, 83, 67, 82, 73, 80, 84, 73, 79, 78];
    assert(r@ =~= description_label());
    r
}

/// The text that stands in for the manual of `command` where none was found.
pub fn placeholder_text(command: &[u8]) -> (r: Vec<u8>)
    requires
        command@.len() <= usize::MAX - 64,
    ensures
        r@ == placeholder(command@),
{
    let mut r: Vec<u8> = vec![
        78u8, 111, 32, 109, 97, 110, 117, 97, 108, 32, 102, 111, 117, 110, 100, 32, 102, 111,
        114, 32, 99, 111, 109, 109, 97, 110, 100, 32,
    ];
    append_bytes(&mut r, command);
    r.push(46u8);
    assert(r@ =~= placeholder(command@));
    r
}

/// The bytes that the manual tool gave, if any.
pub open spec fn output_view(manual: Option<&[u8]>) -> Option<Seq<u8>> {
    match manual {
        Some(t) => Some(t@),
        None => None,
    }
}

/// Condenses the output of the manual tool for `command` into its digest.
/// `manual` is `None` where the tool failed or gave no usable output.
pub fn get_command_manual(command: &[u8], manual: Option<&[u8]>) -> (r: Vec<u8>)
    requires
        command@.len() <= usize::MAX - 64,
        manual matches Some(t) ==> t@.len() <= usize::MAX / 4 - 64,
    ensures
        r@ == digest(command@, output_view(manual)),
{
    let text = match manual {
        None => {
            return placeholder_text(command);
        },
        Some(t) => t,
    };
    let name_l = name_label_bytes();
    let synopsis_l = synopsis_label_bytes();
    let description_l = description_label_bytes();
    let name = extract_section(text, name_l.as_slice());
    let synopsis = extract_section(text, synopsis_l.as_slice());
    let description = section_content(text, description_l.as_slice());
    if name.is_none() && synopsis.is_none() && description.is_none() {
        return placeholder_text(command);
    }
    let mut condensed: Vec<u8> = Vec::new();
    if let Some(n) = name {
        append_bytes(&mut condensed, n.as_slice());
    }
    if let Some(s) = synopsis {
        append_bytes(&mut condensed, s.as_slice());
    }
    if let Some(d) = description {
        let kept = if d.len() > DESCRIPTION_LIMIT {
            copy_range(d.as_slice(), 0, DESCRIPTION_LIMIT)
        } else {
            d
        };
        let fragment = labeled_bytes(description_l.as_slice(), kept.as_slice());
        append_bytes(&mut condensed, fragment.as_slice());
    }
    assert(condensed@ =~= part(text@, name_label()) + part(text@, synopsis_label())
        + description_part(text@));
    condensed
}

/// A digest is never empty: without any section it is the placeholder.
pub proof fn lemma_digest_never_empty(command: Seq<u8>, manual: Option<Seq<u8>>)
    ensures
        digest(command, manual).len() > 0,
{
    if let Some(text) = manual {
        if !no_section(text) {
            if section_body(text, name_label()) is Some {
                assert(part(text, name_label()).len() > 0);
            } else if section_body(text, synopsis_label()) is Some {
                assert(part(text, synopsis_label()).len() > 0);
            } else {
                assert(description_part(text).len() > 0);
            }
        }
    }
}

/// A label that does not occur in the text gives no section.
proof fn lemma_absent_label(text: Seq<u8>, label: Seq<u8>)
    requires
        !contains(text, label),
    ensures
        section_body(text, label) is None,
{
    lemma_first_match(text, heading(label));
    if let Some(k) = first_match(text, heading(label)) {
        assert(text.subrange(k + 1, k + 1 + label.len()) =~= heading(label).subrange(
            1,
            1 + label.len() as int,
        ));
        assert(heading(label).subrange(1, 1 + label.len() as int) =~= label);
        assert(matches_at(text, label, k + 1));
    }
}

/// A manual text in which none of the three labels occurs condenses to the
/// placeholder.
pub proof fn lemma_missing_labels_give_placeholder(command: Seq<u8>, text: Seq<u8>)
    requires
        !contains(text, name_label()),
        !contains(text, synopsis_label()),
        !contains(text, description_label()),
    ensures
        digest(command, Some(text)) == placeholder(command),
{
    lemma_absent_label(text, name_label());
    lemma_absent_label(text, synopsis_label());
    lemma_absent_label(text, description_label());
}

/// A description of at least the byte limit keeps exactly its first
/// `DESCRIPTION_LIMIT` bytes, whatever characters they split.
pub proof fn lemma_long_description_is_cut(command: Seq<u8>, text: Seq<u8>, body: Seq<u8>)
    requires
        section_body(text, description_label()) == Some(body),
        body.len() >= DESCRIPTION_LIMIT,
    ensures
        digest(command, Some(text)) == part(text, name_label()) + part(text, synopsis_label())
            + labeled(description_label(), body.subrange(0, DESCRIPTION_LIMIT as int)),
        body.subrange(0, DESCRIPTION_LIMIT as int).len() == DESCRIPTION_LIMIT,
{
    if body.len() == DESCRIPTION_LIMIT {
        assert(body.subrange(0, DESCRIPTION_LIMIT as int) =~= body);
    }
}

/// A description shorter than the byte limit is kept verbatim.
pub proof fn lemma_short_description_is_kept(command: Seq<u8>, text: Seq<u8>, body: Seq<u8>)
    requires
        section_body(text, description_label()) == Some(body),
        body.len() < DESCRIPTION_LIMIT,
    ensures
        digest(command, Some(text)) == part(text, name_label()) + part(text, synopsis_label())
            + labeled(description_label(), body),
{
}

} // verus!
