use vstd::prelude::*;

use crate::text::{
    chars_of, find_chars, find_from, lemma_find_from_bounds, occurs_at, occurs_at_chars,
    string_from_chars, sub_chars,
};

verus! {

/// One piece of a VNDB description, with its markup resolved.
#[derive(Debug, PartialEq)]
pub enum DescriptionPart {
    Text(String),
    Bold(String),
    Italic(String),
    Link { label: String, url: String },
    Spoiler(Vec<DescriptionPart>),
}

/// The mathematical value of a [`DescriptionPart`].
pub enum PartModel {
    Text(Seq<char>),
    Bold(Seq<char>),
    Italic(Seq<char>),
    Link { label: Seq<char>, url: Seq<char> },
    Spoiler(Seq<PartModel>),
}

impl DescriptionPart {
    pub open spec fn model(self) -> PartModel
        decreases self,
    {
        match self {
            DescriptionPart::Text(t) => PartModel::Text(t@),
            DescriptionPart::Bold(t) => PartModel::Bold(t@),
            DescriptionPart::Italic(t) => PartModel::Italic(t@),
            DescriptionPart::Link { label, url } => PartModel::Link { label: label@, url: url@ },
            DescriptionPart::Spoiler(parts) => PartModel::Spoiler(
                Seq::new(
                    parts@.len(),
                    |i: int|
                        if 0 <= i < parts@.len() {
                            parts@[i].model()
                        } else {
                            PartModel::Text(Seq::empty())
                        },
                ),
            ),
        }
    }
}

pub open spec fn models(parts: Seq<DescriptionPart>) -> Seq<PartModel> {
    Seq::new(parts.len(), |i: int| parts[i].model())
}


pub open spec fn bold_open() -> Seq<char> { seq!['[', 'b', ']'] }
pub open spec fn bold_close() -> Seq<char> { seq!['[', '/', 'b', ']'] }
pub open spec fn italic_open() -> Seq<char> { seq!['[', 'i', ']'] }
pub open spec fn italic_close() -> Seq<char> { seq!['[', '/', 'i', ']'] }
pub open spec fn url_open() -> Seq<char> { seq!['[', 'u', 'r', 'l', '='] }
pub open spec fn url_tag_end() -> Seq<char> { seq![']'] }
pub open spec fn url_close() -> Seq<char> { seq!['[', '/', 'u', 'r', 'l', ']'] }
pub open spec fn spoiler_open() -> Seq<char> { seq!['[', 's', 'p', 'o', 'i', 'l', 'e', 'r', ']'] }
pub open spec fn spoiler_close() -> Seq<char> { seq!['[', '/', 's', 'p', 'o', 'i', 'l', 'e', 'r', ']'] }
pub open spec fn tag_start() -> Seq<char> { seq!['['] }

/// Where the bold tag opened at `pos` is closed, if it is.
pub open spec fn bold_end(s: Seq<char>, pos: int) -> Option<int> {
    if occurs_at(s, bold_open(), pos) { find_from(s, bold_close(), pos + 3) } else { None }
}

pub open spec fn italic_end(s: Seq<char>, pos: int) -> Option<int> {
    if occurs_at(s, italic_open(), pos) { find_from(s, italic_close(), pos + 3) } else { None }
}

/// For a link opened at `pos`: where its `]` and its closing tag stand, if both do.
pub open spec fn link_ends(s: Seq<char>, pos: int) -> Option<(int, int)> {
    if occurs_at(s, url_open(), pos) {
        match find_from(s, url_tag_end(), pos + 5) {
            Some(c) => match find_from(s, url_close(), c + 1) {
                Some(e) => Some((c, e)),
                None => None,
            },
            None => None,
        }
    } else {
        None
    }
}

pub open spec fn spoiler_end(s: Seq<char>, pos: int) -> Option<int> {
    if occurs_at(s, spoiler_open(), pos) { find_from(s, spoiler_close(), pos + 9) } else { None }
}

/// Length of the plain text that starts at `pos`: up to the next `[`, or one character
/// when `pos` itself holds a `[` that opens no complete tag.
pub open spec fn text_len(s: Seq<char>, pos: int) -> int {
    match find_from(s, tag_start(), pos) {
        Some(n) => if n == pos { 1 } else { n - pos },
        None => s.len() - pos,
    }
}

/// The parts that the description text `s` yields from position `pos` on.
pub open spec fn parse_from(s: Seq<char>, pos: int) -> Seq<PartModel>
    decreases s.len() - pos,
{
    if pos < 0 || pos >= s.len() {
        Seq::empty()
    } else if bold_end(s, pos) is Some {
        let e = bold_end(s, pos)->0;
        proof { lemma_find_from_bounds(s, bold_close(), pos + 3); }
        seq![PartModel::Bold(s.subrange(pos + 3, e))] + parse_from(s, e + 4)
    } else if italic_end(s, pos) is Some {
        let e = italic_end(s, pos)->0;
        proof { lemma_find_from_bounds(s, italic_close(), pos + 3); }
        seq![PartModel::Italic(s.subrange(pos + 3, e))] + parse_from(s, e + 4)
    } else if link_ends(s, pos) is Some {
        let (c, e) = link_ends(s, pos)->0;
        proof {
            lemma_find_from_bounds(s, url_tag_end(), pos + 5);
            lemma_find_from_bounds(s, url_close(), c + 1);
        }
        seq![PartModel::Link { label: s.subrange(c + 1, e), url: s.subrange(pos + 5, c) }]
            + parse_from(s, e + 6)
    } else if spoiler_end(s, pos) is Some {
        let e = spoiler_end(s, pos)->0;
        proof { lemma_find_from_bounds(s, spoiler_close(), pos + 9); }
        seq![PartModel::Spoiler(parse_from(s.subrange(pos + 9, e), 0))] + parse_from(s, e + 10)
    } else {
        let k = text_len(s, pos);
        proof { lemma_find_from_bounds(s, tag_start(), pos); }
        seq![PartModel::Text(s.subrange(pos, pos + k))] + parse_from(s, pos + k)
    }
}

/// The parts of a whole description text.
pub open spec fn parsed_description(s: Seq<char>) -> Seq<PartModel> {
    parse_from(s, 0)
}

fn parse_chars(s: &Vec<char>) -> (parts: Vec<DescriptionPart>)
    ensures
        models(parts@) == parse_from(s@, 0),
    decreases s.len(),
{
    let b_open = vec!['[', 'b', ']'];
    let b_close = vec!['[', '/', 'b', ']'];
    let i_open = vec!['[', 'i', ']'];
    let i_close = vec!['[', '/', 'i', ']'];
    let u_open = vec!['[', 'u', 'r', 'l', '='];
    let u_tag_end = vec![']'];
    let u_close = vec!['[', '/', 'u', 'r', 'l', ']'];
    let s_open = vec!['[', 's', 'p', 'o', 'i', 'l', 'e', 'r', ']'];
    let s_close = vec!['[', '/', 's', 'p', 'o', 'i', 'l', 'e', 'r', ']'];
    let t_start = vec!['['];
    assert(b_open@ == bold_open() && b_close@ == bold_close() && i_open@ == italic_open()
        && i_close@ == italic_close() && u_open@ == url_open() && u_tag_end@ == url_tag_end()
        && u_close@ == url_close() && s_open@ == spoiler_open() && s_close@ == spoiler_close()
        && t_start@ == tag_start());

    let mut parts: Vec<DescriptionPart> = Vec::new();
    let mut pos: usize = 0;
    assert(models(parts@) + parse_from(s@, 0) =~= parse_from(s@, 0));
    while pos < s.len()
        invariant
            pos <= s.len(),
            b_open@ == bold_open() && b_close@ == bold_close() && i_open@ == italic_open()
                && i_close@ == italic_close() && u_open@ == url_open() && u_tag_end@
                == url_tag_end() && u_close@ == url_close() && s_open@ == spoiler_open()
                && s_close@ == spoiler_close() && t_start@ == tag_start(),
            models(parts@) + parse_from(s@, pos as int) == parse_from(s@, 0),
        decreases s.len() - pos,
    {
        let ghost old_parts = parts@;
        let ghost rest = parse_from(s@, pos as int);
        let part: DescriptionPart;
        let next: usize;
        let link: Option<(usize, usize)> = if occurs_at_chars(s, &u_open, pos) {
            match find_chars(s, &u_tag_end, pos + 5) {
                Some(c) => {
                    proof { lemma_find_from_bounds(s@, url_tag_end(), pos + 5); }
                    match find_chars(s, &u_close, c + 1) {
                        Some(e) => Some((c, e)),
                        None => None,
                    }
                },
                None => None,
            }
        } else {
            None
        };
        assert(link matches Some((c, e)) ==> link_ends(s@, pos as int) == Some((c as int, e as int)));
        assert(link is None ==> link_ends(s@, pos as int) is None);
        if occurs_at_chars(s, &b_open, pos) && find_chars(s, &b_close, pos + 3).is_some() {
            let e = find_chars(s, &b_close, pos + 3).unwrap();
            proof { lemma_find_from_bounds(s@, bold_close(), pos + 3); }
            part = DescriptionPart::Bold(string_from_chars(s, pos + 3, e));
            next = e + 4;
        } else if occurs_at_chars(s, &i_open, pos) && find_chars(s, &i_close, pos + 3).is_some() {
            let e = find_chars(s, &i_close, pos + 3).unwrap();
            proof { lemma_find_from_bounds(s@, italic_close(), pos + 3); }
            part = DescriptionPart::Italic(string_from_chars(s, pos + 3, e));
            next = e + 4;
        } else if link.is_some() {
            let (c, e) = link.unwrap();
            proof {
                lemma_find_from_bounds(s@, url_tag_end(), pos + 5);
                lemma_find_from_bounds(s@, url_close(), c + 1);
            }
            let label = string_from_chars(s, c + 1, e);
            let url = string_from_chars(s, pos + 5, c);
            part = DescriptionPart::Link { label, url };
            next = e + 6;
        } else if occurs_at_chars(s, &s_open, pos) && find_chars(s, &s_close, pos + 9).is_some() {
            let e = find_chars(s, &s_close, pos + 9).unwrap();
            proof { lemma_find_from_bounds(s@, spoiler_close(), pos + 9); }
            let inner = sub_chars(s, pos + 9, e);
            let inner_parts = parse_chars(&inner);
            let ghost ip = inner_parts@;
            part = DescriptionPart::Spoiler(inner_parts);
            proof {
                let m = part.model();
                assert(m->Spoiler_0 =~= models(ip));
            }
            next = e + 10;
        } else {
            proof { lemma_find_from_bounds(s@, tag_start(), pos as int); }
            let len = match find_chars(s, &t_start, pos) {
                Some(n) => if n == pos { 1 } else { n - pos },
                None => s.len() - pos,
            };
            part = DescriptionPart::Text(string_from_chars(s, pos, pos + len));
            next = pos + len;
        }
        parts.push(part);
        assert(models(parts@) =~= models(old_parts) + seq![part.model()]);
        assert(rest =~= seq![part.model()] + parse_from(s@, next as int));
        pos = next;
    }
    parts
}

/// Splits a VNDB description into plain text and the markup that VNDB uses
/// (`[b]`, `[i]`, `[url=...]`, `[spoiler]`); a tag that is never closed stays plain text.
pub fn parse_description(description: String) -> (parts: Vec<DescriptionPart>)
    ensures
        models(parts@) == parsed_description(description@),
{
    let cs = chars_of(description.as_str());
    parse_chars(&cs)
}

/// A description that holds no `[` has no markup: it comes back whole, as one plain text
/// part (or as no part at all when it is empty).
pub proof fn law_plain_description_is_one_text(s: Seq<char>)
    requires
        !crate::text::contains_char(s, '['),
    ensures
        s.len() == 0 ==> parsed_description(s) == Seq::<PartModel>::empty(),
        s.len() > 0 ==> parsed_description(s) == seq![PartModel::Text(s)],
{
    if s.len() > 0 {
        assert(!occurs_at(s, bold_open(), 0)) by { if s.len() >= 3 { assert(s.subrange(0, 3)[0] == s[0]); } }
        assert(!occurs_at(s, italic_open(), 0)) by { if s.len() >= 3 { assert(s.subrange(0, 3)[0] == s[0]); } }
        assert(!occurs_at(s, url_open(), 0)) by { if s.len() >= 5 { assert(s.subrange(0, 5)[0] == s[0]); } }
        assert(!occurs_at(s, spoiler_open(), 0)) by { if s.len() >= 9 { assert(s.subrange(0, 9)[0] == s[0]); } }
        lemma_find_from_bounds(s, tag_start(), 0);
        if find_from(s, tag_start(), 0) is Some {
            let n = find_from(s, tag_start(), 0)->0;
            assert(s.subrange(n, n + 1)[0] == s[n]);
        }
        assert(text_len(s, 0) == s.len());
        assert(s.subrange(0, s.len() as int) =~= s);
        assert(parse_from(s, s.len() as int) == Seq::<PartModel>::empty());
        assert(parse_from(s, 0) =~= seq![PartModel::Text(s)]);
    }
}

/// The markup text of one part: what `parse_description` read it from.
pub open spec fn rendered_part(p: PartModel) -> Seq<char>
    decreases p,
{
    match p {
        PartModel::Text(t) => t,
        PartModel::Bold(t) => bold_open() + t + bold_close(),
        PartModel::Italic(t) => italic_open() + t + italic_close(),
        PartModel::Link { label, url } => url_open() + url + url_tag_end() + label + url_close(),
        PartModel::Spoiler(inner) => spoiler_open() + rendered(inner) + spoiler_close(),
    }
}

/// The markup text of a sequence of parts, one after the other.
pub open spec fn rendered(parts: Seq<PartModel>) -> Seq<char>
    decreases parts,
{
    if parts.len() == 0 {
        Seq::empty()
    } else {
        rendered_part(parts[0]) + rendered(parts.subrange(1, parts.len() as int))
    }
}

proof fn lemma_rendered_cons(p: PartModel, rest: Seq<PartModel>)
    ensures
        rendered(seq![p] + rest) == rendered_part(p) + rendered(rest),
{
    let ps = seq![p] + rest;
    assert(ps[0] == p);
    assert(ps.subrange(1, ps.len() as int) =~= rest);
}

proof fn lemma_subrange_split(s: Seq<char>, a: int, b: int, c: int)
    requires
        0 <= a <= b <= c <= s.len(),
    ensures
        s.subrange(a, c) == s.subrange(a, b) + s.subrange(b, c),
{
    assert(s.subrange(a, c) =~= s.subrange(a, b) + s.subrange(b, c));
}

/// The text of one tagged part: `open`, the body, `close`, and then the rest.
proof fn lemma_tagged_step(s: Seq<char>, pos: int, open: Seq<char>, e: int, close: Seq<char>, rest: Seq<char>)
    requires
        occurs_at(s, open, pos),
        occurs_at(s, close, e),
        pos + open.len() <= e,
        rest == s.subrange(e + close.len(), s.len() as int),
    ensures
        open + s.subrange(pos + open.len(), e) + close + rest == s.subrange(pos, s.len() as int),
{
    lemma_subrange_split(s, pos, pos + open.len(), s.len() as int);
    lemma_subrange_split(s, pos + open.len(), e, s.len() as int);
    lemma_subrange_split(s, e, e + close.len(), s.len() as int);
    assert(open + s.subrange(pos + open.len(), e) + close + rest =~= open + (s.subrange(pos + open.len(), e) + (close + rest)));
}

#[verifier::spinoff_prover]
#[verifier::rlimit(40)]
proof fn lemma_rendered_parse_from(s: Seq<char>, pos: int)
    requires
        0 <= pos <= s.len(),
    ensures
        rendered(parse_from(s, pos)) == s.subrange(pos, s.len() as int),
    decreases s.len() - pos,
{
    if pos == s.len() {
        assert(s.subrange(pos, s.len() as int) =~= Seq::<char>::empty());
    } else if bold_end(s, pos) is Some {
        let e = bold_end(s, pos)->0;
        lemma_find_from_bounds(s, bold_close(), pos + 3);
        let p = PartModel::Bold(s.subrange(pos + 3, e));
        assert(parse_from(s, pos) == seq![p] + parse_from(s, e + 4));
        lemma_rendered_parse_from(s, e + 4);
        lemma_rendered_cons(p, parse_from(s, e + 4));
        lemma_tagged_step(s, pos, bold_open(), e, bold_close(), s.subrange(e + 4, s.len() as int));
    } else if italic_end(s, pos) is Some {
        let e = italic_end(s, pos)->0;
        lemma_find_from_bounds(s, italic_close(), pos + 3);
        let p = PartModel::Italic(s.subrange(pos + 3, e));
        assert(parse_from(s, pos) == seq![p] + parse_from(s, e + 4));
        lemma_rendered_parse_from(s, e + 4);
        lemma_rendered_cons(p, parse_from(s, e + 4));
        lemma_tagged_step(s, pos, italic_open(), e, italic_close(), s.subrange(e + 4, s.len() as int));
    } else if link_ends(s, pos) is Some {
        let (c, e) = link_ends(s, pos)->0;
        lemma_find_from_bounds(s, url_tag_end(), pos + 5);
        lemma_find_from_bounds(s, url_close(), c + 1);
        let p = PartModel::Link { label: s.subrange(c + 1, e), url: s.subrange(pos + 5, c) };
        assert(parse_from(s, pos) == seq![p] + parse_from(s, e + 6));
        lemma_rendered_parse_from(s, e + 6);
        lemma_rendered_cons(p, parse_from(s, e + 6));
        let rest = s.subrange(e + 6, s.len() as int);
        lemma_tagged_step(s, c, url_tag_end(), e, url_close(), rest);
        lemma_subrange_split(s, pos, pos + 5, s.len() as int);
        lemma_subrange_split(s, pos + 5, c, s.len() as int);
        assert(rendered_part(p) + rest =~= url_open() + (s.subrange(pos + 5, c) + (url_tag_end() + s.subrange(c + 1, e) + url_close() + rest)));
    } else if spoiler_end(s, pos) is Some {
        let e = spoiler_end(s, pos)->0;
        lemma_find_from_bounds(s, spoiler_close(), pos + 9);
        let inner = s.subrange(pos + 9, e);
        let p = PartModel::Spoiler(parse_from(inner, 0));
        assert(parse_from(s, pos) == seq![p] + parse_from(s, e + 10));
        lemma_rendered_parse_from(inner, 0);
        assert(inner.subrange(0, inner.len() as int) =~= inner);
        lemma_rendered_parse_from(s, e + 10);
        lemma_rendered_cons(p, parse_from(s, e + 10));
        lemma_tagged_step(s, pos, spoiler_open(), e, spoiler_close(), s.subrange(e + 10, s.len() as int));
    } else {
        let k = text_len(s, pos);
        lemma_find_from_bounds(s, tag_start(), pos);
        let p = PartModel::Text(s.subrange(pos, pos + k));
        assert(parse_from(s, pos) == seq![p] + parse_from(s, pos + k));
        lemma_rendered_parse_from(s, pos + k);
        lemma_rendered_cons(p, parse_from(s, pos + k));
        lemma_subrange_split(s, pos, pos + k, s.len() as int);
    }
}

/// Every plain text part, at any depth (inside spoilers too), holds at least one character.
pub open spec fn part_texts_nonempty(p: PartModel) -> bool
    decreases p,
{
    match p {
        PartModel::Text(t) => t.len() > 0,
        PartModel::Spoiler(inner) => texts_nonempty(inner),
        _ => true,
    }
}

pub open spec fn texts_nonempty(parts: Seq<PartModel>) -> bool
    decreases parts,
{
    if parts.len() == 0 {
        true
    } else {
        part_texts_nonempty(parts[0]) && texts_nonempty(parts.subrange(1, parts.len() as int))
    }
}

proof fn lemma_texts_nonempty_cons(p: PartModel, rest: Seq<PartModel>)
    ensures
        texts_nonempty(seq![p] + rest) == (part_texts_nonempty(p) && texts_nonempty(rest)),
{
    let ps = seq![p] + rest;
    assert(ps[0] == p);
    assert(ps.subrange(1, ps.len() as int) =~= rest);
}

#[verifier::spinoff_prover]
#[verifier::rlimit(40)]
proof fn lemma_parse_from_shape(s: Seq<char>, pos: int)
    requires
        0 <= pos <= s.len(),
    ensures
        parse_from(s, pos).len() <= s.len() - pos,
        texts_nonempty(parse_from(s, pos)),
    decreases s.len() - pos,
{
    if pos == s.len() {
    } else if bold_end(s, pos) is Some {
        let e = bold_end(s, pos)->0;
        lemma_find_from_bounds(s, bold_close(), pos + 3);
        let p = PartModel::Bold(s.subrange(pos + 3, e));
        assert(parse_from(s, pos) == seq![p] + parse_from(s, e + 4));
        lemma_parse_from_shape(s, e + 4);
        lemma_texts_nonempty_cons(p, parse_from(s, e + 4));
    } else if italic_end(s, pos) is Some {
        let e = italic_end(s, pos)->0;
        lemma_find_from_bounds(s, italic_close(), pos + 3);
        let p = PartModel::Italic(s.subrange(pos + 3, e));
        assert(parse_from(s, pos) == seq![p] + parse_from(s, e + 4));
        lemma_parse_from_shape(s, e + 4);
        lemma_texts_nonempty_cons(p, parse_from(s, e + 4));
    } else if link_ends(s, pos) is Some {
        let (c, e) = link_ends(s, pos)->0;
        lemma_find_from_bounds(s, url_tag_end(), pos + 5);
        lemma_find_from_bounds(s, url_close(), c + 1);
        let p = PartModel::Link { label: s.subrange(c + 1, e), url: s.subrange(pos + 5, c) };
        assert(parse_from(s, pos) == seq![p] + parse_from(s, e + 6));
        lemma_parse_from_shape(s, e + 6);
        lemma_texts_nonempty_cons(p, parse_from(s, e + 6));
    } else if spoiler_end(s, pos) is Some {
        let e = spoiler_end(s, pos)->0;
        lemma_find_from_bounds(s, spoiler_close(), pos + 9);
        let inner = s.subrange(pos + 9, e);
        let p = PartModel::Spoiler(parse_from(inner, 0));
        assert(parse_from(s, pos) == seq![p] + parse_from(s, e + 10));
        lemma_parse_from_shape(inner, 0);
        lemma_parse_from_shape(s, e + 10);
        lemma_texts_nonempty_cons(p, parse_from(s, e + 10));
    } else {
        let k = text_len(s, pos);
        lemma_find_from_bounds(s, tag_start(), pos);
        let p = PartModel::Text(s.subrange(pos, pos + k));
        assert(parse_from(s, pos) == seq![p] + parse_from(s, pos + k));
        lemma_parse_from_shape(s, pos + k);
        lemma_texts_nonempty_cons(p, parse_from(s, pos + k));
    }
}

/// A description never yields more parts than it has characters, and no plain text part,
/// at any depth, is empty.
pub proof fn law_description_parts_are_small_and_nonempty(s: Seq<char>)
    ensures
        parsed_description(s).len() <= s.len(),
        texts_nonempty(parsed_description(s)),
{
    lemma_parse_from_shape(s, 0);
}

/// No part of `parts` is a spoiler whose text holds a closing `[/spoiler]` tag.
pub open spec fn spoilers_closed_at_first_tag(parts: Seq<PartModel>) -> bool {
    forall|k: int| 0 <= k < parts.len() ==> (#[trigger] parts[k] matches PartModel::Spoiler(inner)
        ==> forall|j: int| !occurs_at(rendered(inner), spoiler_close(), j))
}

proof fn lemma_spoilers_closed_cons(p: PartModel, rest: Seq<PartModel>)
    requires
        p matches PartModel::Spoiler(inner) ==> forall|j: int| !occurs_at(rendered(inner), spoiler_close(), j),
        spoilers_closed_at_first_tag(rest),
    ensures
        spoilers_closed_at_first_tag(seq![p] + rest),
{
    let ps = seq![p] + rest;
    assert forall|k: int| 0 <= k < ps.len() implies (#[trigger] ps[k] matches PartModel::Spoiler(inner)
        ==> forall|j: int| !occurs_at(rendered(inner), spoiler_close(), j)) by {
        if k > 0 {
            assert(ps[k] == rest[k - 1]);
        }
    }
}

#[verifier::spinoff_prover]
#[verifier::rlimit(40)]
proof fn lemma_parse_from_spoilers(s: Seq<char>, pos: int)
    requires
        0 <= pos <= s.len(),
    ensures
        spoilers_closed_at_first_tag(parse_from(s, pos)),
    decreases s.len() - pos,
{
    if pos == s.len() {
    } else if bold_end(s, pos) is Some {
        let e = bold_end(s, pos)->0;
        lemma_find_from_bounds(s, bold_close(), pos + 3);
        let p = PartModel::Bold(s.subrange(pos + 3, e));
        assert(parse_from(s, pos) == seq![p] + parse_from(s, e + 4));
        lemma_parse_from_spoilers(s, e + 4);
        lemma_spoilers_closed_cons(p, parse_from(s, e + 4));
    } else if italic_end(s, pos) is Some {
        let e = italic_end(s, pos)->0;
        lemma_find_from_bounds(s, italic_close(), pos + 3);
        let p = PartModel::Italic(s.subrange(pos + 3, e));
        assert(parse_from(s, pos) == seq![p] + parse_from(s, e + 4));
        lemma_parse_from_spoilers(s, e + 4);
        lemma_spoilers_closed_cons(p, parse_from(s, e + 4));
    } else if link_ends(s, pos) is Some {
        let (c, e) = link_ends(s, pos)->0;
        lemma_find_from_bounds(s, url_tag_end(), pos + 5);
        lemma_find_from_bounds(s, url_close(), c + 1);
        let p = PartModel::Link { label: s.subrange(c + 1, e), url: s.subrange(pos + 5, c) };
        assert(parse_from(s, pos) == seq![p] + parse_from(s, e + 6));
        lemma_parse_from_spoilers(s, e + 6);
        lemma_spoilers_closed_cons(p, parse_from(s, e + 6));
    } else if spoiler_end(s, pos) is Some {
        let e = spoiler_end(s, pos)->0;
        lemma_find_from_bounds(s, spoiler_close(), pos + 9);
        let inner = s.subrange(pos + 9, e);
        let p = PartModel::Spoiler(parse_from(inner, 0));
        assert(parse_from(s, pos) == seq![p] + parse_from(s, e + 10));
        lemma_rendered_parse_from(inner, 0);
        assert(inner.subrange(0, inner.len() as int) =~= inner);
        assert forall|j: int| !occurs_at(rendered(parse_from(inner, 0)), spoiler_close(), j) by {
            if occurs_at(inner, spoiler_close(), j) {
                assert(inner.subrange(j, j + 10) =~= s.subrange(pos + 9 + j, pos + 9 + j + 10));
                assert(occurs_at(s, spoiler_close(), pos + 9 + j));
                assert(false);
            }
        }
        lemma_parse_from_spoilers(s, e + 10);
        lemma_spoilers_closed_cons(p, parse_from(s, e + 10));
    } else {
        let k = text_len(s, pos);
        lemma_find_from_bounds(s, tag_start(), pos);
        let p = PartModel::Text(s.subrange(pos, pos + k));
        assert(parse_from(s, pos) == seq![p] + parse_from(s, pos + k));
        lemma_parse_from_spoilers(s, pos + k);
        lemma_spoilers_closed_cons(p, parse_from(s, pos + k));
    }
}

/// A spoiler ends at the first `[/spoiler]` after it opens: the text of a spoiler that a
/// description yields never holds a closing `[/spoiler]` tag.
pub proof fn law_spoilers_end_at_the_first_closing_tag(s: Seq<char>)
    ensures
        forall|k: int| 0 <= k < parsed_description(s).len() ==> (#[trigger] parsed_description(s)[k] matches PartModel::Spoiler(inner)
            ==> forall|j: int| !occurs_at(rendered(inner), seq!['[', '/', 's', 'p', 'o', 'i', 'l', 'e', 'r', ']'], j)),
{
    lemma_parse_from_spoilers(s, 0);
}

/// Parsing a description loses no text: writing its parts back with their markup gives
/// the description again, character for character.
pub proof fn law_description_markup_is_kept(s: Seq<char>)
    ensures
        rendered(parsed_description(s)) == s,
{
    lemma_rendered_parse_from(s, 0);
    assert(s.subrange(0, s.len() as int) =~= s);
}

} // verus!
