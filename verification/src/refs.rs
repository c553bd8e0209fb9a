//! Image references inside a text: finding the URLs they point at, and
//! rewriting them to point at local copies.
//!
//! Two forms are known: the bracket form `![alt](url)`, and an `<img>` tag
//! with a quoted `src` attribute. Matching is left to the `regex` crate.

use crate::text::{
    chars_of, matches_at, occurs_at, push_all, push_str, same_text, string_of, texts_view,
};
use vstd::prelude::*;

verus! {

/// Matches an image reference in bracket form; its group is the target.
pub const BRACKET_IMAGE: &'static str = r"!\[[^\]]*]\(([^)]+)\)";

/// Matches an `<img>` tag with a quoted `src`; its group is the source.
pub const TAG_IMAGE: &'static str = r#"<img[^>]+src=["']([^"']+)["'][^>]*>"#;

/// Matches any `<img>` tag.
pub const IMG_TAG: &'static str = r#"<img[^>]*>"#;

/// Matches a quoted `src` attribute; its group is the value.
pub const SRC_ATTR: &'static str = r#"src=["']([^"']+)["']"#;

/// Matches a quoted `alt` attribute; its group is the value.
pub const ALT_ATTR: &'static str = r#"alt=["']([^"']*)["']"#;

/// One match of a pattern in a text.
#[derive(Debug, Clone)]
pub struct Capture {
    /// The text that matched.
    pub whole: String,
    /// The text that the pattern's first group matched, if it took part.
    pub group: Option<String>,
}

impl View for Capture {
    type V = (Seq<char>, Option<Seq<char>>);

    open spec fn view(&self) -> Self::V {
        (
            self.whole@,
            match self.group {
                Some(g) => Some(g@),
                None => None,
            },
        )
    }
}

/// The matches held by a vector, each by its view.
pub open spec fn captures_view(v: Seq<Capture>) -> Seq<(Seq<char>, Option<Seq<char>>)> {
    Seq::new(v.len(), |i: int| v[i]@)
}

/// The successive non-overlapping matches of a pattern in a text, as
/// `regex::Regex::captures_iter` yields them, each as the matched text and
/// the text of the first group; `None` where `regex::Regex::new` refuses the
/// pattern.
pub uninterp spec fn regex_captures(pattern: Seq<char>, text: Seq<char>) -> Option<
    Seq<(Seq<char>, Option<Seq<char>>)>,
>;

/// The parts of a text that lie between the matches of a pattern, as
/// `regex::Regex::split` yields them; `None` where `regex::Regex::new`
/// refuses the pattern.
pub uninterp spec fn regex_split(pattern: Seq<char>, text: Seq<char>) -> Option<Seq<Seq<char>>>;

/// Compiles the pattern with `regex::Regex::new` and walks
/// `regex::Regex::captures_iter` over the text. Each match is handed back as
/// its whole text (group 0) and the text of group 1.
#[verifier::external_body]
fn find_captures(pattern: &str, text: &str) -> (r: Option<Vec<Capture>>)
    ensures
        match r {
            Some(v) => regex_captures(pattern@, text@) == Some(captures_view(v@)),
            None => regex_captures(pattern@, text@) is None,
        },
{
    let re = regex::Regex::new(pattern).ok()?;
    Some(
        re.captures_iter(text).map(
            |c|
                Capture {
                    whole: c.get(0).map_or(String::new(), |m| m.as_str().to_string()),
                    group: c.get(1).map(|m| m.as_str().to_string()),
                },
        ).collect(),
    )
}

/// Compiles the pattern with `regex::Regex::new` and collects what
/// `regex::Regex::split` yields for the text.
#[verifier::external_body]
fn split_text(pattern: &str, text: &str) -> (r: Option<Vec<String>>)
    ensures
        match r {
            Some(v) => regex_split(pattern@, text@) == Some(texts_view(v@)),
            None => regex_split(pattern@, text@) is None,
        },
{
    let re = regex::Regex::new(pattern).ok()?;
    Some(re.split(text).map(|piece| piece.to_string()).collect())
}

/// A source URL and the local reference that stands for it.
#[derive(Debug, Clone)]
pub struct Replacement {
    pub url: String,
    pub local: String,
}

impl View for Replacement {
    type V = (Seq<char>, Seq<char>);

    open spec fn view(&self) -> Self::V {
        (self.url@, self.local@)
    }
}

/// The replacements held by a vector, each by its view.
pub open spec fn replacements_view(v: Seq<Replacement>) -> Seq<(Seq<char>, Seq<char>)> {
    Seq::new(v.len(), |i: int| v[i]@)
}

/// The first-group texts of the matches that have one, in the order of the
/// matches.
pub open spec fn groups_of(matches: Seq<(Seq<char>, Option<Seq<char>>)>) -> Seq<Seq<char>>
    decreases matches.len(),
{
    if matches.len() == 0 {
        Seq::empty()
    } else {
        let before = groups_of(matches.drop_last());
        match matches.last().1 {
            Some(g) => before.push(g),
            None => before,
        }
    }
}

/// The targets that a pattern captures in a text, in order of occurrence;
/// none where the pattern was refused.
pub open spec fn targets(pattern: Seq<char>, text: Seq<char>) -> Seq<Seq<char>> {
    match regex_captures(pattern, text) {
        Some(matches) => groups_of(matches),
        None => Seq::empty(),
    }
}

/// A sequence without its repetitions: each element stays where it first
/// occurs.
pub open spec fn distinct(s: Seq<Seq<char>>) -> Seq<Seq<char>>
    decreases s.len(),
{
    if s.len() == 0 {
        Seq::empty()
    } else {
        let before = distinct(s.drop_last());
        if before.contains(s.last()) {
            before
        } else {
            before.push(s.last())
        }
    }
}

/// The URLs of the images that a text refers to: the targets of its
/// references in bracket form, then the sources of its `<img>` tags, each URL
/// once.
pub open spec fn image_urls(text: Seq<char>) -> Seq<Seq<char>> {
    distinct(targets(BRACKET_IMAGE@, text) + targets(TAG_IMAGE@, text))
}

/// `distinct` keeps every element, and each only once.
pub proof fn lemma_distinct(s: Seq<Seq<char>>)
    ensures
        distinct(s).no_duplicates(),
        forall|x: Seq<char>|
            #![trigger distinct(s).contains(x)]
            #![trigger s.contains(x)]
            distinct(s).contains(x) <==> s.contains(x),
        distinct(s).len() <= s.len(),
    decreases s.len(),
{
    if s.len() > 0 {
        let head = s.drop_last();
        let before = distinct(head);
        lemma_distinct(head);
        assert forall|x: Seq<char>| distinct(s).contains(x) <==> s.contains(x) by {
            if s.contains(x) {
                let i = choose|i: int| 0 <= i < s.len() && s[i] == x;
                if i < s.len() - 1 {
                    assert(head[i] == x);
                    assert(head.contains(x));
                    let j = choose|j: int| 0 <= j < before.len() && before[j] == x;
                    assert(distinct(s)[j] == x);
                } else {
                    if before.contains(x) {
                    } else {
                        assert(distinct(s)[before.len() as int] == x);
                    }
                }
            }
            if distinct(s).contains(x) {
                let j = choose|j: int| 0 <= j < distinct(s).len() && distinct(s)[j] == x;
                if j < before.len() {
                    assert(before[j] == x);
                    assert(before.contains(x));
                    assert(head.contains(x));
                    let i = choose|i: int| 0 <= i < head.len() && head[i] == x;
                    assert(s[i] == x);
                } else {
                    assert(s[s.len() - 1] == x);
                }
            }
        }
    }
}

/// Whether `url` is among the texts of `seen`.
fn is_listed(seen: &Vec<String>, url: &str) -> (r: bool)
    ensures
        r == texts_view(seen@).contains(url@),
{
    let mut i: usize = 0;
    while i < seen.len()
        invariant
            i <= seen.len(),
            forall|k: int| 0 <= k < i ==> texts_view(seen@)[k] != url@,
        decreases seen.len() - i,
    {
        if same_text(seen[i].as_str(), url) {
            assert(texts_view(seen@)[i as int] == url@);
            return true;
        }
        i += 1;
    }
    false
}

/// Adds the targets captured by `matches` to `urls`, each unless it is
/// already there.
fn collect_targets(
    urls: &mut Vec<String>,
    matches: &Vec<Capture>,
    Ghost(earlier): Ghost<Seq<Seq<char>>>,
)
    requires
        texts_view(old(urls)@) == distinct(earlier),
    ensures
        texts_view(final(urls)@) == distinct(earlier + groups_of(captures_view(matches@))),
{
    let ghost all = captures_view(matches@);
    let mut i: usize = 0;
    assert(all.take(0) =~= Seq::empty());
    assert(earlier + groups_of(all.take(0)) =~= earlier);
    while i < matches.len()
        invariant
            i <= matches.len(),
            all == captures_view(matches@),
            texts_view(urls@) == distinct(earlier + groups_of(all.take(i as int))),
        decreases matches.len() - i,
    {
        proof {
            assert(all.take(i + 1).drop_last() =~= all.take(i as int));
            assert(all.take(i + 1).last() == matches@[i as int]@);
        }
        match &matches[i].group {
            Some(g) => {
                let ghost before = earlier + groups_of(all.take(i as int));
                proof {
                    assert(earlier + groups_of(all.take(i + 1)) =~= before.push(g@));
                    assert(before.push(g@).drop_last() =~= before);
                }
                if !is_listed(urls, g.as_str()) {
                    let ghost prior = texts_view(urls@);
                    urls.push(g.clone());
                    assert(texts_view(urls@) =~= prior.push(g@));
                }
            },
            None => {},
        }
        i += 1;
    }
    assert(all.take(matches.len() as int) =~= all);
}

/// The targets that two lists of matches capture, each once, in order of
/// first occurrence, those of the first list first.
pub fn urls_of(bracket: &Vec<Capture>, tags: &Vec<Capture>) -> (urls: Vec<String>)
    ensures
        texts_view(urls@) == distinct(
            groups_of(captures_view(bracket@)) + groups_of(captures_view(tags@)),
        ),
{
    let mut urls: Vec<String> = Vec::new();
    let ghost first = groups_of(captures_view(bracket@));
    assert(texts_view(urls@) =~= distinct(Seq::empty()));
    collect_targets(&mut urls, bracket, Ghost(Seq::empty()));
    assert(Seq::<Seq<char>>::empty() + first =~= first);
    collect_targets(&mut urls, tags, Ghost(first));
    urls
}

/// The URLs of the images that a text refers to, each once, in order of
/// first occurrence: the references in bracket form first, then the `<img>`
/// tags.
pub fn extract_image_urls(markdown: &str) -> (urls: Vec<String>)
    ensures
        texts_view(urls@) == image_urls(markdown@),
        texts_view(urls@).no_duplicates(),
        forall|u: Seq<char>|
            texts_view(urls@).contains(u) <==> (targets(BRACKET_IMAGE@, markdown@).contains(u)
                || targets(TAG_IMAGE@, markdown@).contains(u)),
{
    let bracket = match find_captures(BRACKET_IMAGE, markdown) {
        Some(matches) => matches,
        None => Vec::new(),
    };
    let tags = match find_captures(TAG_IMAGE, markdown) {
        Some(matches) => matches,
        None => Vec::new(),
    };
    let ghost first = targets(BRACKET_IMAGE@, markdown@);
    let ghost second = targets(TAG_IMAGE@, markdown@);
    assert(groups_of(captures_view(bracket@)) == first) by {
        assert(captures_view(Seq::<Capture>::empty()) =~= Seq::empty());
    }
    assert(groups_of(captures_view(tags@)) == second) by {
        assert(captures_view(Seq::<Capture>::empty()) =~= Seq::empty());
    }
    let urls = urls_of(&bracket, &tags);
    proof {
        lemma_distinct(first + second);
        assert forall|u: Seq<char>| (first + second).contains(u) <==> (first.contains(u)
            || second.contains(u)) by {
            if first.contains(u) {
                let i = choose|i: int| 0 <= i < first.len() && first[i] == u;
                assert((first + second)[i] == u);
            }
            if second.contains(u) {
                let i = choose|i: int| 0 <= i < second.len() && second[i] == u;
                assert((first + second)[first.len() + i] == u);
            }
            if (first + second).contains(u) {
                let i = choose|i: int| 0 <= i < (first + second).len() && (first + second)[i] == u;
                if i < first.len() {
                    assert(first[i] == u);
                } else {
                    assert(second[i - first.len()] == u);
                }
            }
        }
    }
    urls
}

/// The local reference that a mapping gives for a URL: that of the first
/// entry for it.
pub open spec fn located(mapping: Seq<(Seq<char>, Seq<char>)>, url: Seq<char>) -> Option<
    Seq<char>,
>
    decreases mapping.len(),
{
    if mapping.len() == 0 {
        None
    } else if mapping[0].0 == url {
        Some(mapping[0].1)
    } else {
        located(mapping.drop_first(), url)
    }
}

/// The target that a source is rewritten to: its local reference, or the
/// source itself where the mapping has none.
pub open spec fn target_of(mapping: Seq<(Seq<char>, Seq<char>)>, src: Seq<char>) -> Seq<char> {
    match located(mapping, src) {
        Some(local) => local,
        None => src,
    }
}

/// What the first of a list of matches captures; empty where there is no
/// match or the group took no part.
pub open spec fn first_group_of(matches: Seq<(Seq<char>, Option<Seq<char>>)>) -> Seq<char> {
    if matches.len() > 0 {
        match matches[0].1 {
            Some(g) => g,
            None => Seq::empty(),
        }
    } else {
        Seq::empty()
    }
}

/// What the first match of a pattern captures in a text; empty where there
/// is no match, the group took no part, or the pattern was refused.
pub open spec fn attribute(pattern: Seq<char>, text: Seq<char>) -> Seq<char> {
    match regex_captures(pattern, text) {
        Some(matches) => first_group_of(matches),
        None => Seq::empty(),
    }
}

/// An image reference in bracket form: `![alt](target)`.
pub open spec fn bracket_form(alt: Seq<char>, target: Seq<char>) -> Seq<char> {
    seq!['!', '['] + alt + seq![']', '('] + target + seq![')']
}

/// The bracket form that stands for an `<img>` tag: its `alt` text, and its
/// `src` as the mapping rewrites it.
pub open spec fn rendered_tag(tag: Seq<char>, mapping: Seq<(Seq<char>, Seq<char>)>) -> Seq<char> {
    bracket_form(attribute(ALT_ATTR@, tag), target_of(mapping, attribute(SRC_ATTR@, tag)))
}

/// The text made of `pieces` with one of `inserts` between each two
/// neighbours. Where there are not one more pieces than inserts, the last
/// piece stands behind the last insert, the one before behind the one
/// before, and so on as far as both go.
pub open spec fn weave(pieces: Seq<Seq<char>>, inserts: Seq<Seq<char>>) -> Seq<char>
    decreases inserts.len(),
{
    if pieces.len() == 0 {
        Seq::empty()
    } else if inserts.len() == 0 {
        pieces[0]
    } else {
        weave(pieces.drop_last(), inserts.drop_last()) + inserts.last() + pieces.last()
    }
}

/// The bracket forms of a sequence of `<img>` tags.
pub open spec fn rendered_tags(
    tags: Seq<(Seq<char>, Option<Seq<char>>)>,
    mapping: Seq<(Seq<char>, Seq<char>)>,
) -> Seq<Seq<char>> {
    Seq::new(tags.len(), |i: int| rendered_tag(tags[i].0, mapping))
}

/// A text with each `<img>` tag replaced by its bracket form: what lies
/// between the tags, with the bracket forms woven in. The text is left as
/// it is where the pattern for tags was refused.
pub open spec fn tags_replaced(text: Seq<char>, mapping: Seq<(Seq<char>, Seq<char>)>) -> Seq<
    char,
> {
    match (regex_captures(IMG_TAG@, text), regex_split(IMG_TAG@, text)) {
        (Some(tags), Some(pieces)) => weave(pieces, rendered_tags(tags, mapping)),
        _ => text,
    }
}

/// A text with every occurrence of `from` replaced by `to`, found from left
/// to right without overlap. An empty `from` occurs nowhere.
pub open spec fn substituted(text: Seq<char>, from: Seq<char>, to: Seq<char>) -> Seq<char>
    decreases text.len(),
{
    if from.len() == 0 || text.len() < from.len() {
        text
    } else if text.subrange(0, from.len() as int) == from {
        to + substituted(text.subrange(from.len() as int, text.len() as int), from, to)
    } else {
        seq![text[0]] + substituted(text.subrange(1, text.len() as int), from, to)
    }
}

/// A text with the entries of a mapping substituted one after the other, in
/// the order of the mapping.
pub open spec fn substituted_all(text: Seq<char>, mapping: Seq<(Seq<char>, Seq<char>)>) -> Seq<
    char,
>
    decreases mapping.len(),
{
    if mapping.len() == 0 {
        text
    } else {
        substituted_all(substituted(text, mapping[0].0, mapping[0].1), mapping.drop_first())
    }
}

/// A text with its image references rewritten: each `<img>` tag becomes a
/// reference in bracket form to its mapped target, then every occurrence
/// that is left of a mapped URL is replaced by its local reference.
pub open spec fn rewritten(text: Seq<char>, mapping: Seq<(Seq<char>, Seq<char>)>) -> Seq<char> {
    substituted_all(tags_replaced(text, mapping), mapping)
}

/// The local reference that the mapping gives for a URL, if any.
pub fn lookup<'a>(mapping: &'a Vec<Replacement>, url: &str) -> (r: Option<&'a str>)
    ensures
        match r {
            Some(local) => located(replacements_view(mapping@), url@) == Some(local@),
            None => located(replacements_view(mapping@), url@) is None,
        },
{
    let ghost all = replacements_view(mapping@);
    let mut i: usize = 0;
    assert(all.skip(0) =~= all);
    while i < mapping.len()
        invariant
            i <= mapping.len(),
            all == replacements_view(mapping@),
            located(all, url@) == located(all.skip(i as int), url@),
        decreases mapping.len() - i,
    {
        assert(all.skip(i as int)[0] == mapping@[i as int]@);
        assert(all.skip(i as int).drop_first() =~= all.skip(i + 1));
        if same_text(mapping[i].url.as_str(), url) {
            return Some(mapping[i].local.as_str());
        }
        i += 1;
    }
    None
}

/// What the first of a list of matches captures.
pub fn first_capture(matches: &Vec<Capture>) -> (r: String)
    ensures
        r@ == first_group_of(captures_view(matches@)),
{
    if matches.len() > 0 {
        match &matches[0].group {
            Some(g) => g.clone(),
            None => String::new(),
        }
    } else {
        String::new()
    }
}

/// What the first match of a pattern captures in a text.
fn first_group(pattern: &str, text: &str) -> (r: String)
    ensures
        r@ == attribute(pattern@, text@),
{
    match find_captures(pattern, text) {
        Some(matches) => first_capture(&matches),
        None => String::new(),
    }
}

/// The bracket form that stands for an image with a given `alt` text and
/// source: the source is rewritten as the mapping tells, or left as it is
/// where the mapping has no entry for it.
pub fn render_tag(alt: &str, src: &str, mapping: &Vec<Replacement>) -> (r: String)
    ensures
        r@ == bracket_form(alt@, target_of(replacements_view(mapping@), src@)),
{
    let mut out: Vec<char> = Vec::new();
    out.push('!');
    out.push('[');
    push_str(&mut out, alt);
    out.push(']');
    out.push('(');
    match lookup(mapping, src) {
        Some(local) => push_str(&mut out, local),
        None => push_str(&mut out, src),
    }
    out.push(')');
    assert(out@ =~= bracket_form(alt@, target_of(replacements_view(mapping@), src@)));
    string_of(&out)
}

/// The text made of `pieces` with one of `inserts` between each two
/// neighbours.
pub fn weave_texts(pieces: &Vec<String>, inserts: &Vec<String>) -> (r: String)
    ensures
        r@ == weave(texts_view(pieces@), texts_view(inserts@)),
{
    let ghost all_pieces = texts_view(pieces@);
    let ghost all_inserts = texts_view(inserts@);
    let p = pieces.len();
    let n = inserts.len();
    let m = if p <= n {
        p
    } else {
        n
    };
    let mut out: Vec<char> = Vec::new();
    if p > n {
        push_str(&mut out, pieces[0].as_str());
        assert(out@ =~= pieces@[0]@);
        assert(all_inserts.take(0) =~= Seq::empty());
        assert(all_pieces.take(p - n)[0] == pieces@[0]@);
    } else {
        assert(all_pieces.take(0) =~= Seq::empty());
    }
    let mut j: usize = 0;
    while j < m
        invariant
            j <= m,
            m <= p,
            m <= n,
            p == pieces.len(),
            n == inserts.len(),
            all_pieces == texts_view(pieces@),
            all_inserts == texts_view(inserts@),
            out@ == weave(all_pieces.take(p - m + j), all_inserts.take(n - m + j)),
        decreases m - j,
    {
        let ghost before = out@;
        push_str(&mut out, inserts[n - m + j].as_str());
        push_str(&mut out, pieces[p - m + j].as_str());
        proof {
            let ps = all_pieces.take(p - m + j + 1);
            let is = all_inserts.take(n - m + j + 1);
            assert(ps.drop_last() =~= all_pieces.take(p - m + j));
            assert(is.drop_last() =~= all_inserts.take(n - m + j));
            assert(ps.last() == pieces@[p - m + j]@);
            assert(is.last() == inserts@[n - m + j]@);
            assert(out@ =~= before + is.last() + ps.last());
        }
        j += 1;
    }
    assert(all_pieces.take(p as int) =~= all_pieces);
    assert(all_inserts.take(n as int) =~= all_inserts);
    string_of(&out)
}

/// A text with each `<img>` tag replaced by a reference in bracket form: the
/// tag's `alt` text, and its `src` as the mapping rewrites it, or as it is
/// where the mapping has no entry for it.
pub fn replace_html_img_tags(markdown: &str, replacements: &Vec<Replacement>) -> (r: String)
    ensures
        r@ == tags_replaced(markdown@, replacements_view(replacements@)),
{
    let tags = match find_captures(IMG_TAG, markdown) {
        Some(tags) => tags,
        None => {
            return markdown.to_owned();
        },
    };
    let pieces = match split_text(IMG_TAG, markdown) {
        Some(pieces) => pieces,
        None => {
            return markdown.to_owned();
        },
    };
    let ghost mapping = replacements_view(replacements@);
    let ghost all = rendered_tags(captures_view(tags@), mapping);
    let mut rendered: Vec<String> = Vec::new();
    let mut i: usize = 0;
    while i < tags.len()
        invariant
            i <= tags.len(),
            mapping == replacements_view(replacements@),
            all == rendered_tags(captures_view(tags@), mapping),
            texts_view(rendered@) == all.take(i as int),
        decreases tags.len() - i,
    {
        let ghost before = texts_view(rendered@);
        let src = first_group(SRC_ATTR, tags[i].whole.as_str());
        let alt = first_group(ALT_ATTR, tags[i].whole.as_str());
        rendered.push(render_tag(alt.as_str(), src.as_str(), replacements));
        assert(texts_view(rendered@) =~= before.push(all[i as int]));
        assert(all.take(i + 1) =~= all.take(i as int).push(all[i as int]));
        i += 1;
    }
    assert(all.take(tags.len() as int) =~= all);
    weave_texts(&pieces, &rendered)
}

/// The characters of `text` with every occurrence of `from` replaced by
/// `to`.
pub fn substitute(text: &Vec<char>, from: &Vec<char>, to: &Vec<char>) -> (r: Vec<char>)
    ensures
        r@ == substituted(text@, from@, to@),
{
    let mut out: Vec<char> = Vec::new();
    if from.len() == 0 || text.len() < from.len() {
        push_all(&mut out, text);
        assert(out@ =~= text@);
        return out;
    }
    let last: usize = text.len() - from.len();
    let mut i: usize = 0;
    assert(text@.subrange(0, text.len() as int) =~= text@);
    while i <= last
        invariant
            i <= text.len(),
            from.len() > 0,
            last == text.len() - from.len(),
            substituted(text@, from@, to@) == out@ + substituted(
                text@.subrange(i as int, text.len() as int),
                from@,
                to@,
            ),
        decreases text.len() - i,
    {
        let ghost rest = text@.subrange(i as int, text.len() as int);
        if matches_at(text, from, i) {
            proof {
                assert(rest.subrange(0, from.len() as int) =~= text@.subrange(
                    i as int,
                    i + from.len(),
                ));
                assert(rest.subrange(from.len() as int, rest.len() as int) =~= text@.subrange(
                    i + from.len(),
                    text.len() as int,
                ));
            }
            let ghost before = out@;
            push_all(&mut out, to);
            i += from.len();
            assert(before + (to@ + substituted(
                text@.subrange(i as int, text.len() as int),
                from@,
                to@,
            )) =~= out@ + substituted(text@.subrange(i as int, text.len() as int), from@, to@));
        } else {
            proof {
                assert(rest.subrange(0, from.len() as int) =~= text@.subrange(
                    i as int,
                    i + from.len(),
                ));
                assert(rest.subrange(1, rest.len() as int) =~= text@.subrange(
                    i + 1,
                    text.len() as int,
                ));
            }
            let ghost before = out@;
            out.push(text[i]);
            i += 1;
            assert(before + (seq![text@[i - 1]] + substituted(
                text@.subrange(i as int, text.len() as int),
                from@,
                to@,
            )) =~= out@ + substituted(text@.subrange(i as int, text.len() as int), from@, to@));
        }
    }
    while i < text.len()
        invariant
            last < i <= text.len(),
            from.len() > 0,
            last == text.len() - from.len(),
            substituted(text@, from@, to@) == out@ + text@.subrange(
                i as int,
                text.len() as int,
            ),
        decreases text.len() - i,
    {
        let ghost before = out@;
        out.push(text[i]);
        i += 1;
        assert(before + text@.subrange(i - 1, text.len() as int) =~= out@ + text@.subrange(
            i as int,
            text.len() as int,
        ));
    }
    assert(out@ + text@.subrange(text.len() as int, text.len() as int) =~= out@);
    out
}

/// A text with its image references rewritten to point at local copies.
///
/// Each `<img>` tag becomes a reference in bracket form to its mapped
/// target. Then every occurrence that is left of a mapped URL is replaced by
/// its local reference, entry by entry; this also rewrites a URL that stands
/// inside another string.
pub fn rewrite(text: &str, mapping: &Vec<Replacement>) -> (r: String)
    ensures
        r@ == rewritten(text@, replacements_view(mapping@)),
{
    let replaced = replace_html_img_tags(text, mapping);
    let mut current: Vec<char> = chars_of(replaced.as_str());
    let ghost all = replacements_view(mapping@);
    let mut i: usize = 0;
    assert(all.skip(0) =~= all);
    while i < mapping.len()
        invariant
            i <= mapping.len(),
            all == replacements_view(mapping@),
            rewritten(text@, all) == substituted_all(current@, all.skip(i as int)),
        decreases mapping.len() - i,
    {
        assert(all.skip(i as int)[0] == mapping@[i as int]@);
        assert(all.skip(i as int).drop_first() =~= all.skip(i + 1));
        let from = chars_of(mapping[i].url.as_str());
        let to = chars_of(mapping[i].local.as_str());
        current = substitute(&current, &from, &to);
        i += 1;
    }
    string_of(&current)
}

/// A text in which the pattern for tags finds nothing is rewritten by
/// substitution alone.
pub proof fn lemma_rewrite_untagged(text: Seq<char>, mapping: Seq<(Seq<char>, Seq<char>)>)
    requires
        regex_captures(IMG_TAG@, text) == Some(Seq::<(Seq<char>, Option<Seq<char>>)>::empty()),
        regex_split(IMG_TAG@, text) == Some(seq![text]),
    ensures
        tags_replaced(text, mapping) == text,
        rewritten(text, mapping) == substituted_all(text, mapping),
{
    assert(rendered_tags(Seq::empty(), mapping) =~= Seq::empty());
}

/// Substitution replaces the first occurrence and goes on behind it: in a
/// text where `from` first occurs behind `before`, what comes out is
/// `before`, then `to`, then the rest with `from` substituted.
pub proof fn lemma_substituted_first(
    before: Seq<char>,
    from: Seq<char>,
    after: Seq<char>,
    to: Seq<char>,
)
    requires
        from.len() > 0,
        forall|k: int| 0 <= k < before.len() ==> !occurs_at(before + from + after, from, k),
    ensures
        substituted(before + from + after, from, to) == before + to + substituted(
            after,
            from,
            to,
        ),
    decreases before.len(),
{
    let text = before + from + after;
    if before.len() == 0 {
        assert(text.subrange(0, from.len() as int) =~= from);
        assert(text.subrange(from.len() as int, text.len() as int) =~= after);
        assert(before + to + substituted(after, from, to) =~= to + substituted(after, from, to));
    } else {
        let rest = before.drop_first();
        assert(!occurs_at(text, from, 0));
        assert(text.subrange(0, from.len() as int) != from);
        assert(text.subrange(1, text.len() as int) =~= rest + from + after);
        assert forall|k: int| 0 <= k < rest.len() implies !occurs_at(
            rest + from + after,
            from,
            k,
        ) by {
            assert(!occurs_at(text, from, k + 1));
            assert((rest + from + after).subrange(k, k + from.len()) =~= text.subrange(
                k + 1,
                k + 1 + from.len(),
            ));
        }
        lemma_substituted_first(rest, from, after, to);
        assert(seq![text[0]] + (rest + to + substituted(after, from, to)) =~= before + to
            + substituted(after, from, to));
    }
}

/// A reference in bracket form whose target is a mapped URL is rewritten
/// to the same reference with the local target, where the URL occurs
/// nowhere before the target and is no closing bracket.
pub proof fn lemma_bracket_target_substituted(alt: Seq<char>, url: Seq<char>, local: Seq<char>)
    requires
        url.len() > 0,
        url != seq![')'],
        forall|k: int|
            0 <= k < alt.len() + 4 ==> !occurs_at(bracket_form(alt, url), url, k),
    ensures
        substituted(bracket_form(alt, url), url, local) == bracket_form(alt, local),
{
    let before = seq!['!', '['] + alt + seq![']', '('];
    let after = seq![')'];
    assert(bracket_form(alt, url) =~= before + url + after);
    lemma_substituted_first(before, url, after, local);
    assert(substituted(after, url, local) == after) by {
        if url.len() == 1 {
            assert(after.subrange(0, 1) =~= after);
            let empty = after.subrange(1, 1);
            assert(substituted(empty, url, local) == empty);
            assert(seq![after[0]] + empty =~= after);
        }
    }
    assert(bracket_form(alt, local) =~= before + local + after);
}

} // verus!
