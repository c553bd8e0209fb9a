//! Markup forms: the stored text of an HTML fragment, and the stored text
//! as HTML for display.

use crate::text::{chars_of, opt_text, text_of};
use vstd::prelude::*;

verus! {

/// The HTML that `comrak::markdown_to_html` makes of a text, with the
/// crate's default options.
pub uninterp spec fn markdown_as_html(markdown: Seq<char>) -> Seq<char>;

/// Calls `comrak::markdown_to_html` with `comrak::Options::default()`.
#[verifier::external_body]
fn markdown_to_html(markdown: &str) -> (r: String)
    ensures
        r@ == markdown_as_html(markdown@),
{
    comrak::markdown_to_html(markdown, &comrak::Options::default())
}

/// The stored text form of an HTML fragment, given what the converter made
/// of it: the converted text, or the fragment as it came where the
/// converter gave nothing back.
pub open spec fn text_form(html: Seq<char>, converted: Option<Seq<char>>) -> Seq<char> {
    match converted {
        Some(markdown) => markdown,
        None => html,
    }
}

/// The stored text form of an HTML fragment, given what the converter made
/// of it. Never fails: a fragment that the converter could not take is
/// stored unchanged.
pub fn html_to_markdown(html: &str, converted: Option<String>) -> (r: String)
    ensures
        r@ == text_form(html@, opt_text(converted)),
{
    match converted {
        Some(markdown) => markdown,
        None => html.to_owned(),
    }
}

/// The HTML that displays a stored text.
pub fn render_markdown_html(markdown: &str) -> (r: String)
    ensures
        r@ == markdown_as_html(markdown@),
{
    markdown_to_html(markdown)
}

/// Whether a character is white space, as Unicode's `White_Space` class
/// has it.
pub open spec fn is_white_space(c: char) -> bool {
    let n = c as u32;
    (0x09 <= n <= 0x0d) || n == 0x20 || n == 0x85 || n == 0xa0 || n == 0x1680 || (0x2000 <= n
        <= 0x200a) || n == 0x2028 || n == 0x2029 || n == 0x202f || n == 0x205f || n == 0x3000
}

/// Whether a text holds nothing but white space.
pub open spec fn is_blank(text: Seq<char>) -> bool {
    forall|i: int| 0 <= i < text.len() ==> is_white_space(#[trigger] text[i])
}

/// What is displayed for an article: a note while it is not kept yet,
/// another where its text is blank, else its text as HTML.
pub open spec fn displayed_html(markdown: Option<Seq<char>>) -> Seq<char> {
    match markdown {
        None => "<em>Content is still processing.</em>"@,
        Some(text) => if is_blank(text) {
            "<em>No content.</em>"@
        } else {
            markdown_as_html(text)
        },
    }
}

/// Whether a character is white space.
pub fn white_space(c: char) -> (r: bool)
    ensures
        r == is_white_space(c),
{
    let n: u32 = c as u32;
    (0x09 <= n && n <= 0x0d) || n == 0x20 || n == 0x85 || n == 0xa0 || n == 0x1680 || (0x2000
        <= n && n <= 0x200a) || n == 0x2028 || n == 0x2029 || n == 0x202f || n == 0x205f || n
        == 0x3000
}

/// Whether a text holds nothing but white space.
pub fn blank(text: &str) -> (r: bool)
    ensures
        r == is_blank(text@),
{
    let chars = chars_of(text);
    let mut i: usize = 0;
    while i < chars.len()
        invariant
            i <= chars.len(),
            chars@ == text@,
            forall|k: int| 0 <= k < i ==> is_white_space(#[trigger] text@[k]),
        decreases chars.len() - i,
    {
        if !white_space(chars[i]) {
            return false;
        }
        i += 1;
    }
    true
}

/// What is displayed for an article, given its text if it is kept.
pub fn display_html(markdown: Option<&str>) -> (r: String)
    ensures
        r@ == displayed_html(text_of(markdown)),
{
    match markdown {
        None => "<em>Content is still processing.</em>".to_owned(),
        Some(text) => {
            if blank(text) {
                "<em>No content.</em>".to_owned()
            } else {
                render_markdown_html(text)
            }
        },
    }
}

} // verus!
