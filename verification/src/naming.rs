//! Content-addressed names: the digest of a text, and the file names of
//! articles and image assets built from it.

use crate::paths::{path_extension, path_suffix};
use crate::text::{
    ascii_lowercase, chars_of, contains_text, has_substring, lowercase_chars, opt_text,
    push_str, same_chars, string_of, text_of,
};
use crate::urls::{parse_url, parsed_url};
use sha2::Digest;
use vstd::prelude::*;
use vstd::utf8::encode_utf8;

verus! {

/// The SHA-256 digest of a byte sequence, as `sha2::Sha256` computes it.
pub uninterp spec fn sha256(data: Seq<u8>) -> Seq<u8>;

/// The lower-case hexadecimal digit for a value below sixteen.
pub open spec fn hex_digit(n: int) -> char {
    seq!['0', '1', '2', '3', '4', '5', '6', '7', '8', '9', 'a', 'b', 'c', 'd', 'e', 'f'][n]
}

/// Two lower-case hexadecimal digits for each byte, high digit first.
pub open spec fn hex_string(data: Seq<u8>) -> Seq<char> {
    Seq::new(
        2 * data.len(),
        |i: int|
            if i % 2 == 0 {
                hex_digit(data[i / 2] as int / 16)
            } else {
                hex_digit(data[i / 2] as int % 16)
            },
    )
}

/// Whether a character is a lower-case hexadecimal digit.
pub open spec fn is_hex_digit(c: char) -> bool {
    ('0' <= c && c <= '9') || ('a' <= c && c <= 'f')
}

/// Whether a text holds nothing but lower-case hexadecimal digits.
pub open spec fn is_hex(text: Seq<char>) -> bool {
    forall|i: int| 0 <= i < text.len() ==> is_hex_digit(#[trigger] text[i])
}

/// The hexadecimal form of any bytes holds nothing but hexadecimal digits,
/// two for each byte.
pub proof fn lemma_hex_string(data: Seq<u8>)
    ensures
        hex_string(data).len() == 2 * data.len(),
        is_hex(hex_string(data)),
{
    assert forall|i: int| 0 <= i < hex_string(data).len() implies is_hex_digit(
        #[trigger] hex_string(data)[i],
    ) by {
        assert(forall|n: int| 0 <= n < 16 ==> is_hex_digit(#[trigger] hex_digit(n)));
        let byte = data[i / 2] as int;
        assert(0 <= byte / 16 < 16 && 0 <= byte % 16 < 16);
    }
}

/// The digest of a text: the hexadecimal form of the SHA-256 digest of its
/// UTF-8 encoding.
pub open spec fn digest_of(text: Seq<char>) -> Seq<char> {
    hex_string(sha256(encode_utf8(text)))
}

/// Calls `sha2::Sha256::digest`. The result is named, not stated; its length
/// is the 32 bytes of a SHA-256 digest.
#[verifier::external_body]
fn sha256_digest(data: &[u8]) -> (digest: Vec<u8>)
    ensures
        digest@ == sha256(data@),
        digest@.len() == 32,
{
    sha2::Sha256::digest(data).to_vec()
}

/// The lower-case hexadecimal digit for a value below sixteen.
fn hex_char(n: u8) -> (c: char)
    requires
        n < 16,
    ensures
        c == hex_digit(n as int),
{
    if n == 0 {
        '0'
    } else if n == 1 {
        '1'
    } else if n == 2 {
        '2'
    } else if n == 3 {
        '3'
    } else if n == 4 {
        '4'
    } else if n == 5 {
        '5'
    } else if n == 6 {
        '6'
    } else if n == 7 {
        '7'
    } else if n == 8 {
        '8'
    } else if n == 9 {
        '9'
    } else if n == 10 {
        'a'
    } else if n == 11 {
        'b'
    } else if n == 12 {
        'c'
    } else if n == 13 {
        'd'
    } else if n == 14 {
        'e'
    } else {
        'f'
    }
}

/// The bytes as text: two lower-case hexadecimal digits for each byte.
pub fn hex_encode(data: &Vec<u8>) -> (s: String)
    ensures
        s@ == hex_string(data@),
{
    let mut out: Vec<char> = Vec::new();
    let mut i: usize = 0;
    while i < data.len()
        invariant
            i <= data.len(),
            out@.len() == 2 * i,
            forall|k: int| 0 <= k < 2 * i ==> out@[k] == hex_string(data@)[k],
        decreases data.len() - i,
    {
        let byte = data[i];
        out.push(hex_char(byte / 16));
        out.push(hex_char(byte % 16));
        i += 1;
    }
    assert(out@ =~= hex_string(data@));
    string_of(&out)
}

/// The digest of a text, 64 hexadecimal digits.
pub fn hash_string(input: &str) -> (r: String)
    ensures
        r@ == digest_of(input@),
        r@.len() == 64,
        is_hex(r@),
{
    let digest = sha256_digest(input.as_bytes());
    proof {
        lemma_hex_string(digest@);
    }
    hex_encode(&digest)
}

/// The separator that stands between the identifying fields of an article.
pub open spec fn field_separator() -> Seq<char> {
    seq!['|']
}

/// A character as it stands inside a field of an identity text: a bar and
/// a backslash with a backslash in front, every other character as it is.
pub open spec fn escaped_char(c: char) -> Seq<char> {
    if c == '|' || c == '\\' {
        seq!['\\', c]
    } else {
        seq![c]
    }
}

/// A field as it stands in an identity text: each of its characters
/// escaped, so that no bar of the field can be taken for a separator.
pub open spec fn escaped(field: Seq<char>) -> Seq<char>
    decreases field.len(),
{
    if field.len() == 0 {
        Seq::empty()
    } else {
        escaped_char(field[0]) + escaped(field.drop_first())
    }
}

/// The text that identifies an article: its five identifying fields, in
/// order, each escaped, with a `|` between neighbours. Different fields give
/// different texts (`lemma_identity_text_injective`).
pub open spec fn identity_text(
    feed_name: Seq<char>,
    feed_url: Seq<char>,
    title: Seq<char>,
    link: Seq<char>,
    time: Seq<char>,
) -> Seq<char> {
    escaped(feed_name) + field_separator() + escaped(feed_url) + field_separator() + escaped(
        title,
    ) + field_separator() + escaped(link) + field_separator() + escaped(time)
}

/// The name of the file that holds an article: the digest of its identity
/// text, then `.md`.
pub open spec fn article_name(
    feed_name: Seq<char>,
    feed_url: Seq<char>,
    title: Seq<char>,
    link: Seq<char>,
    time: Seq<char>,
) -> Seq<char> {
    digest_of(identity_text(feed_name, feed_url, title, link, time)) + seq!['.', 'm', 'd']
}

/// The name of the file that holds an image: the digest of its source URL, a
/// dot, and the extension.
pub open spec fn asset_name(url: Seq<char>, extension: Seq<char>) -> Seq<char> {
    digest_of(url) + seq!['.'] + extension
}

/// The extension used where neither the content type nor the URL tells the
/// kind of an image.
pub open spec fn generic_extension() -> Seq<char> {
    "img"@
}

/// The extension that a file suffix stands for, compared without regard to
/// ASCII case; the generic one for a suffix that is not known.
pub open spec fn extension_for_suffix(suffix: Seq<char>) -> Seq<char> {
    let e = ascii_lowercase(suffix);
    if e == "png"@ {
        "png"@
    } else if e == "jpeg"@ || e == "jpg"@ {
        "jpg"@
    } else if e == "webp"@ {
        "webp"@
    } else if e == "gif"@ {
        "gif"@
    } else if e == "svg"@ || e == "svgz"@ {
        "svg"@
    } else {
        "img"@
    }
}

/// The extension that a declared content type stands for: that of the first
/// known image type, in the order PNG, JPEG, WebP, GIF, SVG, whose name occurs
/// in it; none where there is no content type or none of them occurs.
pub open spec fn extension_for_content_type(content_type: Option<Seq<char>>) -> Option<
    Seq<char>,
> {
    match content_type {
        None => None,
        Some(ct) => if has_substring(ct, "image/png"@) {
            Some("png"@)
        } else if has_substring(ct, "image/jpeg"@) || has_substring(ct, "image/jpg"@) {
            Some("jpg"@)
        } else if has_substring(ct, "image/webp"@) {
            Some("webp"@)
        } else if has_substring(ct, "image/gif"@) {
            Some("gif"@)
        } else if has_substring(ct, "image/svg+xml"@) {
            Some("svg"@)
        } else {
            None
        },
    }
}

/// The extension of an image, from its declared content type and the suffix
/// of its URL's path: the content type decides where it names a known image
/// type; else the suffix, where there is one; else nothing is known.
pub open spec fn resolved_extension(
    content_type: Option<Seq<char>>,
    suffix: Option<Seq<char>>,
) -> Option<Seq<char>> {
    match extension_for_content_type(content_type) {
        Some(e) => Some(e),
        None => match suffix {
            Some(s) => Some(extension_for_suffix(s)),
            None => None,
        },
    }
}

/// The extension under which an image is stored: the resolved one, or the
/// generic one where nothing is known.
pub open spec fn stored_extension(
    content_type: Option<Seq<char>>,
    suffix: Option<Seq<char>>,
) -> Seq<char> {
    match resolved_extension(content_type, suffix) {
        Some(e) => e,
        None => generic_extension(),
    }
}

/// What the path of a URL ends in: nothing where the URL does not parse or
/// its path has no extension.
pub open spec fn url_suffix(url: Seq<char>) -> Option<Seq<char>> {
    match parsed_url(url) {
        Some(parts) => path_suffix(parts.1),
        None => None,
    }
}

/// The extension under which the image of a URL is stored, given the
/// content type that was declared for it.
pub open spec fn image_extension_of(url: Seq<char>, content_type: Option<Seq<char>>) -> Seq<
    char,
> {
    stored_extension(content_type, url_suffix(url))
}

/// What the path of a URL ends in, if the URL parses and its path has an
/// extension.
pub fn url_extension(url: &str) -> (r: Option<String>)
    ensures
        opt_text(r) == url_suffix(url@),
{
    match parse_url(url) {
        Some(parts) => path_extension(parts.path.as_str()),
        None => None,
    }
}

/// Whether the characters are those of the string.
fn is_text(chars: &Vec<char>, s: &str) -> (r: bool)
    ensures
        r == (chars@ == s@),
{
    let other = chars_of(s);
    same_chars(chars, &other)
}

/// The extension that a file suffix stands for.
pub fn owned_extension(ext: &str) -> (r: &'static str)
    ensures
        r@ == extension_for_suffix(ext@),
{
    let e = lowercase_chars(ext);
    if is_text(&e, "png") {
        "png"
    } else if is_text(&e, "jpeg") || is_text(&e, "jpg") {
        "jpg"
    } else if is_text(&e, "webp") {
        "webp"
    } else if is_text(&e, "gif") {
        "gif"
    } else if is_text(&e, "svg") || is_text(&e, "svgz") {
        "svg"
    } else {
        "img"
    }
}

/// The extension that a declared content type stands for, if any.
pub fn content_type_extension(content_type: Option<&str>) -> (r: Option<&'static str>)
    ensures
        text_of(r) == extension_for_content_type(text_of(content_type)),
{
    match content_type {
        None => None,
        Some(ct) => {
            if contains_text(ct, "image/png") {
                Some("png")
            } else if contains_text(ct, "image/jpeg") || contains_text(ct, "image/jpg") {
                Some("jpg")
            } else if contains_text(ct, "image/webp") {
                Some("webp")
            } else if contains_text(ct, "image/gif") {
                Some("gif")
            } else if contains_text(ct, "image/svg+xml") {
                Some("svg")
            } else {
                None
            }
        },
    }
}

/// The extension of an image, from its declared content type and the suffix
/// of its URL's path.
pub fn resolve_extension(content_type: Option<&str>, suffix: Option<&str>) -> (r: Option<
    &'static str,
>)
    ensures
        text_of(r) == resolved_extension(text_of(content_type), text_of(suffix)),
{
    match content_type_extension(content_type) {
        Some(e) => Some(e),
        None => match suffix {
            Some(s) => Some(owned_extension(s)),
            None => None,
        },
    }
}

/// The extension of an image, from its declared content type and its URL.
/// The content type decides where it names a known image type; else what the
/// URL's path ends in.
pub fn image_extension(url: &str, content_type: Option<&str>) -> (r: Option<&'static str>)
    ensures
        text_of(r) == resolved_extension(text_of(content_type), url_suffix(url@)),
{
    match content_type_extension(content_type) {
        Some(e) => Some(e),
        None => match url_extension(url) {
            Some(s) => Some(owned_extension(s.as_str())),
            None => None,
        },
    }
}

/// The file name of an image asset with a given extension.
pub fn asset_filename(url: &str, extension: &str) -> (r: String)
    ensures
        r@ == asset_name(url@, extension@),
        r@.len() == 65 + extension@.len(),
        is_hex(r@.subrange(0, 64)),
{
    let digest = hash_string(url);
    let mut name = chars_of(digest.as_str());
    name.push('.');
    push_str(&mut name, extension);
    assert(name@.subrange(0, 64) =~= digest@);
    string_of(&name)
}

/// The file name under which an image is looked up before anything is known
/// of its kind: the one with the generic extension.
pub fn provisional_image_filename(url: &str) -> (r: String)
    ensures
        r@ == asset_name(url@, generic_extension()),
        r@.len() == 68,
{
    proof {
        reveal_strlit("img");
    }
    asset_filename(url, "img")
}

/// The file name under which an image is stored: the digest of its URL and
/// the extension resolved from its content type and its URL, or the generic
/// extension where neither tells.
pub fn image_filename(url: &str, content_type: Option<&str>) -> (r: String)
    ensures
        r@ == asset_name(url@, image_extension_of(url@, text_of(content_type))),
        r@.len() == 65 + image_extension_of(url@, text_of(content_type)).len(),
        68 <= r@.len() <= 69,
{
    proof {
        reveal_strlit("png");
        reveal_strlit("jpg");
        reveal_strlit("webp");
        reveal_strlit("gif");
        reveal_strlit("svg");
        reveal_strlit("img");
    }
    let ext = match image_extension(url, content_type) {
        Some(e) => e,
        None => "img",
    };
    asset_filename(url, ext)
}

/// Appends a field to an identity text, each of its characters escaped.
fn push_escaped(out: &mut Vec<char>, field: &str)
    ensures
        final(out)@ == old(out)@ + escaped(field@),
{
    let chars = chars_of(field);
    let mut i: usize = 0;
    assert(chars@.skip(0) =~= chars@);
    while i < chars.len()
        invariant
            i <= chars.len(),
            chars@ == field@,
            out@ + escaped(chars@.skip(i as int)) == old(out)@ + escaped(field@),
        decreases chars.len() - i,
    {
        let ghost before = out@;
        assert(chars@.skip(i as int)[0] == chars@[i as int]);
        assert(chars@.skip(i as int).drop_first() =~= chars@.skip(i + 1));
        let c = chars[i];
        if c == '|' || c == '\\' {
            out.push('\\');
        }
        out.push(c);
        assert(out@ =~= before + escaped_char(c));
        assert(before + (escaped_char(c) + escaped(chars@.skip(i + 1))) =~= out@ + escaped(
            chars@.skip(i + 1),
        ));
        i += 1;
    }
    assert(out@ + Seq::<char>::empty() =~= out@);
}

/// The file name of an article: the digest of its five identifying fields,
/// each escaped and joined by `|`, then `.md`.
pub fn item_filename(feed_name: &str, feed_url: &str, title: &str, link: &str, time: &str) -> (r:
    String)
    ensures
        r@ == article_name(feed_name@, feed_url@, title@, link@, time@),
        r@.len() == 67,
        is_hex(r@.subrange(0, 64)),
        r@.subrange(64, 67) == seq!['.', 'm', 'd'],
{
    let mut input: Vec<char> = Vec::new();
    push_escaped(&mut input, feed_name);
    input.push('|');
    push_escaped(&mut input, feed_url);
    input.push('|');
    push_escaped(&mut input, title);
    input.push('|');
    push_escaped(&mut input, link);
    input.push('|');
    push_escaped(&mut input, time);
    assert(input@ =~= identity_text(feed_name@, feed_url@, title@, link@, time@));
    let text = string_of(&input);
    let digest = hash_string(text.as_str());
    let mut name = chars_of(digest.as_str());
    name.push('.');
    name.push('m');
    name.push('d');
    assert(name@ =~= article_name(feed_name@, feed_url@, title@, link@, time@));
    assert(name@.subrange(0, 64) =~= digest@);
    assert(name@.subrange(64, 67) =~= seq!['.', 'm', 'd']);
    string_of(&name)
}

/// Two texts collide: they differ, and SHA-256 gives their encodings the
/// same digest.
pub open spec fn collide(x: Seq<char>, y: Seq<char>) -> bool {
    x != y && sha256(encode_utf8(x)) == sha256(encode_utf8(y))
}

/// Two texts between the same two texts are equal where the wholes are.
pub proof fn lemma_middle(before: Seq<char>, x: Seq<char>, y: Seq<char>, after: Seq<char>)
    requires
        before + x + after == before + y + after,
    ensures
        x == y,
{
    let left = before + x + after;
    let right = before + y + after;
    assert(left.len() == right.len());
    assert(x.len() == y.len());
    assert forall|i: int| 0 <= i < x.len() implies x[i] == y[i] by {
        assert(left[before.len() + i] == x[i]);
        assert(right[before.len() + i] == y[i]);
    }
    assert(x =~= y);
}

/// Different byte sequences have different hexadecimal forms.
pub proof fn lemma_hex_string_injective(x: Seq<u8>, y: Seq<u8>)
    requires
        hex_string(x) == hex_string(y),
    ensures
        x == y,
{
    assert(hex_string(x).len() == 2 * x.len());
    assert(hex_string(y).len() == 2 * y.len());
    assert forall|i: int| 0 <= i < x.len() implies x[i] == y[i] by {
        let high = hex_string(x)[2 * i];
        let low = hex_string(x)[2 * i + 1];
        assert(high == hex_string(y)[2 * i]);
        assert(low == hex_string(y)[2 * i + 1]);
        assert(high == hex_digit(x[i] as int / 16));
        assert(low == hex_digit(x[i] as int % 16));
        assert(high == hex_digit(y[i] as int / 16));
        assert(low == hex_digit(y[i] as int % 16));
        assert(forall|m: int, n: int|
            0 <= m < 16 && 0 <= n < 16 && hex_digit(m) == hex_digit(n) ==> m == n);
    }
    assert(x =~= y);
}

/// Two texts that start with an escaped field and a separator are equal
/// only where the fields are equal and what follows is equal.
pub proof fn lemma_first_field(x: Seq<char>, xs: Seq<char>, y: Seq<char>, ys: Seq<char>)
    requires
        escaped(x) + field_separator() + xs == escaped(y) + field_separator() + ys,
    ensures
        x == y,
        xs == ys,
    decreases x.len(),
{
    let sep = field_separator();
    let left = escaped(x) + sep + xs;
    let right = escaped(y) + sep + ys;
    if x.len() == 0 || y.len() == 0 {
        if x.len() > 0 {
            assert(left[0] == escaped_char(x[0])[0]);
            assert(right[0] == '|');
        }
        if y.len() > 0 {
            assert(right[0] == escaped_char(y[0])[0]);
            assert(left[0] == '|');
        }
        assert(x =~= y);
        assert forall|i: int| 0 <= i < xs.len() implies xs[i] == ys[i] by {
            assert(left[1 + i] == xs[i]);
            assert(right[1 + i] == ys[i]);
        }
        assert(left.len() == right.len());
        assert(xs =~= ys);
    } else {
        let x_rest = escaped(x.drop_first()) + sep + xs;
        let y_rest = escaped(y.drop_first()) + sep + ys;
        assert(left =~= escaped_char(x[0]) + x_rest);
        assert(right =~= escaped_char(y[0]) + y_rest);
        assert(left[0] == escaped_char(x[0])[0]);
        assert(right[0] == escaped_char(y[0])[0]);
        if escaped_char(x[0]).len() == 2 {
            assert(left[1] == x[0]);
            assert(escaped_char(y[0]).len() == 2);
            assert(right[1] == y[0]);
        } else {
            assert(escaped_char(y[0]).len() == 1);
        }
        assert(x[0] == y[0]);
        let k = escaped_char(x[0]).len() as int;
        assert(x_rest =~= left.skip(k));
        assert(y_rest =~= right.skip(k));
        lemma_first_field(x.drop_first(), xs, y.drop_first(), ys);
        assert(x =~= seq![x[0]] + x.drop_first());
        assert(y =~= seq![y[0]] + y.drop_first());
    }
}

/// Articles have the same identity text only where all five identifying
/// fields are the same, whatever the fields hold.
pub proof fn lemma_identity_text_injective(
    a: (Seq<char>, Seq<char>, Seq<char>, Seq<char>, Seq<char>),
    b: (Seq<char>, Seq<char>, Seq<char>, Seq<char>, Seq<char>),
)
    requires
        identity_text(a.0, a.1, a.2, a.3, a.4) == identity_text(b.0, b.1, b.2, b.3, b.4),
    ensures
        a == b,
{
    let sep = field_separator();
    let e = Seq::<char>::empty();
    let ta = identity_text(a.0, a.1, a.2, a.3, a.4);
    let tb = identity_text(b.0, b.1, b.2, b.3, b.4);
    let a1 = escaped(a.1) + sep + escaped(a.2) + sep + escaped(a.3) + sep + escaped(a.4);
    let b1 = escaped(b.1) + sep + escaped(b.2) + sep + escaped(b.3) + sep + escaped(b.4);
    assert(ta =~= escaped(a.0) + sep + a1);
    assert(tb =~= escaped(b.0) + sep + b1);
    lemma_first_field(a.0, a1, b.0, b1);
    let a2 = escaped(a.2) + sep + escaped(a.3) + sep + escaped(a.4);
    let b2 = escaped(b.2) + sep + escaped(b.3) + sep + escaped(b.4);
    assert(a1 =~= escaped(a.1) + sep + a2);
    assert(b1 =~= escaped(b.1) + sep + b2);
    lemma_first_field(a.1, a2, b.1, b2);
    let a3 = escaped(a.3) + sep + escaped(a.4);
    let b3 = escaped(b.3) + sep + escaped(b.4);
    assert(a2 =~= escaped(a.2) + sep + a3);
    assert(b2 =~= escaped(b.2) + sep + b3);
    lemma_first_field(a.2, a3, b.2, b3);
    lemma_first_field(a.3, escaped(a.4), b.3, escaped(b.4));
    assert(escaped(a.4) + sep + e == escaped(b.4) + sep + e);
    lemma_first_field(a.4, e, b.4, e);
}

/// Two articles that differ in any identifying field have different file
/// names, unless their identity texts collide under SHA-256.
pub proof fn lemma_article_name_differs(
    a: (Seq<char>, Seq<char>, Seq<char>, Seq<char>, Seq<char>),
    b: (Seq<char>, Seq<char>, Seq<char>, Seq<char>, Seq<char>),
)
    requires
        a != b,
        !collide(
            identity_text(a.0, a.1, a.2, a.3, a.4),
            identity_text(b.0, b.1, b.2, b.3, b.4),
        ),
    ensures
        article_name(a.0, a.1, a.2, a.3, a.4) != article_name(b.0, b.1, b.2, b.3, b.4),
{
    let ta = identity_text(a.0, a.1, a.2, a.3, a.4);
    let tb = identity_text(b.0, b.1, b.2, b.3, b.4);
    if ta == tb {
        lemma_identity_text_injective(a, b);
    }
    let e = Seq::<char>::empty();
    let suffix = seq!['.', 'm', 'd'];
    if article_name(a.0, a.1, a.2, a.3, a.4) == article_name(b.0, b.1, b.2, b.3, b.4) {
        assert(e + digest_of(ta) + suffix =~= article_name(a.0, a.1, a.2, a.3, a.4));
        assert(e + digest_of(tb) + suffix =~= article_name(b.0, b.1, b.2, b.3, b.4));
        lemma_middle(e, digest_of(ta), digest_of(tb), suffix);
        lemma_hex_string_injective(sha256(encode_utf8(ta)), sha256(encode_utf8(tb)));
    }
}

} // verus!
