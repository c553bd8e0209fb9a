use rss_reader::naming::{
    asset_filename, content_type_extension, hash_string, hex_encode, image_extension,
    image_filename, item_filename, owned_extension, provisional_image_filename,
    resolve_extension, url_extension,
};
use rss_reader::paths::{join_path, path_extension};
use sha2::Digest;

fn sha256_hex(text: &str) -> String {
    hex::encode(sha2::Sha256::digest(text.as_bytes()))
}

#[test]
fn digest_of_empty_text() {
    assert_eq!(
        hash_string(""),
        "e3b0c44298fc1c149afbf4c8996fb92427ae41e4649b934ca495991b7852b855"
    );
}

#[test]
fn digest_of_abc() {
    assert_eq!(
        hash_string("abc"),
        "ba7816bf8f01cfea414140de5dae2223b00361a396177a9cb410ff61f20015ad"
    );
}

#[test]
fn digest_is_64_lower_case_hex_digits() {
    let digest = hash_string("https://img.example/a.png");
    assert_eq!(digest.len(), 64);
    assert!(digest.chars().all(|c| c.is_ascii_digit() || ('a'..='f').contains(&c)));
    assert_ne!(digest, "https://img.example/a.png");
}

#[test]
fn digest_of_text_beyond_ascii_is_of_its_utf8_bytes() {
    assert_eq!(hash_string("héllo ✓"), sha256_hex("héllo ✓"));
}

#[test]
fn item_filename_joins_fields_with_bars() {
    let name = item_filename("Example", "https://feed.example/rss", "Hello", "https://feed.example/1", "2024-01-01T00:00:00+00:00");
    let expected = format!(
        "{}.md",
        sha256_hex("Example|https://feed.example/rss|Hello|https://feed.example/1|2024-01-01T00:00:00+00:00")
    );
    assert_eq!(name, expected);
    assert_eq!(name.len(), 67);
}

#[test]
fn item_filename_with_empty_fields() {
    assert_eq!(item_filename("", "", "", "", ""), format!("{}.md", sha256_hex("||||")));
}

#[test]
fn item_filename_changes_with_each_field() {
    let base = item_filename("f", "u", "t", "l", "d");
    assert_eq!(base, item_filename("f", "u", "t", "l", "d"));
    assert_ne!(base, item_filename("g", "u", "t", "l", "d"));
    assert_ne!(base, item_filename("f", "v", "t", "l", "d"));
    assert_ne!(base, item_filename("f", "u", "s", "l", "d"));
    assert_ne!(base, item_filename("f", "u", "t", "m", "d"));
    assert_ne!(base, item_filename("f", "u", "t", "l", "e"));
}

#[test]
fn item_filename_tells_a_bar_in_a_field_from_a_separator() {
    assert_ne!(item_filename("a|b", "c", "", "", ""), item_filename("a", "b|c", "", "", ""));
    assert_ne!(item_filename("a|", "b", "", "", ""), item_filename("a", "|b", "", "", ""));
    assert_ne!(item_filename("a\\", "b", "", "", ""), item_filename("a", "\\b", "", "", ""));
    assert_ne!(item_filename("a\\|b", "", "", "", ""), item_filename("a\\", "b", "", "", ""));
    assert_ne!(item_filename("", "", "", "", "|"), item_filename("", "", "", "|", ""));
}

#[test]
fn item_filename_escapes_bars_and_backslashes() {
    assert_eq!(
        item_filename("a|b", "c\\d", "", "", "e"),
        format!("{}.md", sha256_hex("a\\|b|c\\\\d|||e"))
    );
}

#[test]
fn owned_extension_knows_the_image_kinds() {
    assert_eq!(owned_extension("png"), "png");
    assert_eq!(owned_extension("jpeg"), "jpg");
    assert_eq!(owned_extension("jpg"), "jpg");
    assert_eq!(owned_extension("webp"), "webp");
    assert_eq!(owned_extension("gif"), "gif");
    assert_eq!(owned_extension("svg"), "svg");
    assert_eq!(owned_extension("svgz"), "svg");
}

#[test]
fn owned_extension_ignores_ascii_case() {
    assert_eq!(owned_extension("PNG"), "png");
    assert_eq!(owned_extension("JpEg"), "jpg");
    assert_eq!(owned_extension("SVGZ"), "svg");
}

#[test]
fn owned_extension_falls_back_to_generic() {
    assert_eq!(owned_extension("php"), "img");
    assert_eq!(owned_extension(""), "img");
    assert_eq!(owned_extension("pngx"), "img");
    assert_eq!(owned_extension("ＰＮＧ"), "img");
}

#[test]
fn content_type_extension_of_each_kind() {
    assert_eq!(content_type_extension(Some("image/png")), Some("png"));
    assert_eq!(content_type_extension(Some("image/jpeg")), Some("jpg"));
    assert_eq!(content_type_extension(Some("image/jpg")), Some("jpg"));
    assert_eq!(content_type_extension(Some("image/webp")), Some("webp"));
    assert_eq!(content_type_extension(Some("image/gif")), Some("gif"));
    assert_eq!(content_type_extension(Some("image/svg+xml")), Some("svg"));
}

#[test]
fn content_type_extension_looks_inside_the_value() {
    assert_eq!(content_type_extension(Some("image/png; charset=binary")), Some("png"));
    assert_eq!(content_type_extension(Some("x image/gif y")), Some("gif"));
}

#[test]
fn content_type_extension_of_unknown_or_missing_type() {
    assert_eq!(content_type_extension(None), None);
    assert_eq!(content_type_extension(Some("")), None);
    assert_eq!(content_type_extension(Some("text/html")), None);
    assert_eq!(content_type_extension(Some("IMAGE/PNG")), None);
    assert_eq!(content_type_extension(Some("image/svg")), None);
}

#[test]
fn content_type_extension_takes_the_first_kind_in_order() {
    assert_eq!(content_type_extension(Some("image/gif, image/png")), Some("png"));
}

#[test]
fn resolve_extension_prefers_the_content_type() {
    assert_eq!(resolve_extension(Some("image/png"), Some("gif")), Some("png"));
    assert_eq!(resolve_extension(Some("text/plain"), Some("gif")), Some("gif"));
    assert_eq!(resolve_extension(None, Some("JPEG")), Some("jpg"));
    assert_eq!(resolve_extension(None, Some("bin")), Some("img"));
    assert_eq!(resolve_extension(None, None), None);
    assert_eq!(resolve_extension(Some("text/plain"), None), None);
}

#[test]
fn url_extension_reads_the_path_only() {
    assert_eq!(url_extension("https://x.example/a/b.PNG?size=1.5#frag.gif"), Some("PNG".to_string()));
    assert_eq!(url_extension("https://x.example/a/b"), None);
    assert_eq!(url_extension("https://x.example"), None);
    assert_eq!(url_extension("not a url.png"), None);
}

#[test]
fn image_extension_from_content_type_then_url() {
    assert_eq!(image_extension("https://x.example/a.gif", Some("image/png")), Some("png"));
    assert_eq!(image_extension("https://x.example/a.gif", Some("text/html")), Some("gif"));
    assert_eq!(image_extension("https://x.example/a.gif", None), Some("gif"));
    assert_eq!(image_extension("https://x.example/a.php", None), Some("img"));
    assert_eq!(image_extension("https://x.example/a", None), None);
    assert_eq!(image_extension("::", None), None);
    assert_eq!(image_extension("::", Some("image/webp")), Some("webp"));
}

#[test]
fn image_filename_is_digest_of_url_and_extension() {
    let url = "https://img.example/a.png";
    assert_eq!(image_filename(url, Some("image/png")), format!("{}.png", sha256_hex(url)));
    assert_eq!(image_filename(url, Some("image/jpeg")), format!("{}.jpg", sha256_hex(url)));
    assert_eq!(image_filename(url, None), format!("{}.png", sha256_hex(url)));
    let bare = "https://img.example/picture";
    assert_eq!(image_filename(bare, None), format!("{}.img", sha256_hex(bare)));
    assert_eq!(image_filename(bare, Some("application/octet-stream")), format!("{}.img", sha256_hex(bare)));
}

#[test]
fn provisional_image_filename_has_the_generic_extension() {
    let url = "https://img.example/a.png";
    assert_eq!(provisional_image_filename(url), format!("{}.img", sha256_hex(url)));
    assert_eq!(asset_filename(url, "webp"), format!("{}.webp", sha256_hex(url)));
}

#[test]
fn path_extension_of_plain_names() {
    assert_eq!(path_extension("/a/b.png"), Some("png".to_string()));
    assert_eq!(path_extension("b.tar.gz"), Some("gz".to_string()));
    assert_eq!(path_extension("/a.b/c"), None);
    assert_eq!(path_extension("/a/.hidden"), None);
    assert_eq!(path_extension("/a/.hidden.txt"), Some("txt".to_string()));
    assert_eq!(path_extension("/a/name."), Some("".to_string()));
    assert_eq!(path_extension(""), None);
    assert_eq!(path_extension("/"), None);
}

#[test]
fn path_extension_passes_over_trailing_slashes_and_dots() {
    assert_eq!(path_extension("/a/b.png/"), Some("png".to_string()));
    assert_eq!(path_extension("/a/b.png//./"), Some("png".to_string()));
    assert_eq!(path_extension("/a/b.png/."), Some("png".to_string()));
    assert_eq!(path_extension("/a/b.png/.."), None);
    assert_eq!(path_extension("."), None);
    assert_eq!(path_extension(".."), None);
}

#[test]
fn path_extension_agrees_with_the_platform_on_slash_paths() {
    let samples = [
        "/a/b.png", "b.tar.gz", "/a.b/c", "/a/.hidden", "/a/.hidden.txt", "/a/name.", "", "/",
        "/a/b.png/", "/a/b.png//./", "/a/b.png/.", "/a/b.png/..", ".", "..", "...", "a..b",
        "/x/..gif", "//", "/./", "a/./b.c", "/é/ü.ñ", "/a/b.c.", "/a/.", "/a/.b.",
    ];
    for sample in samples {
        let expected = std::path::Path::new(sample)
            .extension()
            .and_then(|e| e.to_str())
            .map(|e| e.to_string());
        assert_eq!(path_extension(sample), expected, "for {:?}", sample);
    }
}

#[test]
fn join_path_puts_one_slash_between() {
    assert_eq!(join_path("data/articles", "index.csv"), "data/articles/index.csv");
    assert_eq!(join_path("data/articles/", "index.csv"), "data/articles/index.csv");
    assert_eq!(join_path("", "index.csv"), "index.csv");
    assert_eq!(join_path("/", "images"), "/images");
    assert_eq!(join_path("data", ""), "data/");
}

#[test]
fn hex_encode_writes_two_lower_case_digits_for_each_byte() {
    assert_eq!(hex_encode(&vec![]), "");
    assert_eq!(hex_encode(&vec![1, 2, 3, 15, 16]), "0102030f10");
    assert_eq!(hex_encode(&vec![0x00, 0x9a, 0xbc, 0xde, 0xff]), "009abcdeff");
    let all: Vec<u8> = (0..=255).collect();
    assert_eq!(hex_encode(&all), hex::encode(&all));
}
