//! The index log: one row for each ingested article, behind a header row.
//! Rows are only ever appended. Quoting a row is left to the `csv` crate.

use crate::text::{chars_of, opt_text, push_str, string_of, texts_view};
use vstd::prelude::*;

verus! {

/// One row of the index log.
#[derive(Debug, Clone)]
pub struct IndexRecord {
    /// When the article was published, or when it was ingested.
    pub time: String,
    pub article_name: String,
    pub rss_subscription_name: String,
    /// Where the article's text is kept.
    pub path: String,
}

impl View for IndexRecord {
    type V = Seq<Seq<char>>;

    /// The four fields of the row, in the order of the columns.
    open spec fn view(&self) -> Seq<Seq<char>> {
        row_fields(self.time@, self.article_name@, self.rss_subscription_name@, self.path@)
    }
}

/// The fields of a row, in the order of the columns.
pub open spec fn row_fields(
    time: Seq<char>,
    article_name: Seq<char>,
    rss_subscription_name: Seq<char>,
    path: Seq<char>,
) -> Seq<Seq<char>> {
    seq![time, article_name, rss_subscription_name, path]
}

/// The line, terminator included, that a `csv::Writer` writes for a record
/// of the given fields.
pub uninterp spec fn csv_row(fields: Seq<Seq<char>>) -> Seq<char>;

/// Whether a field is written as it is: it holds no comma, no quote and no
/// line end.
pub open spec fn is_plain(field: Seq<char>) -> bool {
    forall|i: int|
        0 <= i < field.len() ==> (#[trigger] field[i]) != ',' && field[i] != '"' && field[i]
            != '\r' && field[i] != '\n'
}

/// Whether every field of a record is written as it is.
pub open spec fn all_plain(fields: Seq<Seq<char>>) -> bool {
    forall|i: int| 0 <= i < fields.len() ==> is_plain(#[trigger] fields[i])
}

/// The fields of a record with a comma between neighbours.
pub open spec fn separated(fields: Seq<Seq<char>>) -> Seq<char>
    decreases fields.len(),
{
    if fields.len() == 0 {
        Seq::empty()
    } else if fields.len() == 1 {
        fields[0]
    } else {
        separated(fields.drop_last()) + seq![','] + fields.last()
    }
}

/// The names of the four columns.
pub open spec fn column_names() -> Seq<Seq<char>> {
    row_fields("time"@, "article_name"@, "rss_subscription_name"@, "path"@)
}

/// The header row of the index log, terminator included.
pub open spec fn header_row() -> Seq<char> {
    "time,article_name,rss_subscription_name,path\n"@
}

/// The row of the index log for given fields.
pub open spec fn row_text(
    time: Seq<char>,
    article_name: Seq<char>,
    rss_subscription_name: Seq<char>,
    path: Seq<char>,
) -> Seq<char> {
    csv_row(row_fields(time, article_name, rss_subscription_name, path))
}

/// Whether a log of a given size still lacks its header row: it does where
/// the file does not exist yet (no size) or is empty.
pub open spec fn lacks_header(size: Option<u64>) -> bool {
    size is None || size == Some(0u64)
}

/// What is appended to a log of a given size for a row: the row, behind the
/// header row where the log still lacks it.
pub open spec fn entry_text(size: Option<u64>, row: Seq<char>) -> Seq<char> {
    if lacks_header(size) {
        header_row() + row
    } else {
        row
    }
}

/// Writes the fields as one record with `csv::Writer::write_record`, on a
/// writer without headers that `csv::WriterBuilder` builds over a byte
/// vector, and hands back what was written.
///
/// Writing one record into a byte vector does not fail, and what is written
/// is text, so there is always a result. The writer puts a field in quotes
/// only where it holds a comma, a quote or a line end: a record of two or
/// more fields none of which does is written as the fields with commas
/// between them and a line feed behind.
#[verifier::external_body]
fn encode_row(fields: &Vec<String>) -> (r: Option<String>)
    ensures
        opt_text(r) == Some(csv_row(texts_view(fields@))),
        opt_text(r) == Some(separated(texts_view(fields@)) + seq!['\n']) || !(fields@.len() >= 2
            && all_plain(texts_view(fields@))),
{
    let mut writer = csv::WriterBuilder::new().has_headers(false).from_writer(Vec::new());
    writer.write_record(fields).ok()?;
    String::from_utf8(writer.into_inner().ok()?).ok()
}

/// The line that stands for a row of the given fields. Where no field holds
/// a comma, a quote or a line end, it is the fields with commas between them
/// and a line feed behind.
pub fn row_line(time: &str, article_name: &str, rss_subscription_name: &str, path: &str) -> (r:
    String)
    ensures
        r@ == row_text(time@, article_name@, rss_subscription_name@, path@),
        is_plain(time@) && is_plain(article_name@) && is_plain(rss_subscription_name@)
            && is_plain(path@) ==> r@ == time@ + seq![','] + article_name@ + seq![',']
            + rss_subscription_name@ + seq![','] + path@ + seq!['\n'],
{
    let mut fields: Vec<String> = Vec::new();
    fields.push(time.to_owned());
    fields.push(article_name.to_owned());
    fields.push(rss_subscription_name.to_owned());
    fields.push(path.to_owned());
    let ghost all = row_fields(time@, article_name@, rss_subscription_name@, path@);
    assert(texts_view(fields@) =~= all);
    proof {
        let three = all.drop_last();
        let two = three.drop_last();
        let one = two.drop_last();
        assert(one =~= seq![time@]);
        assert(two =~= seq![time@, article_name@]);
        assert(three =~= seq![time@, article_name@, rss_subscription_name@]);
        assert(separated(one) == time@);
        assert(separated(two) == time@ + seq![','] + article_name@);
        assert(separated(three) == separated(two) + seq![','] + rss_subscription_name@);
        assert(separated(all) == separated(three) + seq![','] + path@);
    }
    match encode_row(&fields) {
        Some(line) => line,
        None => String::new(),
    }
}

impl IndexRecord {
    /// The line that stands for the row in the log.
    pub fn line(&self) -> (r: String)
        ensures
            r@ == csv_row(self@),
    {
        row_line(
            self.time.as_str(),
            self.article_name.as_str(),
            self.rss_subscription_name.as_str(),
            self.path.as_str(),
        )
    }
}

/// The header row of the index log: the line that the names of the four
/// columns make.
pub fn header_line() -> (r: String)
    ensures
        r@ == header_row(),
        r@ == csv_row(column_names()),
{
    proof {
        reveal_strlit("time");
        reveal_strlit("article_name");
        reveal_strlit("rss_subscription_name");
        reveal_strlit("path");
        reveal_strlit("time,article_name,rss_subscription_name,path\n");
        assert("time"@ + seq![','] + "article_name"@ + seq![','] + "rss_subscription_name"@
            + seq![','] + "path"@ + seq!['\n'] =~= header_row());
    }
    row_line("time", "article_name", "rss_subscription_name", "path")
}

/// Whether a log of a given size still lacks its header row.
pub fn needs_header(size: Option<u64>) -> (r: bool)
    ensures
        r == lacks_header(size),
{
    match size {
        None => true,
        Some(n) => n == 0,
    }
}

/// What is appended to a log of a given size for a row.
pub fn log_entry(size: Option<u64>, row: &str) -> (r: String)
    ensures
        r@ == entry_text(size, row@),
{
    if needs_header(size) {
        let header = header_line();
        let mut text = chars_of(header.as_str());
        push_str(&mut text, row);
        string_of(&text)
    } else {
        row.to_owned()
    }
}

} // verus!
