//! The example site's file route: a file's contents, or an index of the
//! working directory.
use vstd::prelude::*;
use crate::response::Response;

verus! {

/// Text of the page before the list of entries.
pub open spec fn page_start() -> Seq<char> {
    "\n                       <html>\n                        <head>\n                            <title>Index of /</title>\n                        </head>\n                        <body>\n                            <h1>Index of /</h1>"@
}

/// Text of the page after the list of entries.
pub open spec fn page_end() -> Seq<char> {
    "\n                        </body>\n                       </html>\n                       "@
}

/// One paragraph linking to `/dir/<name>`.
pub open spec fn entry_line(name: Seq<char>) -> Seq<char> {
    "<p><a href=\"/dir/"@ + name + "\">"@ + name + "</a></p>"@
}

/// The links for `names`, in order.
pub open spec fn entry_lines(names: Seq<String>) -> Seq<char>
    decreases names.len(),
{
    if names.len() == 0 {
        Seq::empty()
    } else {
        entry_lines(names.drop_last()) + entry_line(names.last()@)
    }
}

/// The index page listing `names`.
pub open spec fn listing_page(names: Seq<String>) -> Seq<char> {
    page_start() + entry_lines(names) + page_end()
}

/// The links for two lists one after the other are the links of the first
/// followed by those of the second.
pub proof fn lemma_entry_lines_concat(a: Seq<String>, b: Seq<String>)
    ensures
        entry_lines(a + b) == entry_lines(a) + entry_lines(b),
    decreases b.len(),
{
    if b.len() == 0 {
        assert(a + b =~= a);
        assert(entry_lines(a) + entry_lines(b) =~= entry_lines(a));
    } else {
        let b0 = b.drop_last();
        lemma_entry_lines_concat(a, b0);
        assert((a + b).drop_last() =~= a + b0);
        assert(b.drop_last() =~= b0);
        assert(entry_lines(a + b) =~= entry_lines(a) + entry_lines(b));
    }
}

/// The index page holds one link line per name, in order: for each name
/// `names[k]`, the page is the start text, the lines of the names before it,
/// its own line, the lines of the names after it, and the end text.
pub proof fn lemma_one_link_per_name(names: Seq<String>, k: int)
    requires
        0 <= k < names.len(),
    ensures
        listing_page(names) == page_start() + entry_lines(names.subrange(0, k)) + entry_line(
            names[k]@,
        ) + entry_lines(names.subrange(k + 1, names.len() as int)) + page_end(),
{
    let pre = names.subrange(0, k);
    let mid = names.subrange(k, k + 1);
    let post = names.subrange(k + 1, names.len() as int);
    assert(names =~= pre + mid + post);
    lemma_entry_lines_concat(pre + mid, post);
    lemma_entry_lines_concat(pre, mid);
    assert(mid.drop_last() =~= Seq::<String>::empty());
    assert(entry_lines(Seq::<String>::empty()) == Seq::<char>::empty());
    assert(mid.last() == names[k]);
    assert(entry_lines(mid) =~= entry_line(names[k]@));
    assert(listing_page(names) =~= page_start() + entry_lines(pre) + entry_line(names[k]@)
        + entry_lines(post) + page_end());
}

/// The index page for a directory holding the files `names`, status 200.
pub fn directory_listing(names: &Vec<String>) -> (r: Response)
    ensures
        r.body@ == listing_page(names@),
        r.status == 200,
{
    let mut page = String::from_str(
        "\n                       <html>\n                        <head>\n                            <title>Index of /</title>\n                        </head>\n                        <body>\n                            <h1>Index of /</h1>",
    );
    let mut i: usize = 0;
    while i < names.len()
        invariant
            i <= names@.len(),
            page@ == page_start() + entry_lines(names@.subrange(0, i as int)),
        decreases names@.len() - i,
    {
        let name = names[i].as_str();
        page.append("<p><a href=\"/dir/");
        page.append(name);
        page.append("\">");
        page.append(name);
        page.append("</a></p>");
        proof {
            let pre = names@.subrange(0, i + 1);
            assert(pre.drop_last() =~= names@.subrange(0, i as int));
        }
        i = i + 1;
    }
    assert(names@.subrange(0, i as int) =~= names@);
    page.append("\n                        </body>\n                       </html>\n                       ");
    Response::new(page, 200)
}

/// What was found at the path a file request names.
pub enum FileLookup {
    /// A regular file, with its contents.
    File(String),
    /// A directory.
    Directory,
    /// Nothing could be opened; the names in the working directory.
    Missing(Vec<String>),
}

/// The response for a file request: the contents of a regular file with
/// status 200, `File is a dir` with status 404 for a directory, and the
/// index page of the working directory when nothing could be opened.
pub fn file_response(found: FileLookup) -> (r: Response)
    ensures
        match found {
            FileLookup::File(contents) => r.body@ == contents@ && r.status == 200,
            FileLookup::Directory => r.body@ == "File is a dir"@ && r.status == 404,
            FileLookup::Missing(names) => r.body@ == listing_page(names@) && r.status == 200,
        },
{
    match found {
        FileLookup::File(contents) => Response::new(contents, 200),
        FileLookup::Directory => Response::new(String::from_str("File is a dir"), 404),
        FileLookup::Missing(names) => directory_listing(&names),
    }
}

} // verus!
