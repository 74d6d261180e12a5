//! Document assembly: wrapping a rendered HTML fragment into a minimal
//! styled HTML page and minifying it through the HTML minifier.

use vstd::prelude::*;

use crate::text::push_char;

verus! {

/// The entity substituted for one character by minimal HTML escaping: the
/// five minimal entities stand in for their characters, every other
/// character stands for itself.
pub open spec fn minimal_entity(c: char) -> Seq<char> {
    if c == '"' {
        "&quot;"@
    } else if c == '&' {
        "&amp;"@
    } else if c == '\'' {
        "&#x27;"@
    } else if c == '<' {
        "&lt;"@
    } else if c == '>' {
        "&gt;"@
    } else {
        seq![c]
    }
}

/// Minimal HTML escaping of a whole text, character by character.
pub open spec fn encode_minimal_spec(s: Seq<char>) -> Seq<char>
    decreases s.len(),
{
    if s.len() == 0 {
        Seq::<char>::empty()
    } else {
        minimal_entity(s[0]) + encode_minimal_spec(s.skip(1))
    }
}

/// Escapes a document-level string with the minimal set of HTML entities
/// (`"`, `&`, `'`, `<`, `>`), keeping every other character.
fn encode_text(s: &str) -> (r: String)
    ensures
        r@ == encode_minimal_spec(s@),
{
    let len: usize = s.unicode_len();
    let mut out = String::new();
    let mut i: usize = 0;
    proof {
        assert(s@.skip(0) =~= s@);
        assert(Seq::<char>::empty() + encode_minimal_spec(s@) =~= encode_minimal_spec(s@));
    }
    while i < len
        invariant
            i <= len,
            len == s@.len(),
            encode_minimal_spec(s@) == out@ + encode_minimal_spec(s@.skip(i as int)),
        decreases len - i,
    {
        let ghost t = s@.skip(i as int);
        let ghost prev = out@;
        let c = s.get_char(i);
        proof {
            assert(t[0] == s@[i as int]);
            assert(t.skip(1) =~= s@.skip(i as int + 1));
        }
        if c == '"' {
            out.append("&quot;");
        } else if c == '&' {
            out.append("&amp;");
        } else if c == '\'' {
            out.append("&#x27;");
        } else if c == '<' {
            out.append("&lt;");
        } else if c == '>' {
            out.append("&gt;");
        } else {
            push_char(&mut out, c);
        }
        i = i + 1;
        proof {
            assert(out@ =~= prev + minimal_entity(c));
            assert(prev + (minimal_entity(c) + encode_minimal_spec(s@.skip(i as int))) =~= out@
                + encode_minimal_spec(s@.skip(i as int)));
        }
    }
    proof {
        assert(s@.skip(len as int) =~= Seq::<char>::empty());
        assert(out@ + Seq::<char>::empty() =~= out@);
    }
    out
}

/// Whether the minifier accepts the given text. The minifier runs with the
/// settings the library leaves at their defaults, so the outcome depends on
/// the text alone.
pub uninterp spec fn minify_ok(s: Seq<char>) -> bool;

/// The minified form of a piece of HTML text the minifier accepts.
pub uninterp spec fn minify_of(s: Seq<char>) -> Seq<char>;

/// The message the minifier reports for a piece of HTML text it refuses;
/// determined by the text as `minify_ok` is.
pub uninterp spec fn minify_err_of(s: Seq<char>) -> Seq<char>;

/// Relies on html_minifier::minify: a pure function of its input under the
/// default settings; whether the text is accepted, the minified output, and
/// the reported message are each determined by the text alone.
#[verifier::external_body]
fn minify_text(s: &str) -> (r: Result<String, String>)
    ensures
        r is Ok <==> minify_ok(s@),
        r matches Ok(h) ==> h@ == minify_of(s@),
        r matches Err(e) ==> e@ == minify_err_of(s@),
{
    match html_minifier::minify(s) {
        Ok(h) => Ok(h),
        Err(e) => Err(format!("{}", e)),
    }
}

/// The full HTML page around a rendered fragment, before minification: a
/// minimal document with charset and viewport declarations, the escaped
/// title, the escaped stylesheet, and the fragment inside an article.
pub open spec fn page_spec(html: Seq<char>, title: Seq<char>, style: Seq<char>) -> Seq<char> {
    "<!DOCTYPE html>"@ + "<html>"@ + "<head>"@ + "<meta charset=UTF-8>"@
        + "<meta name=\"viewport\" content=\"width=device-width, initial-scale=1, shrink-to-fit=no\">"@
        + "<title>"@ + encode_minimal_spec(title) + "</title>"@ + "<style>"@ + encode_minimal_spec(
        style,
    ) + "</style>"@ + "</head>"@ + "<body>"@ + "<article class=\"markdown-body\">"@ + html
        + "</article>"@ + "</body>"@ + "</html>"@
}

/// Wraps a rendered HTML fragment into a minimal styled page and minifies
/// it: the call succeeds exactly when the minifier accepts the assembled
/// page, the success value is the page's minified form, and a failure
/// hands back the minifier's message for it.
pub fn html_render(markdown_html: &str, title: &str, style: &str) -> (r: Result<String, String>)
    ensures
        r is Ok <==> minify_ok(page_spec(markdown_html@, title@, style@)),
        r matches Ok(h) ==> h@ == minify_of(page_spec(markdown_html@, title@, style@)),
        r matches Err(e) ==> e@ == minify_err_of(page_spec(markdown_html@, title@, style@)),
{
    let mut page = String::new();
    proof {
        assert(Seq::<char>::empty() + "<!DOCTYPE html>"@ =~= "<!DOCTYPE html>"@);
    }
    page.append("<!DOCTYPE html>");
    page.append("<html>");
    page.append("<head>");
    page.append("<meta charset=UTF-8>");
    page.append(
        "<meta name=\"viewport\" content=\"width=device-width, initial-scale=1, shrink-to-fit=no\">",
    );
    page.append("<title>");
    let enc_title = encode_text(title);
    page.append(enc_title.as_str());
    page.append("</title>");
    page.append("<style>");
    let enc_style = encode_text(style);
    page.append(enc_style.as_str());
    page.append("</style>");
    page.append("</head>");
    page.append("<body>");
    page.append("<article class=\"markdown-body\">");
    page.append(markdown_html);
    page.append("</article>");
    page.append("</body>");
    page.append("</html>");
    proof {
        assert(page@ == page_spec(markdown_html@, title@, style@));
    }
    minify_text(page.as_str())
}

/// Document assembly is deterministic: two assemblies of the same fragment,
/// title and stylesheet yield the same result.
pub proof fn lemma_assembly_deterministic(
    r1: Result<String, String>,
    r2: Result<String, String>,
    html: Seq<char>,
    title: Seq<char>,
    style: Seq<char>,
)
    requires
        (r1 is Ok <==> minify_ok(page_spec(html, title, style))),
        r1 matches Ok(h) ==> h@ == minify_of(page_spec(html, title, style)),
        r1 matches Err(e) ==> e@ == minify_err_of(page_spec(html, title, style)),
        (r2 is Ok <==> minify_ok(page_spec(html, title, style))),
        r2 matches Ok(h) ==> h@ == minify_of(page_spec(html, title, style)),
        r2 matches Err(e) ==> e@ == minify_err_of(page_spec(html, title, style)),
    ensures
        crate::render::result_view(r1) == crate::render::result_view(r2),
{
}


} // verus!
