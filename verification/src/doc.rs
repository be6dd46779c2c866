//! The documentation resolver: where a dependency's documentation lives, and
//! what the fetched documentation page says about build status and coverage.
//! Fetching the page is I/O and happens outside; the page text is handed in
//! and everything decided from it — which elements carry the coverage figure,
//! how the percentage text is cleaned, how it is parsed — is verified.

use vstd::prelude::*;
use crate::errors::WmtError;
use crate::text::{
    contains_char, contains_sub, lemma_concat_snoc, parse_u64, spec_concat, spec_contains,
    spec_contains_char, spec_parse_u64, spec_split, spec_trim, split_str, str_eq, trim,
};

verus! {

/// Where a dependency's documentation lives.
#[derive(Debug, Clone, Copy, PartialEq, Eq, Structural)]
pub enum DocSource {
    /// The documentation link points into the source host: the README is the
    /// documentation.
    GithubReadMe,
    /// The documentation lives on the documentation host.
    RustDoc,
}

pub open spec fn spec_doc_source_label(s: DocSource) -> Seq<char> {
    match s {
        DocSource::GithubReadMe => "Github"@,
        DocSource::RustDoc => "Rust Doc"@,
    }
}

impl DocSource {
    /// A short human-readable name of the documentation source.
    pub fn label(&self) -> (r: String)
        ensures
            r@ == spec_doc_source_label(*self),
    {
        match *self {
            DocSource::GithubReadMe => String::from_str("Github"),
            DocSource::RustDoc => String::from_str("Rust Doc"),
        }
    }
}

/// The base URL of the documentation host.
pub open spec fn spec_doc_host_base() -> Seq<char> {
    "https://docs.rs"@
}

/// Classification of a documentation link: on the source host when it
/// contains the source-host marker, otherwise on the documentation host.
pub open spec fn spec_doc_source(doc_link: Seq<char>) -> DocSource {
    if spec_contains(doc_link, "github.com"@) {
        DocSource::GithubReadMe
    } else {
        DocSource::RustDoc
    }
}

/// The canonical documentation URL: the link itself when it points into the
/// source host, else the documentation-host page of the crate.
pub open spec fn spec_doc_url(name: Seq<char>, doc_link: Seq<char>) -> Seq<char> {
    if spec_contains(doc_link, "github.com"@) {
        doc_link
    } else {
        spec_doc_host_base() + seq!['/'] + name
    }
}

/// A dependency's documentation location.
#[derive(Debug)]
pub struct DocService {
    pub crate_name: String,
    pub doc_source: DocSource,
    pub doc_url: String,
}

/// The combined text of every element with the given class attribute in the
/// parsed HTML document, in document order.
pub uninterp spec fn class_texts_of(html: Seq<char>, class: Seq<char>) -> Seq<Seq<char>>;

/// Relies on select's `Document::from`, `find` with the `Class` predicate and
/// `Node::text`: parses the HTML text and hands out the text of every element
/// whose class attribute holds `class`, in document order. The result is a
/// function of the two arguments alone.
#[verifier::external_body]
fn texts_of_class(html: &str, class: &str) -> (r: Vec<String>)
    ensures
        r.deep_view() == class_texts_of(html@, class@),
{
    let document = select::document::Document::from(html);
    document.find(select::predicate::Class(class)).map(|node| node.text()).collect()
}

/// Whether a coverage-text segment is taken: non-empty, not a bare newline,
/// and holding a percent sign.
pub open spec fn spec_keep_segment(g: Seq<char>) -> bool {
    g.len() > 0 && g != "\n"@ && spec_contains_char(g, '%')
}

/// The concatenation of the trimmed kept segments, in order.
pub open spec fn spec_picked(gs: Seq<Seq<char>>) -> Seq<char>
    decreases gs.len(),
{
    if gs.len() == 0 {
        Seq::empty()
    } else {
        (if spec_keep_segment(gs[0]) {
            spec_trim(gs[0])
        } else {
            Seq::empty()
        }) + spec_picked(gs.drop_first())
    }
}

proof fn lemma_picked_snoc(gs: Seq<Seq<char>>, x: Seq<char>)
    ensures
        spec_picked(gs.push(x)) == spec_picked(gs) + (if spec_keep_segment(x) {
            spec_trim(x)
        } else {
            Seq::<char>::empty()
        }),
    decreases gs.len(),
{
    let tail: Seq<char> = if spec_keep_segment(x) {
        spec_trim(x)
    } else {
        Seq::empty()
    };
    if gs.len() == 0 {
        assert(gs.push(x)[0] == x);
        assert(gs.push(x).drop_first() =~= gs);
        assert(spec_picked(gs) =~= Seq::<char>::empty());
        assert(spec_picked(gs.push(x)) =~= spec_picked(gs) + tail);
    } else {
        assert(gs.push(x).drop_first() =~= gs.drop_first().push(x));
        assert(gs.push(x)[0] == gs[0]);
        lemma_picked_snoc(gs.drop_first(), x);
        let head: Seq<char> = if spec_keep_segment(gs[0]) {
            spec_trim(gs[0])
        } else {
            Seq::empty()
        };
        assert(head + (spec_picked(gs.drop_first()) + tail) =~= (head + spec_picked(
            gs.drop_first(),
        )) + tail);
        assert(spec_picked(gs.push(x)) =~= spec_picked(gs) + tail);
    }
}

/// `s` with every percent sign removed.
pub open spec fn spec_remove_percent(s: Seq<char>) -> Seq<char> {
    spec_concat(spec_split(s, seq!['%']))
}

/// One navigation text cleaned: split on the six-space separator, the kept
/// segments trimmed and concatenated, percent signs removed.
pub open spec fn spec_clean_coverage_text(t: Seq<char>) -> Seq<char> {
    spec_remove_percent(spec_picked(spec_split(t, "      "@)))
}

/// The candidate coverage number: the cleaned texts of the navigation
/// elements that hold a percent sign, concatenated in order.
pub open spec fn spec_coverage_candidate(ts: Seq<Seq<char>>) -> Seq<char>
    decreases ts.len(),
{
    if ts.len() == 0 {
        Seq::empty()
    } else {
        (if spec_contains_char(ts[0], '%') {
            spec_clean_coverage_text(ts[0])
        } else {
            Seq::empty()
        }) + spec_coverage_candidate(ts.drop_first())
    }
}

proof fn lemma_coverage_candidate_snoc(ts: Seq<Seq<char>>, x: Seq<char>)
    ensures
        spec_coverage_candidate(ts.push(x)) == spec_coverage_candidate(ts) + (if spec_contains_char(
            x,
            '%',
        ) {
            spec_clean_coverage_text(x)
        } else {
            Seq::<char>::empty()
        }),
    decreases ts.len(),
{
    let tail: Seq<char> = if spec_contains_char(x, '%') {
        spec_clean_coverage_text(x)
    } else {
        Seq::empty()
    };
    if ts.len() == 0 {
        assert(ts.push(x)[0] == x);
        assert(ts.push(x).drop_first() =~= ts);
        assert(spec_coverage_candidate(ts) =~= Seq::<char>::empty());
        assert(spec_coverage_candidate(ts.push(x)) =~= spec_coverage_candidate(ts) + tail);
    } else {
        assert(ts.push(x).drop_first() =~= ts.drop_first().push(x));
        assert(ts.push(x)[0] == ts[0]);
        lemma_coverage_candidate_snoc(ts.drop_first(), x);
        let head: Seq<char> = if spec_contains_char(ts[0], '%') {
            spec_clean_coverage_text(ts[0])
        } else {
            Seq::empty()
        };
        assert(head + (spec_coverage_candidate(ts.drop_first()) + tail) =~= (head
            + spec_coverage_candidate(ts.drop_first())) + tail);
        assert(spec_coverage_candidate(ts.push(x)) =~= spec_coverage_candidate(ts) + tail);
    }
}

/// What the coverage percentage of a documentation page is: the candidate
/// text parsed as a number, or nothing when it does not parse.
pub open spec fn spec_coverage_score(html: Seq<char>) -> Option<u64> {
    spec_parse_u64(spec_coverage_candidate(class_texts_of(html, "pure-menu-link"@)))
}

impl DocService {
    /// Classifies where the documentation of `crate_name` lives, given its
    /// documentation link.
    pub fn new(crate_name: &str, crate_documentation: &str) -> (r: DocService)
        ensures
            r.crate_name@ == crate_name@,
            r.doc_source == spec_doc_source(crate_documentation@),
            r.doc_url@ == spec_doc_url(crate_name@, crate_documentation@),
    {
        proof {
            reveal_strlit("github.com");
        }
        if contains_sub(crate_documentation, "github.com") {
            DocService {
                crate_name: crate_name.to_owned(),
                doc_source: DocSource::GithubReadMe,
                doc_url: crate_documentation.to_owned(),
            }
        } else {
            proof {
                reveal_strlit("/");
            }
            let mut doc_url = String::from_str("https://docs.rs");
            doc_url.append("/");
            doc_url.append(crate_name);
            proof {
                assert(doc_url@ =~= spec_doc_host_base() + seq!['/'] + crate_name@);
            }
            DocService { crate_name: crate_name.to_owned(), doc_source: DocSource::RustDoc, doc_url }
        }
    }

    /// Whether the fetched documentation page shows a successful build: no
    /// element carries the build-warning class.
    pub fn has_successful_build(&self, html: &str) -> (r: bool)
        ensures
            r == (class_texts_of(html@, "warning"@).len() == 0),
    {
        let warnings = texts_of_class(html, "warning");
        warnings.len() == 0
    }

    /// One navigation text cleaned for number parsing: split on the six-space
    /// separator, the non-empty segments that hold a percent sign trimmed and
    /// concatenated, percent signs removed.
    pub fn clean_doc_coverage_text(&self, text: String) -> (r: String)
        ensures
            r@ == spec_clean_coverage_text(text@),
    {
        proof {
            reveal_strlit("      ");
            reveal_strlit("%");
            assert("%"@ =~= seq!['%']);
        }
        let parts = split_str(text.as_str(), "      ");
        let mut picked = String::new();
        let mut k: usize = 0;
        let pn = parts.len();
        proof {
            assert(parts.deep_view().take(0) =~= Seq::<Seq<char>>::empty());
            assert(picked@ =~= spec_picked(parts.deep_view().take(0)));
        }
        while k < pn
            invariant
                pn == parts.len(),
                0 <= k <= pn,
                picked@ == spec_picked(parts.deep_view().take(k as int)),
            decreases pn - k,
        {
            proof {
                assert(parts.deep_view()[k as int] == parts@[k as int]@);
                assert(parts.deep_view().take(k as int + 1) =~= parts.deep_view().take(
                    k as int,
                ).push(parts.deep_view()[k as int]));
                lemma_picked_snoc(parts.deep_view().take(k as int), parts.deep_view()[k as int]);
            }
            let part = parts[k].as_str();
            let keep = part.unicode_len() > 0 && !str_eq(part, "\n") && contains_char(part, '%');
            if keep {
                let cleaned = trim(part);
                picked.append(cleaned.as_str());
            }
            proof {
                assert(picked@ =~= spec_picked(parts.deep_view().take(k as int + 1)));
            }
            k = k + 1;
        }
        proof {
            assert(parts.deep_view().take(pn as int) =~= parts.deep_view());
        }
        let pct_parts = split_str(picked.as_str(), "%");
        let mut out = String::new();
        let mut k2: usize = 0;
        let qn = pct_parts.len();
        proof {
            assert(pct_parts.deep_view().take(0) =~= Seq::<Seq<char>>::empty());
            assert(out@ =~= spec_concat(pct_parts.deep_view().take(0)));
        }
        while k2 < qn
            invariant
                qn == pct_parts.len(),
                0 <= k2 <= qn,
                out@ == spec_concat(pct_parts.deep_view().take(k2 as int)),
            decreases qn - k2,
        {
            proof {
                assert(pct_parts.deep_view()[k2 as int] == pct_parts@[k2 as int]@);
                assert(pct_parts.deep_view().take(k2 as int + 1) =~= pct_parts.deep_view().take(
                    k2 as int,
                ).push(pct_parts.deep_view()[k2 as int]));
                lemma_concat_snoc(
                    pct_parts.deep_view().take(k2 as int),
                    pct_parts.deep_view()[k2 as int],
                );
            }
            out.append(pct_parts[k2].as_str());
            proof {
                assert(out@ =~= spec_concat(pct_parts.deep_view().take(k2 as int + 1)));
            }
            k2 = k2 + 1;
        }
        proof {
            assert(pct_parts.deep_view().take(qn as int) =~= pct_parts.deep_view());
            assert(out@ == spec_remove_percent(picked@));
        }
        out
    }

    /// The coverage percentage the fetched documentation page reports;
    /// `CoverageUnparseable` when no navigation element yields a number.
    pub fn get_rust_doc_coverage_score(&self, html: &str) -> (r: Result<u64, WmtError>)
        ensures
            match r {
                Ok(v) => spec_coverage_score(html@) == Some(v),
                Err(e) => spec_coverage_score(html@) is None && e == WmtError::CoverageUnparseable,
            },
    {
        let texts = texts_of_class(html, "pure-menu-link");
        let mut candidate = String::new();
        let mut k: usize = 0;
        let tn = texts.len();
        proof {
            assert(texts.deep_view().take(0) =~= Seq::<Seq<char>>::empty());
            assert(candidate@ =~= spec_coverage_candidate(texts.deep_view().take(0)));
        }
        while k < tn
            invariant
                tn == texts.len(),
                0 <= k <= tn,
                candidate@ == spec_coverage_candidate(texts.deep_view().take(k as int)),
            decreases tn - k,
        {
            proof {
                assert(texts.deep_view()[k as int] == texts@[k as int]@);
                assert(texts.deep_view().take(k as int + 1) =~= texts.deep_view().take(
                    k as int,
                ).push(texts.deep_view()[k as int]));
                lemma_coverage_candidate_snoc(
                    texts.deep_view().take(k as int),
                    texts.deep_view()[k as int],
                );
            }
            if contains_char(texts[k].as_str(), '%') {
                let cleaned = self.clean_doc_coverage_text(texts[k].clone());
                candidate.append(cleaned.as_str());
            }
            proof {
                assert(candidate@ =~= spec_coverage_candidate(texts.deep_view().take(k as int + 1)));
            }
            k = k + 1;
        }
        proof {
            assert(texts.deep_view().take(tn as int) =~= texts.deep_view());
        }
        match parse_u64(candidate.as_str()) {
            Some(v) => Ok(v),
            None => Err(WmtError::CoverageUnparseable),
        }
    }
}

} // verus!
