use crate::text::{chars_of, char_to_upper_case, push_char, same_text, upper_case_of};
use vstd::prelude::*;
use vstd::string::*;

verus! {

/// A page's `<title>` and meta description.
#[derive(Debug, Clone, PartialEq, Eq)]
pub struct PageMeta {
    pub title: String,
    pub description: String,
}

/// The pieces of `s` between the occurrences of `sep`, empty pieces included (what
/// `str::split` yields for a char).
pub open spec fn split_at_char(s: Seq<char>, sep: char) -> Seq<Seq<char>>
    decreases s.len(),
{
    if s.len() == 0 {
        seq![Seq::empty()]
    } else {
        let init = split_at_char(s.drop_last(), sep);
        if s.last() == sep {
            init.push(Seq::empty())
        } else {
            init.update(init.len() - 1, init.last().push(s.last()))
        }
    }
}

/// A word with its first char mapped to upper case.
pub open spec fn capitalized(word: Seq<char>) -> Seq<char> {
    if word.len() == 0 {
        word
    } else {
        upper_case_of(word[0]) + word.drop_first()
    }
}

/// The non-empty words of `words`, in order, each capitalized.
pub open spec fn capitalized_words(words: Seq<Seq<char>>) -> Seq<Seq<char>>
    decreases words.len(),
{
    if words.len() == 0 {
        Seq::empty()
    } else {
        let init = capitalized_words(words.drop_last());
        if words.last().len() > 0 {
            init.push(capitalized(words.last()))
        } else {
            init
        }
    }
}

/// `words` with `sep` between each two of them.
pub open spec fn joined(words: Seq<Seq<char>>, sep: Seq<char>) -> Seq<char>
    decreases words.len(),
{
    if words.len() == 0 {
        Seq::empty()
    } else if words.len() == 1 {
        words[0]
    } else {
        joined(words.drop_last(), sep) + sep + words.last()
    }
}

/// A file stem made readable: split at `_`, empty words dropped, each word capitalized,
/// the words joined with single spaces.
pub open spec fn humanized(stem: Seq<char>) -> Seq<char> {
    joined(capitalized_words(split_at_char(stem, '_')), seq![' '])
}

/// The name that every page title ends with.
pub open spec fn site_suffix() -> Seq<char> {
    " | Denys Bushuliak"@
}

/// The title and description of the page with file stem `stem`: the main site title for
/// `index`, hand-written ones for the other known pages, and otherwise the humanized stem
/// with the site name, as both title and description.
pub open spec fn page_meta_for(stem: Seq<char>) -> (Seq<char>, Seq<char>) {
    if stem == "index"@ {
        (
            "Denys Bushuliak | Principal Software Engineer"@,
            "Principal Software Engineer with 20+ years of experience in distributed systems, Rust, and software architecture."@,
        )
    } else if stem == "about"@ {
        (
            "About Me | Denys Bushuliak"@,
            "Background, education, languages, interests, and volunteering."@,
        )
    } else if stem == "projects"@ {
        (
            "Projects | Denys Bushuliak"@,
            "Selected projects: an online education platform, ERP systems, a taxi platform, and SafeFrontier."@,
        )
    } else if stem == "skills"@ {
        (
            "Skills | Denys Bushuliak"@,
            "Technical skills: Rust, Go, JavaScript, CQRS, microservices, DDD, databases, and cloud."@,
        )
    } else if stem == "recommendation_letters"@ {
        (
            "Recommendation Letters | Denys Bushuliak"@,
            "Letters of recommendation from past employers, with downloadable PDFs."@,
        )
    } else {
        let title = humanized(stem) + site_suffix();
        (title, title)
    }
}

/// Splitting never yields an empty list of pieces.
proof fn lemma_split_has_a_piece(s: Seq<char>, sep: char)
    ensures
        split_at_char(s, sep).len() >= 1,
    decreases s.len(),
{
    if s.len() > 0 {
        lemma_split_has_a_piece(s.drop_last(), sep);
    }
}

/// Splitting a text without the separator yields the text as its one piece.
proof fn lemma_split_without_separator(s: Seq<char>, sep: char)
    requires
        forall|i: int| 0 <= i < s.len() ==> s[i] != sep,
    ensures
        split_at_char(s, sep) == seq![s],
    decreases s.len(),
{
    if s.len() > 0 {
        lemma_split_without_separator(s.drop_last(), sep);
        assert(s.drop_last().push(s.last()) =~= s);
        assert(seq![s.drop_last()].update(0, s.drop_last().push(s.last())) =~= seq![s]);
    } else {
        assert(s =~= Seq::<char>::empty());
    }
}

/// A stem made of one word gets that word capitalized.
pub proof fn lemma_humanize_single_word(stem: Seq<char>)
    requires
        stem.len() > 0,
        forall|i: int| 0 <= i < stem.len() ==> stem[i] != '_',
    ensures
        humanized(stem) == capitalized(stem),
{
    lemma_split_without_separator(stem, '_');
    let words = seq![stem];
    assert(words.drop_last() =~= Seq::<Seq<char>>::empty());
    assert(capitalized_words(Seq::<Seq<char>>::empty()) == Seq::<Seq<char>>::empty());
    assert(words.last() == stem);
    assert(capitalized_words(words) =~= Seq::<Seq<char>>::empty().push(capitalized(stem)));
    assert(capitalized_words(words) =~= seq![capitalized(stem)]);
}

/// A trailing underscore does not change the humanized stem: empty words are dropped.
pub proof fn lemma_humanize_ignores_trailing_underscore(stem: Seq<char>)
    ensures
        humanized(stem.push('_')) == humanized(stem),
{
    let words = split_at_char(stem, '_');
    assert(stem.push('_').drop_last() =~= stem);
    assert(split_at_char(stem.push('_'), '_') == words.push(Seq::empty()));
    assert(words.push(Seq::<char>::empty()).drop_last() =~= words);
}

/// Every stem other than the known pages' gets the same text as title and description, and
/// that text is the humanized stem followed by the site name.
pub proof fn lemma_unknown_stem_title_is_description(stem: Seq<char>)
    requires
        stem != "index"@,
        stem != "about"@,
        stem != "projects"@,
        stem != "skills"@,
        stem != "recommendation_letters"@,
    ensures
        page_meta_for(stem).0 == page_meta_for(stem).1,
        page_meta_for(stem).0 == humanized(stem) + site_suffix(),
{
}

/// Each known page has its own hand-written title and description: `index` the site's
/// main title, and `about`, `projects`, `skills` and `recommendation_letters` their own.
pub proof fn lemma_known_pages_have_their_meta()
    ensures
        page_meta_for("index"@) == (
            "Denys Bushuliak | Principal Software Engineer"@,
            "Principal Software Engineer with 20+ years of experience in distributed systems, Rust, and software architecture."@,
        ),
        page_meta_for("about"@) == (
            "About Me | Denys Bushuliak"@,
            "Background, education, languages, interests, and volunteering."@,
        ),
        page_meta_for("projects"@) == (
            "Projects | Denys Bushuliak"@,
            "Selected projects: an online education platform, ERP systems, a taxi platform, and SafeFrontier."@,
        ),
        page_meta_for("skills"@) == (
            "Skills | Denys Bushuliak"@,
            "Technical skills: Rust, Go, JavaScript, CQRS, microservices, DDD, databases, and cloud."@,
        ),
        page_meta_for("recommendation_letters"@) == (
            "Recommendation Letters | Denys Bushuliak"@,
            "Letters of recommendation from past employers, with downloadable PDFs."@,
        ),
{
    reveal_strlit("index");
    reveal_strlit("about");
    reveal_strlit("projects");
    reveal_strlit("skills");
    reveal_strlit("recommendation_letters");
    assert("about"@[0] != "index"@[0]);
    assert("projects"@[0] != "index"@[0] && "projects"@[0] != "about"@[0]);
    assert("skills"@[0] != "index"@[0] && "skills"@[0] != "about"@[0] && "skills"@[0]
        != "projects"@[0]);
    assert("recommendation_letters"@[0] != "index"@[0] && "recommendation_letters"@[0]
        != "about"@[0] && "recommendation_letters"@[0] != "projects"@[0]
        && "recommendation_letters"@[0] != "skills"@[0]);
}

impl PageMeta {
    /// Derives the per-page `<title>` and meta description from a markdown file stem.
    ///
    /// `index` gets the site's main title; any other known page gets a
    /// hand-written description, and unknown stems fall back to a humanized
    /// name combined with the site name (used as both title and description).
    pub fn from_file_stem(stem: &str) -> (meta: Self)
        ensures
            (meta.title@, meta.description@) == page_meta_for(stem@),
    {
        if same_text(stem, "index") {
            Self {
                title: String::from_str("Denys Bushuliak | Principal Software Engineer"),
                description: String::from_str(
                    "Principal Software Engineer with 20+ years of experience in distributed systems, Rust, and software architecture.",
                ),
            }
        } else if same_text(stem, "about") {
            Self {
                title: String::from_str("About Me | Denys Bushuliak"),
                description: String::from_str(
                    "Background, education, languages, interests, and volunteering.",
                ),
            }
        } else if same_text(stem, "projects") {
            Self {
                title: String::from_str("Projects | Denys Bushuliak"),
                description: String::from_str(
                    "Selected projects: an online education platform, ERP systems, a taxi platform, and SafeFrontier.",
                ),
            }
        } else if same_text(stem, "skills") {
            Self {
                title: String::from_str("Skills | Denys Bushuliak"),
                description: String::from_str(
                    "Technical skills: Rust, Go, JavaScript, CQRS, microservices, DDD, databases, and cloud.",
                ),
            }
        } else if same_text(stem, "recommendation_letters") {
            Self {
                title: String::from_str("Recommendation Letters | Denys Bushuliak"),
                description: String::from_str(
                    "Letters of recommendation from past employers, with downloadable PDFs.",
                ),
            }
        } else {
            let mut title = humanize(stem);
            title.append(" | Denys Bushuliak");
            let description = title.clone();
            Self { title, description }
        }
    }
}

/// Splits `stem` at `_`, drops empty words, capitalizes each word and joins them with
/// spaces.
pub fn humanize(stem: &str) -> (r: String)
    ensures
        r@ == humanized(stem@),
{
    let sv = chars_of(stem);
    let mut words: Vec<String> = Vec::new();
    let mut cur = String::new();
    for i in 0..sv.len()
        invariant
            sv@ == stem@,
            words.deep_view().push(cur@) == split_at_char(sv@.take(i as int), '_'),
    {
        let ghost prev = sv@.take(i as int);
        let ghost pieces = split_at_char(prev, '_');
        proof {
            assert(sv@.take(i + 1).drop_last() =~= prev);
            lemma_split_has_a_piece(prev, '_');
        }
        let ghost before = words.deep_view();
        if sv[i] == '_' {
            words.push(cur);
            cur = String::new();
            assert(words.deep_view() =~= before.push(pieces.last()));
            assert(words.deep_view().push(cur@) =~= pieces.push(Seq::empty()));
        } else {
            push_char(&mut cur, sv[i]);
            assert(words.deep_view().push(cur@) =~= pieces.update(
                pieces.len() - 1,
                pieces.last().push(sv@[i as int]),
            ));
        }
    }
    words.push(cur);
    assert(sv@.take(sv@.len() as int) =~= sv@);
    assert(words.deep_view() =~= split_at_char(stem@, '_'));
    let mut out = String::new();
    let mut any = false;
    for j in 0..words.len()
        invariant
            words.deep_view() == split_at_char(stem@, '_'),
            out@ == joined(capitalized_words(words.deep_view().take(j as int)), seq![' ']),
            any == (capitalized_words(words.deep_view().take(j as int)).len() > 0),
    {
        let ghost ws = words.deep_view();
        let ghost done = capitalized_words(ws.take(j as int));
        assert(ws.take(j + 1).drop_last() =~= ws.take(j as int));
        let w = words[j].as_str();
        assert(w@ == ws[j as int]);
        let n = w.unicode_len();
        if n > 0 {
            let ghost word = capitalized(w@);
            if any {
                proof {
                    reveal_strlit(" ");
                }
                out.append(" ");
            }
            let first = w.get_char(0);
            let up = char_to_upper_case(first);
            out.append(up.as_str());
            out.append(w.substring_char(1, n));
            assert(w@.subrange(1, n as int) =~= w@.drop_first());
            proof {
                assert(done.push(word).drop_last() =~= done);
                if done.len() > 0 {
                    assert(out@ =~= joined(done, seq![' ']) + seq![' '] + word);
                } else {
                    assert(out@ =~= word);
                }
            }
            any = true;
        }
    }
    assert(words.deep_view().take(words.len() as int) =~= words.deep_view());
    out
}

} // verus!
