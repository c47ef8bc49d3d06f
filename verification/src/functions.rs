use crate::entities::html_file::HtmlFile;
use crate::entities::markdown_file::MarkdownFile;
use crate::entities::page_meta::{page_meta_for, PageMeta};
use crate::paths::{
    extension_of, file_stem_of, join_path, parent_of, path_extension, path_file_stem,
    path_joined, path_parent, path_relative_to, path_with_extension, set_path_extension,
    strip_path_prefix,
};
use crate::text::{
    chars_of, path_debug_format, path_debug_text, ends_with, find_from, first_match,
    lemma_ends_with_transitive, lemma_first_match_found, lemma_first_match_shift,
    lemma_replace_absent_pattern, lemma_replace_single_occurrence,
    lemma_trimmed_start_is_suffix, matches_at, occurs_at, replace_all, replaced, same_text,
    skip_white_space, trimmed_start,
};
use crate::{CONTENT_PLACEHOLDER, DESCRIPTION_PLACEHOLDER, TITLE_PLACEHOLDER};
use vstd::prelude::*;
use vstd::string::*;

verus! {

// ---------------------------------------------------------------- markdown

/// The HTML that `pulldown_cmark` renders from a markdown text (no extensions enabled).
pub uninterp spec fn markdown_html(markdown: Seq<char>) -> Seq<char>;

/// Renders markdown to HTML with `pulldown_cmark::Parser::new` and
/// `pulldown_cmark::html::push_html`. Claimed: the result is the named `markdown_html` of
/// the input; what the renderer produces is not stated further.
#[verifier::external_body]
pub fn render_markdown(content: &str) -> (html: String)
    ensures
        html@ == markdown_html(content@),
{
    let parser = pulldown_cmark::Parser::new(content);
    let mut html_output = String::new();
    pulldown_cmark::html::push_html(&mut html_output, parser);
    html_output
}

// ---------------------------------------------------------------- style blocks

/// `content` without a leading `<style>...</style>` block: if `content`, after its leading
/// white space, starts with `<style>`, what follows the first `</style>` after it, without
/// its own leading white space (or the trimmed content where no `</style>` follows);
/// otherwise `content` unchanged.
pub open spec fn without_leading_style_block(content: Seq<char>) -> Seq<char> {
    let trimmed = trimmed_start(content);
    let open_tag = "<style>"@;
    let close_tag = "</style>"@;
    if trimmed.len() >= open_tag.len() && trimmed.take(open_tag.len() as int) == open_tag {
        let rest = trimmed.skip(open_tag.len() as int);
        match first_match(rest, close_tag) {
            Some(j) => trimmed_start(rest.skip(j + close_tag.len())),
            None => trimmed,
        }
    } else {
        content
    }
}

/// Removing a leading style block only ever cuts text off the front: the result is a
/// suffix of the content.
pub proof fn lemma_style_block_removal_keeps_a_suffix(content: Seq<char>)
    ensures
        ends_with(content, without_leading_style_block(content)),
{
    let trimmed = trimmed_start(content);
    let open_tag = "<style>"@;
    let close_tag = "</style>"@;
    lemma_trimmed_start_is_suffix(content);
    if trimmed.len() >= open_tag.len() && trimmed.take(open_tag.len() as int) == open_tag {
        let rest = trimmed.skip(open_tag.len() as int);
        assert(ends_with(trimmed, rest)) by {
            assert(trimmed.skip(trimmed.len() - rest.len()) =~= rest);
        }
        lemma_ends_with_transitive(content, trimmed, rest);
        lemma_first_match_found(rest, close_tag, 0);
        match first_match(rest, close_tag) {
            Some(j) => {
                let tail = rest.skip(j + close_tag.len());
                assert(ends_with(rest, tail)) by {
                    assert(rest.skip(rest.len() - tail.len()) =~= tail);
                }
                lemma_ends_with_transitive(content, rest, tail);
                lemma_trimmed_start_is_suffix(tail);
                lemma_ends_with_transitive(content, tail, trimmed_start(tail));
            },
            None => {},
        }
    } else {
        assert(content.skip(0) =~= content);
    }
}

/// Markdown sources start with a per-page active-nav highlight; it must not
/// leak into a document that combines several sources.
pub fn strip_leading_style_block(content: &str) -> (r: &str)
    ensures
        r@ == without_leading_style_block(content@),
{
    let cv = chars_of(content);
    assert(cv@.skip(0) =~= cv@);
    let k = skip_white_space(&cv, 0);
    let open_tag = chars_of("<style>");
    let ghost trimmed = cv@.skip(k as int);
    proof {
        if k + open_tag@.len() <= cv@.len() {
            assert(trimmed.take(open_tag@.len() as int) =~= cv@.subrange(
                k as int,
                k + open_tag@.len(),
            ));
        }
    }
    if matches_at(&cv, &open_tag, k) {
        let start = k + open_tag.len();
        let close_tag = chars_of("</style>");
        let ghost rest = trimmed.skip(open_tag@.len() as int);
        assert(rest =~= cv@.skip(start as int));
        proof {
            lemma_first_match_shift(cv@, close_tag@, start as int, 0);
            lemma_first_match_found(cv@, close_tag@, start as int);
        }
        match find_from(&cv, &close_tag, start) {
            Some(j) => {
                assert(rest.skip((j - start) + close_tag@.len()) =~= cv@.skip(
                    j + close_tag@.len(),
                ));
                let e = skip_white_space(&cv, j + close_tag.len());
                let r = content.substring_char(e, cv.len());
                assert(r@ =~= cv@.skip(e as int));
                r
            },
            None => {
                let r = content.substring_char(k, cv.len());
                assert(r@ =~= trimmed);
                r
            },
        }
    } else {
        content
    }
}

// ---------------------------------------------------------------- pages

/// `layout` with `placeholder` replaced by `body`, then the title placeholder by `title`,
/// then the description placeholder by `description`.
pub open spec fn filled_layout(
    layout: Seq<char>,
    placeholder: Seq<char>,
    body: Seq<char>,
    title: Seq<char>,
    description: Seq<char>,
) -> Seq<char> {
    replaced(
        replaced(replaced(layout, placeholder, body), TITLE_PLACEHOLDER@, title),
        DESCRIPTION_PLACEHOLDER@,
        description,
    )
}

/// Where the page rendered from the markdown file at `md_path` is saved: its path relative
/// to `input_directory` (the whole path where it is not under it), joined onto
/// `output_directory`, with the extension `html`.
pub open spec fn html_path_for(
    md_path: Seq<char>,
    input_directory: Seq<char>,
    output_directory: Seq<char>,
) -> Seq<char> {
    let relative = match path_relative_to(md_path, input_directory) {
        Some(rel) => rel,
        None => md_path,
    };
    path_with_extension(path_joined(output_directory, relative), "html"@)
}

/// The file stem of `md_path`, empty where it has none.
pub open spec fn stem_or_empty(md_path: Seq<char>) -> Seq<char> {
    match path_file_stem(md_path) {
        Some(stem) => stem,
        None => Seq::empty(),
    }
}

/// The page rendered from a markdown file: `layout` with `placeholder` replaced by the
/// rendered markdown, and the title and description placeholders by the page's meta.
pub open spec fn rendered_page(
    layout: Seq<char>,
    placeholder: Seq<char>,
    md_path: Seq<char>,
    md_content: Seq<char>,
) -> Seq<char> {
    let meta = page_meta_for(stem_or_empty(md_path));
    filled_layout(layout, placeholder, markdown_html(md_content), meta.0, meta.1)
}

/// A layout that holds the content placeholder once, where neither it nor the rendered
/// markdown holds a title or description placeholder, becomes the layout with the rendered
/// markdown in the placeholder's place.
pub proof fn lemma_page_puts_markdown_in_place(
    before: Seq<char>,
    placeholder: Seq<char>,
    after: Seq<char>,
    md_path: Seq<char>,
    md_content: Seq<char>,
)
    requires
        placeholder.len() > 0,
        forall|k: int|
            occurs_at(before + placeholder + after, placeholder, k) ==> k == before.len(),
        forall|k: int|
            !occurs_at(before + markdown_html(md_content) + after, TITLE_PLACEHOLDER@, k),
        forall|k: int|
            !occurs_at(before + markdown_html(md_content) + after, DESCRIPTION_PLACEHOLDER@, k),
    ensures
        rendered_page(before + placeholder + after, placeholder, md_path, md_content) == before
            + markdown_html(md_content) + after,
{
    let body = before + markdown_html(md_content) + after;
    let meta = page_meta_for(stem_or_empty(md_path));
    reveal_strlit("<!--PAGE_TITLE-->");
    reveal_strlit("<!--PAGE_DESCRIPTION-->");
    lemma_replace_single_occurrence(before, placeholder, after, markdown_html(md_content));
    lemma_replace_absent_pattern(body, TITLE_PLACEHOLDER@, meta.0);
    lemma_replace_absent_pattern(body, DESCRIPTION_PLACEHOLDER@, meta.1);
}

/// A page is saved under the output folder at the path that `Path::strip_prefix` gives for
/// the markdown file relative to the input folder, with the extension `html`; a markdown
/// file outside the input folder keeps its whole path under the output folder.
pub proof fn lemma_saved_path_mirrors_the_input_folder(
    md_path: Seq<char>,
    input_directory: Seq<char>,
    output_directory: Seq<char>,
)
    ensures
        path_relative_to(md_path, input_directory) matches Some(rel) ==> html_path_for(
            md_path,
            input_directory,
            output_directory,
        ) == path_with_extension(path_joined(output_directory, rel), "html"@),
        path_relative_to(md_path, input_directory) is None ==> html_path_for(
            md_path,
            input_directory,
            output_directory,
        ) == path_with_extension(path_joined(output_directory, md_path), "html"@),
{
}

/// Fills `layout` with `body` and the page's title and description.
fn fill_layout(layout: &str, placeholder: &str, body: &str, meta: &PageMeta) -> (r: String)
    ensures
        r@ == filled_layout(layout@, placeholder@, body@, meta.title@, meta.description@),
{
    let with_body = replace_all(layout, placeholder, body);
    let with_title = replace_all(with_body.as_str(), TITLE_PLACEHOLDER, meta.title.as_str());
    replace_all(with_title.as_str(), DESCRIPTION_PLACEHOLDER, meta.description.as_str())
}

/// Renders one markdown file into `layout`, saved under `output_directory` at the path it
/// had under `input_directory`, with the extension `html`.
pub fn convert_markdown_file(
    output_directory: &str,
    layout_html_file: &str,
    placeholder: &str,
    input_directory: &str,
    markdown_file: MarkdownFile,
) -> (html_file: HtmlFile)
    ensures
        html_file.path_to_save@ == html_path_for(
            markdown_file.path@,
            input_directory@,
            output_directory@,
        ),
        html_file.content@ == rendered_page(
            layout_html_file@,
            placeholder@,
            markdown_file.path@,
            markdown_file.content@,
        ),
{
    // Compute relative path from input dir, preserving subdirectory structure
    let relative = match strip_path_prefix(markdown_file.path.as_str(), input_directory) {
        Some(rel) => rel,
        None => markdown_file.path.clone(),
    };
    let joined = join_path(output_directory, relative.as_str());
    proof {
        reveal_strlit("html");
    }
    let path_to_save = set_path_extension(joined.as_str(), "html");

    let html_output = render_markdown(markdown_file.content.as_str());

    let stem = match file_stem_of(markdown_file.path.as_str()) {
        Some(stem) => stem,
        None => String::new(),
    };
    let meta = PageMeta::from_file_stem(stem.as_str());

    let html_output = fill_layout(layout_html_file, placeholder, html_output.as_str(), &meta);

    HtmlFile::new(path_to_save, html_output)
}

/// A converter from markdown files to pages, as `convert_markdown_file` with these
/// directories, layout and placeholder.
pub fn convert_to_html<'a>(
    output_directory: &'a str,
    layout_html_file: &'a str,
    placeholder: &'a str,
    input_directory: &'a str,
) -> (converter: impl Fn(MarkdownFile) -> HtmlFile + 'a)
    ensures
        forall|markdown_file: MarkdownFile| converter.requires((markdown_file,)),
        forall|markdown_file: MarkdownFile, html_file: HtmlFile|
            converter.ensures((markdown_file,), html_file) ==> {
                &&& html_file.path_to_save@ == html_path_for(
                    markdown_file.path@,
                    input_directory@,
                    output_directory@,
                )
                &&& html_file.content@ == rendered_page(
                    layout_html_file@,
                    placeholder@,
                    markdown_file.path@,
                    markdown_file.content@,
                )
            },
{
    move |markdown_file: MarkdownFile| -> (html_file: HtmlFile)
        ensures
            html_file.path_to_save@ == html_path_for(
                markdown_file.path@,
                input_directory@,
                output_directory@,
            ),
            html_file.content@ == rendered_page(
                layout_html_file@,
                placeholder@,
                markdown_file.path@,
                markdown_file.content@,
            ),
        {
            convert_markdown_file(
                output_directory,
                layout_html_file,
                placeholder,
                input_directory,
                markdown_file,
            )
        }
}


// ---------------------------------------------------------------- directory walk

/// What reading a directory does with one of its entries.
#[derive(Debug, Clone, Copy, PartialEq, Eq)]
pub enum EntryAction {
    /// Leave the entry out.
    Skip,
    /// Read the directory's own entries.
    Descend,
    /// Read the entry as a markdown source.
    Read,
}

/// What reading a directory does with the entry named `file_name` at `path`: hidden entries
/// (macOS, git, etc.) are left out, directories are read in turn, and files with the
/// extension `md` are read as markdown; anything else is left out.
pub open spec fn entry_action_for(file_name: Seq<char>, path: Seq<char>, is_dir: bool) -> EntryAction {
    if file_name.len() > 0 && file_name[0] == '.' {
        EntryAction::Skip
    } else if is_dir {
        EntryAction::Descend
    } else if path_extension(path) == Some("md"@) {
        EntryAction::Read
    } else {
        EntryAction::Skip
    }
}

/// Decides what to do with a directory entry, given its name, its path and whether it is a
/// directory.
pub fn entry_action(file_name: &str, path: &str, is_dir: bool) -> (action: EntryAction)
    ensures
        action == entry_action_for(file_name@, path@, is_dir),
{
    // Skip hidden files and directories (macOS, git, etc.)
    if file_name.unicode_len() > 0 && file_name.get_char(0) == '.' {
        return EntryAction::Skip;
    }
    if is_dir {
        EntryAction::Descend
    } else {
        match extension_of(path) {
            Some(ext) => if same_text(ext.as_str(), "md") {
                EntryAction::Read
            } else {
                EntryAction::Skip
            },
            None => EntryAction::Skip,
        }
    }
}

/// Hidden entries are always left out, directories or not.
pub proof fn lemma_hidden_entries_are_skipped(file_name: Seq<char>, path: Seq<char>, is_dir: bool)
    requires
        file_name.len() > 0,
        file_name[0] == '.',
    ensures
        entry_action_for(file_name, path, is_dir) == EntryAction::Skip,
{
}

/// Only files with the extension `md` are read as markdown.
pub proof fn lemma_only_markdown_files_are_read(file_name: Seq<char>, path: Seq<char>, is_dir: bool)
    requires
        entry_action_for(file_name, path, is_dir) == EntryAction::Read,
    ensures
        !is_dir,
        path_extension(path) == Some("md"@),
{
}

/// A visible entry that is not a directory and whose path has the extension `md` is read
/// as markdown, and a visible directory is descended into, wherever the entry stands.
pub proof fn lemma_visible_entries_are_read_or_descended(
    file_name: Seq<char>,
    path: Seq<char>,
    is_dir: bool,
)
    requires
        !(file_name.len() > 0 && file_name[0] == '.'),
    ensures
        is_dir ==> entry_action_for(file_name, path, is_dir) == EntryAction::Descend,
        !is_dir && path_extension(path) == Some("md"@) ==> entry_action_for(file_name, path, is_dir)
            == EntryAction::Read,
{
}

/// The decision on an entry reads its path only through the path's extension: two entries
/// with the same name, kind and extension are treated alike, wherever they stand.
pub proof fn lemma_entry_action_depends_on_extension_only(
    file_name: Seq<char>,
    path: Seq<char>,
    other_path: Seq<char>,
    is_dir: bool,
)
    requires
        path_extension(path) == path_extension(other_path),
    ensures
        entry_action_for(file_name, path, is_dir) == entry_action_for(file_name, other_path, is_dir),
{
}

// ---------------------------------------------------------------- saving

#[verifier::external_type_specification]
#[verifier::external_body]
pub struct ExIoError(std::io::Error);

/// Why a page could not be saved.
#[derive(Debug)]
pub enum SaveToDiskError {
    ErrorOnSavingFile(std::io::Error),
    CanNotTakeParentDirectoryFrom(String),
}

impl From<std::io::Error> for SaveToDiskError {
    fn from(value: std::io::Error) -> (e: Self) {
        SaveToDiskError::ErrorOnSavingFile(value)
    }
}

impl vstd::std_specs::convert::FromSpecImpl<std::io::Error> for SaveToDiskError {
    open spec fn obeys_from_spec() -> bool {
        true
    }

    open spec fn from_spec(v: std::io::Error) -> Self {
        SaveToDiskError::ErrorOnSavingFile(v)
    }
}

/// The `Display` text of an I/O error. It comes from the operating system, so nothing is
/// claimed of it.
#[verifier::external_body]
fn io_error_text(e: &std::io::Error) -> String {
    e.to_string()
}

impl SaveToDiskError {
    /// The error's message: the I/O error's own text after `IO error: `, or the path whose
    /// parent directory is missing.
    pub fn to_string(&self) -> (s: String)
        ensures
            match self {
                SaveToDiskError::ErrorOnSavingFile(_) => exists|text: Seq<char>|
                    s@ == "IO error: "@ + text,
                SaveToDiskError::CanNotTakeParentDirectoryFrom(p) => s@
                    == "Cannot determine parent directory for: "@ + path_debug_text(p@),
            },
    {
        match self {
            SaveToDiskError::ErrorOnSavingFile(e) => {
                let mut s = String::from_str("IO error: ");
                let text = io_error_text(e);
                s.append(text.as_str());
                s
            },
            SaveToDiskError::CanNotTakeParentDirectoryFrom(p) => {
                let mut s = String::from_str("Cannot determine parent directory for: ");
                s.append(path_debug_format(p.as_str()).as_str());
                s
            },
        }
    }
}

/// The directory that `html_file` is saved in: the parent of its path, or an error naming
/// the path where it has none.
pub fn save_directory(html_file: &HtmlFile) -> (r: Result<String, SaveToDiskError>)
    ensures
        match path_parent(html_file.path_to_save@) {
            Some(dir) => r matches Ok(d) && d@ == dir,
            None => r matches Err(SaveToDiskError::CanNotTakeParentDirectoryFrom(p)) && p
                == html_file.path_to_save,
        },
{
    match parent_of(html_file.path_to_save.as_str()) {
        Some(dir) => Ok(dir),
        None => Err(SaveToDiskError::CanNotTakeParentDirectoryFrom(html_file.path_to_save.clone())),
    }
}

// ---------------------------------------------------------------- resume

/// A source of the résumé page: its markdown file's name and its section title.
#[derive(Debug)]
pub struct ResumeSource {
    pub file_name: String,
    pub title: String,
}

/// The sources combined into the single printable résumé page, in order.
pub open spec fn resume_source_list() -> Seq<(Seq<char>, Seq<char>)> {
    seq![
        ("about.md"@, "About Me"@),
        ("projects.md"@, "Projects"@),
        ("skills.md"@, "Skills"@),
        ("recommendation_letters.md"@, "Recommendation Letters"@),
    ]
}

/// The sources combined into the single printable résumé page.
pub fn resume_sources() -> (sources: Vec<ResumeSource>)
    ensures
        sources@.len() == resume_source_list().len(),
        forall|i: int|
            0 <= i < sources@.len() ==> (sources@[i].file_name@, sources@[i].title@)
                == #[trigger] resume_source_list()[i],
{
    let mut sources: Vec<ResumeSource> = Vec::new();
    sources.push(
        ResumeSource { file_name: String::from_str("about.md"), title: String::from_str("About Me") },
    );
    sources.push(
        ResumeSource {
            file_name: String::from_str("projects.md"),
            title: String::from_str("Projects"),
        },
    );
    sources.push(
        ResumeSource { file_name: String::from_str("skills.md"), title: String::from_str("Skills") },
    );
    sources.push(
        ResumeSource {
            file_name: String::from_str("recommendation_letters.md"),
            title: String::from_str("Recommendation Letters"),
        },
    );
    sources
}

/// One part of the résumé: its section title and its markdown source.
#[derive(Debug)]
pub struct ResumePart {
    pub title: String,
    pub markdown: String,
}

/// The highlight of the résumé link that heads the résumé page.
pub open spec fn resume_style() -> Seq<char> {
    "<style>\n    #resume-link{\n        color: var(--active-nav-link-color) !important;\n    }\n</style>\n"@
}

/// The section of the résumé page made from one part: its title as a heading, then its
/// markdown rendered without its leading style block.
pub open spec fn resume_section(title: Seq<char>, markdown: Seq<char>) -> Seq<char> {
    "<section class=\"resume-part\">\n<h1>"@ + title + "</h1>\n"@ + markdown_html(
        without_leading_style_block(markdown),
    ) + "</section>\n"@
}

/// The sections made from `parts`, in order.
pub open spec fn resume_sections(parts: Seq<ResumePart>) -> Seq<char>
    decreases parts.len(),
{
    if parts.len() == 0 {
        Seq::empty()
    } else {
        resume_sections(parts.drop_last()) + resume_section(
            parts.last().title@,
            parts.last().markdown@,
        )
    }
}

/// The résumé page: `layout` filled with the résumé style and the sections of `parts`, and
/// the résumé page's title and description.
pub open spec fn resume_page(layout: Seq<char>, parts: Seq<ResumePart>) -> Seq<char> {
    let meta = page_meta_for("resume"@);
    filled_layout(
        layout,
        CONTENT_PLACEHOLDER@,
        resume_style() + resume_sections(parts),
        meta.0,
        meta.1,
    )
}

/// The résumé's sections for two runs of parts are the sections of the first run followed
/// by those of the second: each part contributes its own section, whatever stands around it.
pub proof fn lemma_resume_sections_concatenate(first: Seq<ResumePart>, second: Seq<ResumePart>)
    ensures
        resume_sections(first + second) == resume_sections(first) + resume_sections(second),
    decreases second.len(),
{
    if second.len() == 0 {
        assert(first + second =~= first);
        assert(resume_sections(first) + Seq::<char>::empty() =~= resume_sections(first));
    } else {
        lemma_resume_sections_concatenate(first, second.drop_last());
        assert((first + second).drop_last() =~= first + second.drop_last());
        assert((first + second).last() == second.last());
        assert(resume_sections(first) + resume_sections(second.drop_last()) + resume_section(
            second.last().title@,
            second.last().markdown@,
        ) =~= resume_sections(first) + resume_sections(second));
    }
}

/// Builds `resume.html`: the résumé-relevant pages combined into one document, so the
/// whole site can be printed in a single A4 job.
pub fn assemble_resume(output_directory: &str, layout_html_file: &str, parts: &Vec<ResumePart>) -> (html_file: HtmlFile)
    ensures
        html_file.path_to_save@ == path_joined(output_directory@, "resume.html"@),
        html_file.content@ == resume_page(layout_html_file@, parts@),
{
    let mut content = String::from_str(
        "<style>\n    #resume-link{\n        color: var(--active-nav-link-color) !important;\n    }\n</style>\n",
    );
    for i in 0..parts.len()
        invariant
            content@ == resume_style() + resume_sections(parts@.take(i as int)),
    {
        let part = &parts[i];
        let part_html = render_markdown(strip_leading_style_block(part.markdown.as_str()));
        content.append("<section class=\"resume-part\">\n<h1>");
        content.append(part.title.as_str());
        content.append("</h1>\n");
        content.append(part_html.as_str());
        content.append("</section>\n");
        assert(parts@.take(i + 1).drop_last() =~= parts@.take(i as int));
        assert(content@ =~= resume_style() + resume_sections(parts@.take(i + 1)));
    }
    assert(parts@.take(parts.len() as int) =~= parts@);
    let meta = PageMeta::from_file_stem("resume");
    let html_output = fill_layout(layout_html_file, CONTENT_PLACEHOLDER, content.as_str(), &meta);
    HtmlFile::new(join_path(output_directory, "resume.html"), html_output)
}

} // verus!
