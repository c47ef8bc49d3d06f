use std::path::PathBuf;

use builder::functions::{
    assemble_resume, convert_markdown_file, convert_to_html, entry_action, render_markdown,
    resume_sources, save_directory, strip_leading_style_block, EntryAction, ResumePart,
    SaveToDiskError,
};
use builder::text::replace_all;
use builder::{HtmlFile, MarkdownFile, PageMeta};

fn path_text(path: PathBuf) -> String {
    path.to_string_lossy().into_owned()
}

#[test]
fn test_convert_to_html() {
    let input_dir = PathBuf::from("input");
    let output_dir = PathBuf::from("output");
    let layout = "<html><body><!--REPLACE_ME_BY_CONTENT--></body></html>";
    let placeholder = "<!--REPLACE_ME_BY_CONTENT-->";

    let md_path = path_text(input_dir.join("sub/post.md"));
    let md_content = "# Title\nHello";
    let md_file = MarkdownFile::create(md_path, md_content.to_string());

    let input_dir = path_text(input_dir);
    let output_dir = path_text(output_dir);
    let converter = convert_to_html(&output_dir, layout, placeholder, &input_dir);
    let html_file = converter(md_file);

    println!("Path to save: {:?}", html_file.path_to_save);
    assert!(html_file.path_to_save.ends_with("sub/post.html"));
    assert!(html_file.content.contains("<h1>Title</h1>"));
    assert!(html_file.content.contains("<p>Hello</p>"));
    assert!(html_file.content.contains("<html><body>"));
}

#[test]
fn test_convert_to_html_injects_page_meta() {
    let input_dir = PathBuf::from("input");
    let output_dir = PathBuf::from("output");
    let layout = "<html><head><title><!--PAGE_TITLE--></title>\
                   <meta name=\"description\" content=\"<!--PAGE_DESCRIPTION-->\"></head>\
                   <body><!--REPLACE_ME_BY_CONTENT--></body></html>";
    let placeholder = "<!--REPLACE_ME_BY_CONTENT-->";

    let md_path = path_text(input_dir.join("skills.md"));
    let md_file = MarkdownFile::create(md_path, "Content".to_string());

    let input_dir = path_text(input_dir);
    let output_dir = path_text(output_dir);
    let converter = convert_to_html(&output_dir, layout, placeholder, &input_dir);
    let html_file = converter(md_file);

    assert!(html_file.content.contains("<title>Skills | Denys Bushuliak</title>"));
    assert!(html_file.content.contains(
        "content=\"Technical skills: Rust, Go, JavaScript, CQRS, microservices, DDD, databases, and cloud.\""
    ));
    assert!(!html_file.content.contains("PAGE_TITLE"));
    assert!(!html_file.content.contains("PAGE_DESCRIPTION"));
}

#[test]
fn test_page_meta_index_keeps_main_site_title() {
    let meta = builder::PageMeta::from_file_stem("index");
    assert_eq!(
        meta.title,
        "Denys Bushuliak | Principal Software Engineer"
    );
}

#[test]
fn test_page_meta_known_pages_get_descriptions() {
    let meta = builder::PageMeta::from_file_stem("recommendation_letters");
    assert_eq!(meta.title, "Recommendation Letters | Denys Bushuliak");
    assert_eq!(
        meta.description,
        "Letters of recommendation from past employers, with downloadable PDFs."
    );
}

#[test]
fn test_page_meta_unknown_stem_falls_back_to_humanized_title() {
    let meta = builder::PageMeta::from_file_stem("my_writing");
    assert_eq!(meta.title, "My Writing | Denys Bushuliak");
    assert_eq!(meta.description, meta.title);
}

#[test]
fn test_markdown_file_from_tuple() {
    let path = "test.md".to_string();
    let content = "content".to_string();
    let md_file = MarkdownFile::from((path.clone(), content.clone()));
    assert_eq!(md_file.path, path);
    assert_eq!(md_file.content, content);
}

#[test]
fn test_save_to_disk_error_no_parent() {
    let file_path = "/".to_string();
    let html_file = HtmlFile::new(file_path, "content".to_string());
    let result = save_directory(&html_file);
    assert!(result.is_err());
    let err = result.unwrap_err();
    assert!(err.to_string().contains("Cannot determine parent directory"));
}

#[test]
fn save_directory_is_the_parent_of_the_page() {
    let html_file = HtmlFile::new("out/sub/page.html".to_string(), "x".to_string());
    assert_eq!(save_directory(&html_file).unwrap(), "out/sub");
}

#[test]
fn save_error_from_io_error_names_it() {
    let io = std::io::Error::new(std::io::ErrorKind::Other, "disk full");
    let err = SaveToDiskError::from(io);
    assert_eq!(err.to_string(), "IO error: disk full");
}

#[test]
fn save_error_without_parent_quotes_the_path() {
    let err = SaveToDiskError::CanNotTakeParentDirectoryFrom("/".to_string());
    assert_eq!(err.to_string(), "Cannot determine parent directory for: \"/\"");
}

#[test]
fn convert_keeps_paths_outside_the_input_directory() {
    let md_file = MarkdownFile::create("elsewhere/notes.md".to_string(), "text".to_string());
    let html_file = convert_markdown_file("out", "<!--X-->", "<!--X-->", "input", md_file);
    assert_eq!(html_file.path_to_save, "out/elsewhere/notes.html");
    assert_eq!(html_file.content, "<p>text</p>\n");
}

#[test]
fn convert_fills_title_and_description_for_index() {
    let md_file = MarkdownFile::create("in/index.md".to_string(), "".to_string());
    let html_file = convert_markdown_file(
        "out",
        "[<!--PAGE_TITLE-->|<!--PAGE_DESCRIPTION-->|<!--BODY-->]",
        "<!--BODY-->",
        "in",
        md_file,
    );
    assert_eq!(html_file.path_to_save, "out/index.html");
    assert_eq!(
        html_file.content,
        "[Denys Bushuliak | Principal Software Engineer|Principal Software Engineer with 20+ years of experience in distributed systems, Rust, and software architecture.|]"
    );
}

#[test]
fn convert_layout_with_placeholder_once_gets_markdown_in_place() {
    let md_file = MarkdownFile::create("in/a.md".to_string(), "*hi*".to_string());
    let html_file = convert_markdown_file("out", "<b>@@</b>", "@@", "in", md_file);
    assert_eq!(html_file.content, "<b><p><em>hi</em></p>\n</b>");
}

#[test]
fn render_markdown_renders_headings_and_paragraphs() {
    assert_eq!(render_markdown("# Title\nHello"), "<h1>Title</h1>\n<p>Hello</p>\n");
    assert_eq!(render_markdown(""), "");
}

#[test]
fn replace_all_replaces_every_occurrence() {
    assert_eq!(replace_all("a-b-c", "-", "+"), "a+b+c");
    assert_eq!(replace_all("aaa", "aa", "b"), "ba");
    assert_eq!(replace_all("abc", "", "x"), "xaxbxcx");
    assert_eq!(replace_all("", "", "x"), "x");
    assert_eq!(replace_all("abc", "z", "x"), "abc");
    assert_eq!(replace_all("abc", "abc", "abc"), "abc");
    assert_eq!(replace_all("ab", "abc", "x"), "ab");
}

#[test]
fn replace_all_matches_std_replace() {
    let cases = [
        ("<!--A--><!--A-->", "<!--A-->", "z"),
        ("xyxyx", "xyx", "_"),
        ("ÈªëÈ£é", "È", "e"),
        ("no match here", "zz", "q"),
        ("", "a", "b"),
    ];
    for (s, pat, rep) in cases {
        assert_eq!(replace_all(s, pat, rep), s.replace(pat, rep));
    }
}

#[test]
fn strip_style_block_removes_leading_block() {
    assert_eq!(
        strip_leading_style_block("  <style>\n#a{}\n</style>\n\n# About"),
        "# About"
    );
    assert_eq!(strip_leading_style_block("# About"), "# About");
    assert_eq!(strip_leading_style_block("  # About"), "  # About");
    assert_eq!(strip_leading_style_block("\t<style>never closed"), "<style>never closed");
    assert_eq!(
        strip_leading_style_block("<style>a</style><style>b</style>x"),
        "<style>b</style>x"
    );
    assert_eq!(strip_leading_style_block("\u{3000}<style>a</style> x"), "x");
    assert_eq!(strip_leading_style_block(""), "");
}

#[test]
fn strip_style_block_result_is_a_suffix() {
    for content in ["  <style>x</style>  y", "abc", " <style>", "<style></style>"] {
        assert!(content.ends_with(strip_leading_style_block(content)));
    }
}

#[test]
fn entry_action_skips_hidden_and_reads_markdown() {
    assert_eq!(entry_action(".hidden.md", "dir/.hidden.md", false), EntryAction::Skip);
    assert_eq!(entry_action(".git", "dir/.git", true), EntryAction::Skip);
    assert_eq!(entry_action("sub", "dir/sub", true), EntryAction::Descend);
    assert_eq!(entry_action("file1.md", "dir/file1.md", false), EntryAction::Read);
    assert_eq!(entry_action("file3.txt", "dir/file3.txt", false), EntryAction::Skip);
    assert_eq!(entry_action("md", "dir/md", false), EntryAction::Skip);
}

#[test]
fn resume_sources_are_the_four_pages_in_order() {
    let sources = resume_sources();
    let names: Vec<(String, String)> =
        sources.into_iter().map(|s| (s.file_name, s.title)).collect();
    assert_eq!(
        names,
        vec![
            ("about.md".to_string(), "About Me".to_string()),
            ("projects.md".to_string(), "Projects".to_string()),
            ("skills.md".to_string(), "Skills".to_string()),
            ("recommendation_letters.md".to_string(), "Recommendation Letters".to_string()),
        ]
    );
}

#[test]
fn assemble_resume_combines_sections_in_order() {
    let parts = vec![
        ResumePart {
            title: "About Me".to_string(),
            markdown: "<style>\n#about-link{}\n</style>\nHello".to_string(),
        },
        ResumePart { title: "Skills".to_string(), markdown: "Rust".to_string() },
    ];
    let page = assemble_resume("out", "<main><!--REPLACE_ME_BY_CONTENT--></main><!--PAGE_TITLE-->", &parts);
    assert_eq!(page.path_to_save, "out/resume.html");
    let expected = "<main><style>\n    #resume-link{\n        color: var(--active-nav-link-color) !important;\n    }\n</style>\n\
<section class=\"resume-part\">\n<h1>About Me</h1>\n<p>Hello</p>\n</section>\n\
<section class=\"resume-part\">\n<h1>Skills</h1>\n<p>Rust</p>\n</section>\n</main>Resume | Denys Bushuliak";
    assert_eq!(page.content, expected);
    assert!(!page.content.contains("about-link"));
}

#[test]
fn assemble_resume_sections_concatenate() {
    let one = vec![ResumePart { title: "A".to_string(), markdown: "a".to_string() }];
    let two = vec![ResumePart { title: "B".to_string(), markdown: "b".to_string() }];
    let both = vec![
        ResumePart { title: "A".to_string(), markdown: "a".to_string() },
        ResumePart { title: "B".to_string(), markdown: "b".to_string() },
    ];
    let layout = "<!--REPLACE_ME_BY_CONTENT-->";
    let first = assemble_resume("o", layout, &one).content;
    let second = assemble_resume("o", layout, &two).content;
    let combined = assemble_resume("o", layout, &both).content;
    let style_len = assemble_resume("o", layout, &vec![]).content.len();
    assert_eq!(combined, format!("{}{}", first, &second[style_len..]));
}

#[test]
fn page_meta_for_other_known_pages() {
    let about = PageMeta::from_file_stem("about");
    assert_eq!(about.title, "About Me | Denys Bushuliak");
    assert_eq!(about.description, "Background, education, languages, interests, and volunteering.");
    let projects = PageMeta::from_file_stem("projects");
    assert_eq!(projects.title, "Projects | Denys Bushuliak");
    let index = PageMeta::from_file_stem("index");
    assert_eq!(
        index.description,
        "Principal Software Engineer with 20+ years of experience in distributed systems, Rust, and software architecture."
    );
}

#[test]
fn page_meta_unknown_stems_are_humanized() {
    assert_eq!(PageMeta::from_file_stem("__my__long_name_").title, "My Long Name | Denys Bushuliak");
    assert_eq!(PageMeta::from_file_stem("").title, " | Denys Bushuliak");
    assert_eq!(PageMeta::from_file_stem("resume").description, "Resume | Denys Bushuliak");
    assert_eq!(PageMeta::from_file_stem("Index").title, "Index | Denys Bushuliak");
}
