pub mod args_dto;
pub mod html_file;
pub mod markdown_file;
pub mod page_meta;
pub mod validated_args_dto;
