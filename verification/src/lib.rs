use vstd::prelude::*;

mod chars;
mod error;
mod filename_parser;
mod format_parser;
mod laws;
mod months;
mod render;

pub use crate::error::MyCustomError;
pub use crate::filename_parser::{Data, FileNameParser};
pub use crate::format_parser::{FormatParser, Node};
pub use crate::months::Months;

verus! {

/// Choices the orchestrator around the library makes per run: simulate
/// instead of acting, carry on past failing files, review each change.
pub struct RunOpt {
    pub simulate: bool,
    pub force: bool,
    pub review: bool,
}

/// One filename through the pipeline: extracts the record for the compiled
/// source template from the stem, then renders the compiled target template
/// from it. The templates are compiled once by the caller and shared across
/// stems.
pub fn process(template: &FormatParser, target: &FormatParser, s: &str) -> (r: Result<
    String,
    MyCustomError,
>)
    ensures
        match crate::filename_parser::extract_at(
            crate::format_parser::nodes_view(template.nodes@),
            0,
            s@,
            0,
            crate::filename_parser::empty_data(template.holes as int),
        ) {
            Some(dv) => {
                let tgt = crate::format_parser::nodes_view(target.nodes@);
                if crate::render::can_render(tgt, dv) {
                    r is Ok && r.unwrap()@ == crate::render::render_seq(tgt, dv)
                } else {
                    r matches Err(MyCustomError::MissingFieldError(_))
                }
            },
            None => r matches Err(MyCustomError::Default(_)),
        },
{
    let mut f = FileNameParser::new(s, template.holes);
    f.parse(&template.nodes)?;
    crate::render::render(&target.nodes, &f.d)
}

/// The whole pipeline for one stem: compiles the source and target format
/// strings, extracts the record from the stem with the source template, and
/// renders the target template from it. A malformed format string is a
/// `ParseError`, a stem that does not match the source template a generic
/// error, a target that needs an uncaptured field a `MissingFieldError`.
pub fn convert(source_format: &str, target_format: &str, stem: &str) -> (r: Result<
    String,
    MyCustomError,
>)
    ensures
        match crate::format_parser::compile(source_format@) {
            None => r matches Err(MyCustomError::ParseError(_)),
            Some(src) => match crate::format_parser::compile(target_format@) {
                None => r matches Err(MyCustomError::ParseError(_)),
                Some(tgt) => match crate::filename_parser::extract_at(
                    src,
                    0,
                    stem@,
                    0,
                    crate::filename_parser::empty_data(
                        crate::format_parser::count_pct(source_format@, source_format@.len() as int),
                    ),
                ) {
                    None => r matches Err(MyCustomError::Default(_)),
                    Some(dv) => if crate::render::can_render(tgt, dv) {
                        r is Ok && r.unwrap()@ == crate::render::render_seq(tgt, dv)
                    } else {
                        r matches Err(MyCustomError::MissingFieldError(_))
                    },
                },
            },
        },
{
    let mut source = FormatParser::new(source_format);
    source.parse()?;
    let mut target = FormatParser::new(target_format);
    target.parse()?;
    process(&source, &target, stem)
}

} // verus!
