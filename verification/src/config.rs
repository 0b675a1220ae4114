//! The settings of one export: input and output files, project root, page
//! and site titles, authors, header links, math mode, export configuration.
use vstd::prelude::*;
use crate::math::MathMode;
use crate::paths;
use crate::notes;

verus! {

/// The site title when none is given.
pub const DEFAULT_SITE_TITLE: &'static str = "Learning and Computation of Phi-Equilibria";

/// The author line when none is given.
pub const DEFAULT_AUTHORS: &'static str = "Ioannis Anagnostides, Gabriele Farina, and Brian Hu Zhang";

/// The index link when none is given.
pub const DEFAULT_INDEX_HREF: &'static str = "index.html";

/// The settings of one export.
pub struct Config {
    pub input: String,
    pub output: String,
    pub root: String,
    pub title: Option<String>,
    pub site_title: String,
    pub authors: String,
    pub index_href: Option<String>,
    pub pdf_href: Option<String>,
    pub math_mode: MathMode,
    pub export_config: Option<String>,
}

pub open spec fn opt_view(o: Option<String>) -> Option<Seq<char>> {
    match o {
        Some(s) => Some(s@),
        None => None,
    }
}

impl Config {
    /// The settings from the command-line options: math mode `katex`
    /// unless given (an unknown mode is an error), output next to the
    /// input with the `.html` extension unless given, root the input's
    /// directory unless given, the index link `index.html` unless given or
    /// turned off, default site title and authors.
    pub fn from_options(
        root: Option<String>,
        title: Option<String>,
        site_title: Option<String>,
        authors: Option<String>,
        index: Option<String>,
        no_index: bool,
        pdf: Option<String>,
        math: Option<String>,
        input: String,
        output: Option<String>,
        export_config: Option<String>,
    ) -> (res: Result<Config, String>)
        ensures
            match math {
                Some(m) => m@ != "svg"@ && m@ != "katex"@ <==> res is Err,
                None => res is Ok,
            },
            res matches Err(e) ==> math matches Some(m) && e@ == crate::math::unknown_mode_message(m@),
            res matches Ok(c) ==> {
                &&& c.math_mode == match math {
                    Some(m) => if m@ == "svg"@ {
                        MathMode::Svg
                    } else {
                        MathMode::Katex
                    },
                    None => MathMode::Katex,
                }
                &&& c.input@ == input@
                &&& (output matches Some(o) ==> c.output@ == o@)
                &&& (output is None && paths::html_path(input@) is Some ==> c.output@ == paths::html_path(
                    input@,
                )->0)
                &&& (root matches Some(r) ==> c.root@ == r@)
                &&& (root is None ==> exists|p: Option<Seq<char>>| #[trigger] notes::root_for_parent(p) == c.root@)
                &&& (root is None && paths::plain_parent(input@) is Some ==> c.root@ == notes::root_for_parent(
                    paths::plain_parent(input@),
                ))
                &&& opt_view(c.title) == opt_view(title)
                &&& c.site_title@ == match site_title {
                    Some(s) => s@,
                    None => DEFAULT_SITE_TITLE@,
                }
                &&& c.authors@ == match authors {
                    Some(a) => a@,
                    None => DEFAULT_AUTHORS@,
                }
                &&& opt_view(c.index_href) == if no_index {
                    None
                } else {
                    Some(
                        match index {
                            Some(i) => i@,
                            None => DEFAULT_INDEX_HREF@,
                        },
                    )
                }
                &&& opt_view(c.pdf_href) == opt_view(pdf)
                &&& opt_view(c.export_config) == opt_view(export_config)
            },
    {
        let math_mode = match &math {
            Some(m) => match MathMode::parse(m.as_str()) {
                Ok(mode) => mode,
                Err(e) => return Err(e),
            },
            None => MathMode::Katex,
        };
        let output = match output {
            Some(o) => o,
            None => paths::with_html_extension_of(input.as_str()),
        };
        let root = match root {
            Some(r) => r,
            None => notes::default_root_for_input(input.as_str()),
        };
        let index_href = if no_index {
            None
        } else {
            Some(
                match index {
                    Some(i) => i,
                    None => DEFAULT_INDEX_HREF.to_owned(),
                },
            )
        };
        Ok(
            Config {
                input,
                output,
                root,
                title,
                site_title: match site_title {
                    Some(s) => s,
                    None => DEFAULT_SITE_TITLE.to_owned(),
                },
                authors: match authors {
                    Some(a) => a,
                    None => DEFAULT_AUTHORS.to_owned(),
                },
                index_href,
                pdf_href: pdf,
                math_mode,
                export_config,
            },
        )
    }
}

} // verus!
