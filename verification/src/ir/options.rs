use vstd::prelude::*;

verus! {

/// How code is written out.
#[derive(Debug, Clone)]
pub struct CodegenOptions {
    pub minify: bool,
    pub sourcemap: bool,
    /// The environment to write for, such as `es5` or `es2020`.
    pub target: String,
    pub inline_sources: bool,
    pub preserve_comments: bool,
}

impl CodegenOptions {
    /// Nothing switched on but the keeping of comments, for `es2020`.
    pub open spec fn is_default(&self) -> bool {
        &&& !self.minify
        &&& !self.sourcemap
        &&& self.target@ == "es2020"@
        &&& !self.inline_sources
        &&& self.preserve_comments
    }

    pub fn default_options() -> (o: CodegenOptions)
        ensures
            o.is_default(),
    {
        CodegenOptions {
            minify: false,
            sourcemap: false,
            target: "es2020".to_owned(),
            inline_sources: false,
            preserve_comments: true,
        }
    }

    /// A copy of these options.
    pub fn duplicate(&self) -> (o: CodegenOptions)
        ensures
            o.minify == self.minify,
            o.sourcemap == self.sourcemap,
            o.target@ == self.target@,
            o.inline_sources == self.inline_sources,
            o.preserve_comments == self.preserve_comments,
    {
        CodegenOptions {
            minify: self.minify,
            sourcemap: self.sourcemap,
            target: self.target.clone(),
            inline_sources: self.inline_sources,
            preserve_comments: self.preserve_comments,
        }
    }
}

impl Default for CodegenOptions {
    fn default() -> (o: CodegenOptions)
        ensures
            o.is_default(),
    {
        CodegenOptions::default_options()
    }
}

} // verus!
