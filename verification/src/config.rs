use crate::collections::StringMap;
use crate::text::names_of;
use vstd::prelude::*;

verus! {

/// What one compilation is asked for.
#[derive(Debug, Clone)]
pub struct CompileOptions {
    /// The source text, or the path of the file that holds it.
    pub input: String,
    pub output: Option<String>,
    pub minify: bool,
    pub sourcemap: bool,
    /// The environment to compile for, such as `es5` or `es2020`.
    pub target: String,
}

impl CompileOptions {
    /// No input, no output, nothing switched on, for `es2020`.
    pub fn default_options() -> (o: CompileOptions)
        ensures
            o.input@ == Seq::<char>::empty(),
            o.output is None,
            !o.minify,
            !o.sourcemap,
            o.target@ == "es2020"@,
    {
        CompileOptions {
            input: String::new(),
            output: None,
            minify: false,
            sourcemap: false,
            target: "es2020".to_owned(),
        }
    }
}

impl Default for CompileOptions {
    fn default() -> (o: CompileOptions)
        ensures
            o.input@ == Seq::<char>::empty(),
            o.output is None,
            !o.minify,
            !o.sourcemap,
            o.target@ == "es2020"@,
    {
        CompileOptions::default_options()
    }
}

/// The whole configuration of the compiler.
#[derive(Debug, Clone)]
pub struct Config {
    pub minify: bool,
    pub sourcemap: bool,
    /// The environment to compile for, such as `es5` or `es2020`.
    pub target: String,
    pub distributed: bool,
    pub gpu: bool,
    pub cache_enabled: bool,
    /// The most that the cache may hold, in bytes.
    pub cache_size_limit: usize,
    pub transformers: Vec<String>,
    pub plugins: Vec<String>,
    /// Options of the caller's own.
    pub options: StringMap<String>,
}

/// The texts of a map of strings.
pub open spec fn texts(m: Map<Seq<char>, String>) -> Map<Seq<char>, Seq<char>> {
    Map::new(|k: Seq<char>| m.contains_key(k), |k: Seq<char>| m[k]@)
}

impl Config {
    /// Whether this is the configuration that nothing was changed in:
    /// nothing switched on but the cache, which may hold 100 MiB, for
    /// `es2020`, with no transformer, plugin or option.
    pub open spec fn is_default(&self) -> bool {
        &&& !self.minify
        &&& !self.sourcemap
        &&& self.target@ == "es2020"@
        &&& !self.distributed
        &&& !self.gpu
        &&& self.cache_enabled
        &&& self.cache_size_limit == 104857600
        &&& self.transformers@.len() == 0
        &&& self.plugins@.len() == 0
        &&& self.options@ == Map::<Seq<char>, String>::empty()
    }

    pub fn new() -> (c: Config)
        ensures
            c.is_default(),
    {
        Config {
            minify: false,
            sourcemap: false,
            target: "es2020".to_owned(),
            distributed: false,
            gpu: false,
            cache_enabled: true,
            cache_size_limit: 104857600,
            transformers: Vec::new(),
            plugins: Vec::new(),
            options: StringMap::new(),
        }
    }

    /// Sets an option of the caller's own.
    pub fn add_option(&mut self, key: &str, value: &str)
        ensures
            texts(final(self).options@) == texts(old(self).options@).insert(key@, value@),
            final(self).minify == old(self).minify,
            final(self).sourcemap == old(self).sourcemap,
            final(self).target == old(self).target,
            final(self).distributed == old(self).distributed,
            final(self).gpu == old(self).gpu,
            final(self).cache_enabled == old(self).cache_enabled,
            final(self).cache_size_limit == old(self).cache_size_limit,
            final(self).transformers == old(self).transformers,
            final(self).plugins == old(self).plugins,
    {
        self.options.insert(key.to_owned(), value.to_owned());
        assert(texts(self.options@) =~= texts(old(self).options@).insert(key@, value@));
    }

    /// The value of an option of the caller's own.
    pub fn get_option(&self, key: &str) -> (found: Option<&String>)
        ensures
            match found {
                Some(v) => texts(self.options@).contains_key(key@) && v@ == texts(
                    self.options@,
                )[key@],
                None => !texts(self.options@).contains_key(key@),
            },
    {
        self.options.get(key)
    }

    /// Appends a plugin.
    pub fn add_plugin(&mut self, plugin: &str)
        ensures
            names_of(final(self).plugins@) == names_of(old(self).plugins@).push(plugin@),
            final(self).minify == old(self).minify,
            final(self).sourcemap == old(self).sourcemap,
            final(self).target == old(self).target,
            final(self).distributed == old(self).distributed,
            final(self).gpu == old(self).gpu,
            final(self).cache_enabled == old(self).cache_enabled,
            final(self).cache_size_limit == old(self).cache_size_limit,
            final(self).transformers == old(self).transformers,
            final(self).options == old(self).options,
    {
        self.plugins.push(plugin.to_owned());
        assert(names_of(self.plugins@) =~= names_of(old(self).plugins@).push(plugin@));
    }

    /// Appends a transformer.
    pub fn add_transformer(&mut self, transformer: &str)
        ensures
            names_of(final(self).transformers@) == names_of(old(self).transformers@).push(transformer@),
            final(self).minify == old(self).minify,
            final(self).sourcemap == old(self).sourcemap,
            final(self).target == old(self).target,
            final(self).distributed == old(self).distributed,
            final(self).gpu == old(self).gpu,
            final(self).cache_enabled == old(self).cache_enabled,
            final(self).cache_size_limit == old(self).cache_size_limit,
            final(self).plugins == old(self).plugins,
            final(self).options == old(self).options,
    {
        self.transformers.push(transformer.to_owned());
        assert(names_of(self.transformers@) =~= names_of(old(self).transformers@).push(transformer@));
    }
}

impl Default for Config {
    fn default() -> (c: Config)
        ensures
            c.is_default(),
    {
        Config::new()
    }
}

} // verus!
