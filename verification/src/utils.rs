use crate::clock::{elapsed_ms, now};
use crate::error::Error;
use crate::ordering::{
    compile_order, edge_names, has_cycle, is_sound, lemma_compile_order_is_sound,
    lemma_order_is_complete_unless_cyclic, topological_order,
};
use crate::paths::{extension, extension_of, glob_match_of, glob_matches};
use crate::text::{
    decimal, decimal_text, hex_string, hexadecimal, lowercase_of, names_of, opt_str, opt_text,
    str_eq, to_lowercase,
};
use std::collections::hash_map::DefaultHasher;
use std::hash::Hasher;
use std::time::Instant;
use vstd::array::array_as_slice;
use vstd::prelude::*;
use vstd::std_specs::hash::DefaultHasherAdditionalSpecFns;
use vstd::string::{StringExecFns, StringSliceAdditionalSpecFns};

verus! {

broadcast use vstd::array::axiom_spec_array_as_slice;

/// An extension in the form in which kinds of files are told apart: in
/// lower case.
pub fn normalize_extension(ext: Option<String>) -> (r: Option<String>)
    ensures
        match ext {
            Some(e) => r matches Some(lower) && lower@ == lowercase_of(e@),
            None => r is None,
        },
{
    match ext {
        Some(e) => Some(to_lowercase(e.as_str())),
        None => None,
    }
}

/// The extension of a path in lower case; nothing where the path has none.
pub open spec fn normalized_extension(path: Seq<char>) -> Option<Seq<char>> {
    match extension_of(path) {
        Some(e) => Some(lowercase_of(e)),
        None => None,
    }
}

/// The extension of a path, in lower case.
pub fn get_file_extension(path: &str) -> (r: Option<String>)
    ensures
        opt_text(r) == normalized_extension(path@),
{
    normalize_extension(extension(path))
}

/// Whether a normalized extension is that of a JavaScript source.
pub open spec fn javascript_extension(ext: Option<Seq<char>>) -> bool {
    ext == Some("js"@) || ext == Some("jsx"@) || ext == Some("mjs"@)
}

/// Whether a normalized extension is that of a TypeScript source.
pub open spec fn typescript_extension(ext: Option<Seq<char>>) -> bool {
    ext == Some("ts"@) || ext == Some("tsx"@)
}

pub fn is_javascript_extension(ext: Option<&str>) -> (r: bool)
    ensures
        r == javascript_extension(opt_str(ext)),
{
    match ext {
        Some(e) => str_eq(e, "js") || str_eq(e, "jsx") || str_eq(e, "mjs"),
        None => false,
    }
}

pub fn is_typescript_extension(ext: Option<&str>) -> (r: bool)
    ensures
        r == typescript_extension(opt_str(ext)),
{
    match ext {
        Some(e) => str_eq(e, "ts") || str_eq(e, "tsx"),
        None => false,
    }
}

fn as_str_option(s: &Option<String>) -> (r: Option<&str>)
    ensures
        opt_str(r) == opt_text(*s),
{
    match s {
        Some(t) => Some(t.as_str()),
        None => None,
    }
}

/// Whether the path is that of a JavaScript source: its extension is
/// `js`, `jsx` or `mjs`, in whatever case.
pub fn is_javascript_file(path: &str) -> (r: bool)
    ensures
        r == javascript_extension(normalized_extension(path@)),
{
    let ext = get_file_extension(path);
    is_javascript_extension(as_str_option(&ext))
}

/// Whether the path is that of a TypeScript source: its extension is
/// `ts` or `tsx`, in whatever case.
pub fn is_typescript_file(path: &str) -> (r: bool)
    ensures
        r == typescript_extension(normalized_extension(path@)),
{
    let ext = get_file_extension(path);
    is_typescript_extension(as_str_option(&ext))
}

/// Whether the path is that of a source that the compiler takes: of a
/// JavaScript source or of a TypeScript source.
pub fn is_supported_file(path: &str) -> (r: bool)
    ensures
        r == (javascript_extension(normalized_extension(path@)) || typescript_extension(
            normalized_extension(path@),
        )),
{
    is_javascript_file(path) || is_typescript_file(path)
}

/// Whether an extension, as written, is one of the four that are watched
/// for: `js`, `jsx`, `ts` or `tsx`.
pub fn is_target_extension(ext: Option<&str>) -> (r: bool)
    ensures
        r == (opt_str(ext) == Some("js"@) || opt_str(ext) == Some("jsx"@) || opt_str(ext) == Some(
            "ts"@,
        ) || opt_str(ext) == Some("tsx"@)),
{
    match ext {
        Some(e) => str_eq(e, "js") || str_eq(e, "jsx") || str_eq(e, "ts") || str_eq(e, "tsx"),
        None => false,
    }
}

/// The pattern that is used where the one asked for is not valid.
pub const DEFAULT_PATTERN: &'static str = "**/*.{js,ts,jsx,tsx}";

/// The first `upto` paths whose flag is set, in their order.
pub open spec fn flagged(paths: Seq<Seq<char>>, flags: Seq<bool>, upto: int) -> Seq<Seq<char>>
    decreases upto,
{
    if upto <= 0 {
        Seq::empty()
    } else if flags[upto - 1] {
        flagged(paths, flags, upto - 1).push(paths[upto - 1])
    } else {
        flagged(paths, flags, upto - 1)
    }
}

/// The paths whose flag is set, in their order.
pub fn select_flagged(paths: &Vec<String>, flags: &Vec<bool>) -> (selected: Vec<String>)
    requires
        flags.len() == paths.len(),
    ensures
        names_of(selected@) == flagged(names_of(paths@), flags@, paths.len() as int),
{
    let mut selected: Vec<String> = Vec::new();
    let mut i: usize = 0;
    assert(names_of(selected@) =~= flagged(names_of(paths@), flags@, 0));
    while i < paths.len()
        invariant
            i <= paths.len(),
            flags.len() == paths.len(),
            names_of(selected@) == flagged(names_of(paths@), flags@, i as int),
        decreases paths.len() - i,
    {
        let ghost seen = names_of(selected@);
        assert(names_of(paths@)[i as int] == paths@[i as int]@);
        if flags[i] {
            selected.push(paths[i].clone());
            assert(names_of(selected@) =~= seen.push(paths@[i as int]@));
        }
        i = i + 1;
    }
    selected
}

/// Whether a path matches a glob pattern, or, where the pattern is not
/// valid, the default pattern.
pub open spec fn pattern_matches(pattern: Seq<char>, path: Seq<char>) -> bool {
    match glob_match_of(pattern, path) {
        Some(matched) => matched,
        None => match glob_match_of(DEFAULT_PATTERN@, path) {
            Some(matched) => matched,
            None => false,
        },
    }
}

/// For each path, whether it matches the pattern.
pub open spec fn match_flags(paths: Seq<Seq<char>>, pattern: Seq<char>) -> Seq<bool> {
    Seq::new(paths.len(), |i: int| pattern_matches(pattern, paths[i]))
}

/// Of a list of paths, those that match a glob pattern, in their order.
/// Where the pattern is not valid, the default pattern takes its place.
pub fn filter_by_pattern(paths: &Vec<String>, pattern: &str) -> (selected: Vec<String>)
    ensures
        names_of(selected@) == flagged(
            names_of(paths@),
            match_flags(names_of(paths@), pattern@),
            paths.len() as int,
        ),
{
    let mut flags: Vec<bool> = Vec::new();
    let mut i: usize = 0;
    while i < paths.len()
        invariant
            i <= paths.len(),
            flags.len() == i,
            forall|j: int|
                0 <= j < i ==> flags@[j] == #[trigger] match_flags(names_of(paths@), pattern@)[j],
        decreases paths.len() - i,
    {
        assert(names_of(paths@)[i as int] == paths@[i as int]@);
        let matched = match glob_matches(pattern, paths[i].as_str()) {
            Some(m) => m,
            None => match glob_matches(DEFAULT_PATTERN, paths[i].as_str()) {
                Some(m) => m,
                None => false,
            },
        };
        flags.push(matched);
        i = i + 1;
    }
    assert(flags@ =~= match_flags(names_of(paths@), pattern@));
    select_flagged(paths, &flags)
}

/// The hash of a text: what the default hasher of the standard library
/// makes of the bytes of the text followed by one byte 0xff.
pub open spec fn text_hash(text: Seq<char>) -> u64 {
    DefaultHasher::spec_finish(seq![vstd::utf8::encode_utf8(text), seq![0xffu8]])
}

/// The hash of a text, in hexadecimal.
pub fn hash_text(text: &str) -> (hash: String)
    ensures
        hash@ == hexadecimal(text_hash(text@) as nat),
{
    let mut hasher = DefaultHasher::new();
    hasher.write(text.as_bytes());
    let end: [u8; 1] = [0xff];
    hasher.write(array_as_slice(&end));
    assert(end@ =~= seq![0xffu8]);
    assert(hasher@ =~= seq![text.spec_bytes(), seq![0xffu8]]);
    hex_string(hasher.finish())
}

/// Feeds a chunk of bytes to a hasher with `Hash::hash` of the standard
/// library for slices. How a slice is fed is not laid down: nothing is
/// claimed of the state of the hasher afterwards.
#[verifier::external_body]
fn feed_chunk(hasher: &mut DefaultHasher, chunk: &Vec<u8>) {
    std::hash::Hash::hash(chunk.as_slice(), hasher);
}

/// The hash of the content of a file that was read in chunks, in
/// hexadecimal: what the default hasher of the standard library makes of
/// the chunks, fed one after the other.
pub fn hash_chunks(chunks: &Vec<Vec<u8>>) -> (hash: String)
    ensures
        exists|h: u64| hash@ == #[trigger] hexadecimal(h as nat),
{
    let mut hasher = DefaultHasher::new();
    let mut i: usize = 0;
    while i < chunks.len()
        invariant
            i <= chunks.len(),
        decreases chunks.len() - i,
    {
        feed_chunk(&mut hasher, &chunks[i]);
        i = i + 1;
    }
    let h = hasher.finish();
    let hash = hex_string(h);
    assert(hash@ == hexadecimal(h as nat));
    hash
}

/// Which files must be compiled before which.
#[derive(Debug, Clone)]
pub struct DependencyGraph {
    pub(crate) nodes: Vec<String>,
    pub(crate) edges: Vec<(String, String)>,
}

/// The nodes after one more was added: it comes last, unless it was there.
pub open spec fn with_node(nodes: Seq<Seq<char>>, path: Seq<char>) -> Seq<Seq<char>> {
    if nodes.contains(path) {
        nodes
    } else {
        nodes.push(path)
    }
}

/// The nodes after each of the first `upto` paths was added in turn.
pub open spec fn with_nodes(nodes: Seq<Seq<char>>, paths: Seq<Seq<char>>, upto: int) -> Seq<
    Seq<char>,
>
    decreases upto,
{
    if upto <= 0 {
        nodes
    } else {
        with_node(with_nodes(nodes, paths, upto - 1), paths[upto - 1])
    }
}

impl DependencyGraph {
    /// The files of the graph, each once, in the order in which they came.
    pub closed spec fn nodes(&self) -> Seq<Seq<char>> {
        names_of(self.nodes@)
    }

    /// The pairs of a file and one that must wait for it, in the order in
    /// which they came.
    pub closed spec fn edges(&self) -> Seq<(Seq<char>, Seq<char>)> {
        edge_names(self.edges@)
    }

    /// No file is there twice.
    pub open spec fn wf(&self) -> bool {
        self.nodes().no_duplicates()
    }

    /// A graph without files.
    pub fn new() -> (g: Self)
        ensures
            g.wf(),
            g.nodes() == Seq::<Seq<char>>::empty(),
            g.edges() == Seq::<(Seq<char>, Seq<char>)>::empty(),
    {
        let g = DependencyGraph { nodes: Vec::new(), edges: Vec::new() };
        assert(g.nodes() =~= Seq::<Seq<char>>::empty());
        assert(g.edges() =~= Seq::<(Seq<char>, Seq<char>)>::empty());
        g
    }

    /// Whether the file is in the graph.
    pub fn has_node(&self, path: &str) -> (found: bool)
        ensures
            found == self.nodes().contains(path@),
    {
        let mut i: usize = 0;
        while i < self.nodes.len()
            invariant
                i <= self.nodes.len(),
                forall|j: int| 0 <= j < i ==> self.nodes@[j]@ != path@,
            decreases self.nodes.len() - i,
        {
            if str_eq(self.nodes[i].as_str(), path) {
                assert(self.nodes()[i as int] == path@);
                return true;
            }
            i = i + 1;
        }
        assert forall|j: int| 0 <= j < self.nodes().len() implies self.nodes()[j] != path@ by {
            assert(self.nodes()[j] == self.nodes@[j]@);
        }
        false
    }

    /// Adds a file. A file that is there already is not added again.
    pub fn add_node(&mut self, path: String)
        requires
            old(self).wf(),
        ensures
            final(self).wf(),
            final(self).nodes() == with_node(old(self).nodes(), path@),
            final(self).edges() == old(self).edges(),
    {
        if !self.has_node(path.as_str()) {
            let ghost before = self.nodes();
            self.nodes.push(path);
            assert(self.nodes() =~= before.push(path@));
            assert forall|i: int, j: int|
                0 <= i < self.nodes().len() && 0 <= j < self.nodes().len() && i
                    != j implies self.nodes()[i] != self.nodes()[j] by {
                if i < before.len() && j < before.len() {
                    assert(before[i] != before[j]);
                } else if i < before.len() {
                    assert(before.contains(before[i]));
                } else {
                    assert(before.contains(before[j]));
                }
            }
        }
    }

    /// Adds the rule that `from` must be compiled before `to`.
    pub fn add_edge(&mut self, from: String, to: String)
        ensures
            final(self).nodes() == old(self).nodes(),
            final(self).edges() == old(self).edges().push((from@, to@)),
    {
        self.edges.push((from, to));
        assert(self.edges() =~= old(self).edges().push((from@, to@)));
    }

    /// Whether the graph has the rule that `from` must be compiled
    /// before `to`.
    pub fn has_edge(&self, from: &str, to: &str) -> (found: bool)
        ensures
            found == self.edges().contains((from@, to@)),
    {
        let mut i: usize = 0;
        while i < self.edges.len()
            invariant
                i <= self.edges.len(),
                forall|j: int| 0 <= j < i ==> self.edges()[j] != (from@, to@),
            decreases self.edges.len() - i,
        {
            assert(self.edges()[i as int] == (self.edges@[i as int].0@, self.edges@[i as int].1@));
            if str_eq(self.edges[i].0.as_str(), from) && str_eq(self.edges[i].1.as_str(), to) {
                return true;
            }
            i = i + 1;
        }
        false
    }

    /// The files of the graph in an order in which they can be compiled:
    /// each after the files that must come before it, and among those
    /// that could come next the one that came first. Where files wait for
    /// each other in a circle there is no such order, and the graph is
    /// refused.
    pub fn topological_sort(&self) -> (r: Result<Vec<String>, Error>)
        requires
            self.wf(),
        ensures
            r is Err <==> has_cycle(self.nodes(), self.edges()),
            match r {
                Ok(order) => names_of(order@) == compile_order(self.nodes(), self.edges())
                    && order.len() == self.nodes().len() && is_sound(
                    self.nodes(),
                    self.edges(),
                    names_of(order@),
                ) && forall|x: Seq<char>| self.nodes().contains(x) <==> names_of(order@).contains(x),
                Err(e) => e matches Error::ConfigError(m) && m@ == "依赖图中存在循环依赖"@,
            },
    {
        let order = topological_order(&self.nodes, &self.edges);
        proof {
            lemma_compile_order_is_sound(self.nodes(), self.edges());
            lemma_order_is_complete_unless_cyclic(self.nodes(), self.edges());
        }
        if order.len() == self.nodes.len() {
            Ok(order)
        } else {
            Err(Error::ConfigError("依赖图中存在循环依赖".to_owned()))
        }
    }

    /// The files of the graph.
    pub fn get_nodes(&self) -> (nodes: &Vec<String>)
        ensures
            names_of(nodes@) == self.nodes(),
    {
        &self.nodes
    }

    /// The rules of the graph.
    pub fn get_edges(&self) -> (edges: &Vec<(String, String)>)
        ensures
            edge_names(edges@) == self.edges(),
    {
        &self.edges
    }
}

/// The graph of the entry points: each of them a file, and no rule.
pub fn get_dependency_graph(entry_points: &Vec<String>, search_dirs: &Vec<String>) -> (r: Result<
    DependencyGraph,
    Error,
>)
    ensures
        r matches Ok(g) && g.wf() && g.nodes() == with_nodes(
            Seq::empty(),
            names_of(entry_points@),
            entry_points.len() as int,
        ) && g.edges() == Seq::<(Seq<char>, Seq<char>)>::empty(),
{
    let mut graph = DependencyGraph::new();
    let mut i: usize = 0;
    while i < entry_points.len()
        invariant
            i <= entry_points.len(),
            graph.wf(),
            graph.nodes() == with_nodes(Seq::empty(), names_of(entry_points@), i as int),
            graph.edges() == Seq::<(Seq<char>, Seq<char>)>::empty(),
        decreases entry_points.len() - i,
    {
        graph.add_node(entry_points[i].clone());
        i = i + 1;
    }
    Ok(graph)
}

/// A stopwatch with named checkpoints, each with the milliseconds that
/// had passed when it was taken.
pub struct Timer {
    pub(crate) start: Instant,
    pub(crate) checkpoints: Vec<(String, u64)>,
}

pub open spec fn checkpoints_model(s: Seq<(String, u64)>) -> Seq<(Seq<char>, u64)> {
    Seq::new(s.len(), |i: int| (s[i].0@, s[i].1))
}

/// A checkpoint: its name and the milliseconds that had passed.
pub open spec fn checkpoint_of(name: Seq<char>, elapsed: u64) -> (Seq<char>, u64) {
    (name, elapsed)
}

/// The milliseconds between a checkpoint and the one before it; zero
/// where the clock seems to have gone back.
pub open spec fn increment(checkpoints: Seq<(Seq<char>, u64)>, i: int) -> nat {
    let before: u64 = if i > 0 {
        checkpoints[i - 1].1
    } else {
        0
    };
    if checkpoints[i].1 >= before {
        (checkpoints[i].1 - before) as nat
    } else {
        0
    }
}

/// The line of the summary for one checkpoint.
pub open spec fn checkpoint_line(checkpoints: Seq<(Seq<char>, u64)>, i: int) -> Seq<char> {
    "  "@ + checkpoints[i].0 + ": "@ + decimal(checkpoints[i].1 as nat) + "ms (增量: "@ + decimal(
        increment(checkpoints, i),
    ) + "ms)"@
}

/// The summary of a stopwatch: a heading, then a note that there is no
/// checkpoint, or a line for each checkpoint and one for the whole time.
pub open spec fn summary_lines(checkpoints: Seq<(Seq<char>, u64)>, total_ms: u64) -> Seq<Seq<char>> {
    if checkpoints.len() == 0 {
        seq!["性能计时器汇总:"@, "  没有记录任何检查点"@]
    } else {
        seq!["性能计时器汇总:"@] + Seq::new(
            checkpoints.len(),
            |i: int| checkpoint_line(checkpoints, i),
        ) + seq!["  总耗时: "@ + decimal(total_ms as nat) + "ms"@]
    }
}

/// Writes the summary of a list of checkpoints and of the whole time.
pub fn summarize(checkpoints: &Vec<(String, u64)>, total_ms: u64) -> (lines: Vec<String>)
    ensures
        names_of(lines@) == summary_lines(checkpoints_model(checkpoints@), total_ms),
{
    let ghost model = checkpoints_model(checkpoints@);
    let mut lines: Vec<String> = Vec::new();
    lines.push("性能计时器汇总:".to_owned());
    if checkpoints.len() == 0 {
        lines.push("  没有记录任何检查点".to_owned());
        assert(names_of(lines@) =~= summary_lines(model, total_ms));
        return lines;
    }
    let mut previous: u64 = 0;
    let mut i: usize = 0;
    while i < checkpoints.len()
        invariant
            i <= checkpoints.len(),
            model == checkpoints_model(checkpoints@),
            lines.len() == i + 1,
            lines@[0]@ == "性能计时器汇总:"@,
            previous == (if i > 0 {
                model[i - 1].1
            } else {
                0
            }),
            forall|j: int| 0 <= j < i ==> lines@[j + 1]@ == checkpoint_line(model, j),
        decreases checkpoints.len() - i,
    {
        let at = checkpoints[i].1;
        assert(model[i as int] == (checkpoints@[i as int].0@, checkpoints@[i as int].1));
        let delta: u64 = if at >= previous {
            at - previous
        } else {
            0
        };
        let line = "  ".to_owned().concat(checkpoints[i].0.as_str()).concat(": ").concat(
            decimal_text(at).as_str(),
        ).concat("ms (增量: ").concat(decimal_text(delta).as_str()).concat("ms)");
        assert(line@ =~= checkpoint_line(model, i as int));
        lines.push(line);
        previous = at;
        i = i + 1;
    }
    lines.push(
        "  总耗时: ".to_owned().concat(decimal_text(total_ms).as_str()).concat("ms"),
    );
    assert(names_of(lines@) =~= summary_lines(model, total_ms));
    lines
}

impl Timer {
    /// The checkpoints taken so far.
    pub closed spec fn checkpoints(&self) -> Seq<(Seq<char>, u64)> {
        checkpoints_model(self.checkpoints@)
    }

    /// The moment at which the stopwatch was started.
    pub closed spec fn started(&self) -> Instant {
        self.start
    }

    /// Starts a stopwatch.
    pub fn new() -> (t: Self)
        ensures
            t.checkpoints() == Seq::<(Seq<char>, u64)>::empty(),
    {
        let t = Timer { start: now(), checkpoints: Vec::new() };
        assert(t.checkpoints() =~= Seq::<(Seq<char>, u64)>::empty());
        t
    }

    /// Takes a checkpoint under a name: the checkpoints are those before
    /// and then the new one, with the milliseconds that the clock gives.
    /// The moment at which the stopwatch was started stays.
    pub fn checkpoint(&mut self, name: &str)
        ensures
            final(self).started() == old(self).started(),
            exists|elapsed: u64|
                final(self).checkpoints() == old(self).checkpoints().push(
                    #[trigger] checkpoint_of(name@, elapsed),
                ),
    {
        let elapsed = elapsed_ms(&self.start);
        self.checkpoints.push((name.to_owned(), elapsed));
        assert(self.checkpoints() =~= old(self).checkpoints().push(
            checkpoint_of(name@, elapsed),
        ));
    }

    /// The summary of the stopwatch, in lines.
    pub fn print_summary(&self) -> (lines: Vec<String>)
        ensures
            exists|total_ms: u64| names_of(lines@) == #[trigger] summary_lines(
                self.checkpoints(),
                total_ms,
            ),
    {
        let total_ms = elapsed_ms(&self.start);
        let lines = summarize(&self.checkpoints, total_ms);
        assert(names_of(lines@) == summary_lines(self.checkpoints(), total_ms));
        lines
    }

    /// The milliseconds since the stopwatch was started.
    pub fn total_elapsed(&self) -> u64 {
        elapsed_ms(&self.start)
    }
}

} // verus!
