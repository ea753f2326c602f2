//! The plugin manager: it keeps the registered plugins in order and sends
//! each code block to the plugin that handles its language.

use crate::plugins::katex::{is_math_language, math_result, math_script, LatexPlugin, MATH_LIBRARY, MATH_PLUGIN_NAME, MATH_PLUGIN_VERSION, MATH_STYLES, MATH_STYLESHEET};
use crate::plugins::mermaid::{diagram_result, diagram_script, MermaidPlugin, DIAGRAM_LANGUAGE, DIAGRAM_LIBRARY, DIAGRAM_PLUGIN_NAME, DIAGRAM_PLUGIN_VERSION, DIAGRAM_STYLES};
use crate::plugins::{optional_result, Plugin, PluginContext, PluginContextView, PluginError, PluginResult};
use crate::text::{joined, lemma_lex_less_total, lemma_lex_less_transitive, lex_less, sorted_distinct, str_equals, string_views, text_less, to_chars};
use vstd::prelude::*;
use vstd::string::*;

verus! {

/// The text put between the scripts, and between the styles, of
/// different plugins.
pub const SECTION_SEPARATOR: &'static str = "\n\n";

/// Something as the manager holds it.
pub struct Registered<P> {
    pub plugin: P,
}

/// A plugin as the manager holds it.
pub type RegisteredPlugin = Registered<Box<dyn Plugin>>;

/// A language and the index of the plugin that was found to handle it.
pub struct LanguageEntry {
    pub language: String,
    pub index: usize,
}

/// Registers plugins and runs them.
pub struct PluginManager {
    plugins: Vec<RegisteredPlugin>,
    language_map: Vec<LanguageEntry>,
}

/// Two registered plugins that handle, make and need the same, under the
/// same name.
pub open spec fn same_plugin(a: RegisteredPlugin, b: RegisteredPlugin) -> bool {
    &&& a.plugin.starts() == b.plugin.starts()
    &&& a.plugin.stops() == b.plugin.stops()
    &&& a.plugin.plugin_name() == b.plugin.plugin_name()
    &&& a.plugin.plugin_version() == b.plugin.plugin_version()
    &&& a.plugin.external_scripts() == b.plugin.external_scripts()
    &&& a.plugin.external_css() == b.plugin.external_css()
    &&& forall|language: Seq<char>|
        #[trigger] a.plugin.handles(language) == b.plugin.handles(language)
    &&& forall|content: Seq<char>, language: Seq<char>, context: PluginContextView|
        #[trigger] a.plugin.processed(content, language, context) == b.plugin.processed(
            content,
            language,
            context,
        )
    &&& forall|context: PluginContextView|
        #[trigger] a.plugin.javascript(context) == b.plugin.javascript(context)
    &&& forall|context: PluginContextView| #[trigger] a.plugin.css(context) == b.plugin.css(context)
}

/// The entry holds the diagram plugin.
pub open spec fn is_diagram_plugin(entry: RegisteredPlugin) -> bool {
    &&& entry.plugin.starts()
    &&& entry.plugin.stops()
    &&& entry.plugin.plugin_name() == DIAGRAM_PLUGIN_NAME@
    &&& entry.plugin.plugin_version() == DIAGRAM_PLUGIN_VERSION@
    &&& entry.plugin.external_scripts() == seq![DIAGRAM_LIBRARY@]
    &&& entry.plugin.external_css() == Seq::<Seq<char>>::empty()
    &&& forall|language: Seq<char>|
        #[trigger] entry.plugin.handles(language) == (language == DIAGRAM_LANGUAGE@)
    &&& forall|content: Seq<char>, language: Seq<char>, context: PluginContextView|
        #[trigger] entry.plugin.processed(content, language, context) == diagram_result(
            content,
            language,
        )
    &&& forall|context: PluginContextView|
        #[trigger] entry.plugin.javascript(context) == Some(diagram_script(context.theme_mode))
    &&& forall|context: PluginContextView| #[trigger] entry.plugin.css(context) == Some(DIAGRAM_STYLES@)
}

/// The entry holds the formula plugin.
pub open spec fn is_formula_plugin(entry: RegisteredPlugin) -> bool {
    &&& entry.plugin.starts()
    &&& entry.plugin.stops()
    &&& entry.plugin.plugin_name() == MATH_PLUGIN_NAME@
    &&& entry.plugin.plugin_version() == MATH_PLUGIN_VERSION@
    &&& entry.plugin.external_scripts() == seq![MATH_LIBRARY@]
    &&& entry.plugin.external_css() == seq![MATH_STYLESHEET@]
    &&& forall|language: Seq<char>|
        #[trigger] entry.plugin.handles(language) == is_math_language(language)
    &&& forall|content: Seq<char>, language: Seq<char>, context: PluginContextView|
        #[trigger] entry.plugin.processed(content, language, context) == math_result(content, language)
    &&& forall|context: PluginContextView|
        #[trigger] entry.plugin.javascript(context) == Some(math_script(context.theme_mode))
    &&& forall|context: PluginContextView| #[trigger] entry.plugin.css(context) == Some(MATH_STYLES@)
}

/// The index of the first plugin from `from` on that handles `language`.
pub open spec fn first_handler(plugins: Seq<RegisteredPlugin>, language: Seq<char>, from: int) -> Option<int>
    decreases plugins.len() - from,
{
    if from < 0 || from >= plugins.len() {
        None
    } else if plugins[from].plugin.handles(language) {
        Some(from)
    } else {
        first_handler(plugins, language, from + 1)
    }
}

/// The index remembered for `language`, from the first entry that names it.
pub open spec fn remembered(entries: Seq<(Seq<char>, usize)>, language: Seq<char>, from: int) -> Option<
    usize,
>
    decreases entries.len() - from,
{
    if from < 0 || from >= entries.len() {
        None
    } else if entries[from].0 == language {
        Some(entries[from].1)
    } else {
        remembered(entries, language, from + 1)
    }
}

/// The plugin that a code block in `language` goes to: the one remembered
/// for the language, or else the first that handles it.
pub open spec fn target(
    plugins: Seq<RegisteredPlugin>,
    entries: Seq<(Seq<char>, usize)>,
    language: Seq<char>,
) -> Option<int> {
    match remembered(entries, language, 0) {
        Some(index) => if index < plugins.len() {
            Some(index as int)
        } else {
            first_handler(plugins, language, 0)
        },
        None => first_handler(plugins, language, 0),
    }
}

/// Whether the plugin for `language` is found by looking through the
/// plugins, and is therefore remembered anew.
pub open spec fn looked_up(
    plugins: Seq<RegisteredPlugin>,
    entries: Seq<(Seq<char>, usize)>,
    language: Seq<char>,
) -> bool {
    match remembered(entries, language, 0) {
        Some(index) => index >= plugins.len(),
        None => true,
    }
}

/// The scripts of the plugins that have one, in the order of the plugins.
pub open spec fn scripts_of(plugins: Seq<RegisteredPlugin>, context: PluginContextView) -> Seq<Seq<char>>
    decreases plugins.len(),
{
    if plugins.len() == 0 {
        Seq::empty()
    } else {
        let before = scripts_of(plugins.drop_last(), context);
        match plugins.last().plugin.javascript(context) {
            Some(script) => before.push(script),
            None => before,
        }
    }
}

/// The styles of the plugins that have some, in the order of the plugins.
pub open spec fn styles_of(plugins: Seq<RegisteredPlugin>, context: PluginContextView) -> Seq<Seq<char>>
    decreases plugins.len(),
{
    if plugins.len() == 0 {
        Seq::empty()
    } else {
        let before = styles_of(plugins.drop_last(), context);
        match plugins.last().plugin.css(context) {
            Some(styles) => before.push(styles),
            None => before,
        }
    }
}

/// The script addresses that any of the plugins asks for.
pub open spec fn script_urls(plugins: Seq<RegisteredPlugin>) -> Set<Seq<char>>
    decreases plugins.len(),
{
    if plugins.len() == 0 {
        Set::empty()
    } else {
        script_urls(plugins.drop_last()).union(plugins.last().plugin.external_scripts().to_set())
    }
}

/// The stylesheet addresses that any of the plugins asks for.
pub open spec fn stylesheet_urls(plugins: Seq<RegisteredPlugin>) -> Set<Seq<char>>
    decreases plugins.len(),
{
    if plugins.len() == 0 {
        Set::empty()
    } else {
        stylesheet_urls(plugins.drop_last()).union(plugins.last().plugin.external_css().to_set())
    }
}

/// The name and version of each plugin, in the order of the plugins.
pub open spec fn names_of(plugins: Seq<RegisteredPlugin>) -> Seq<(Seq<char>, Seq<char>)> {
    Seq::new(
        plugins.len(),
        |i: int| (plugins[i].plugin.plugin_name(), plugins[i].plugin.plugin_version()),
    )
}

/// The views of a sequence of name and version pairs.
pub open spec fn pair_views(pairs: Seq<(String, String)>) -> Seq<(Seq<char>, Seq<char>)> {
    pairs.map_values(|p: (String, String)| (p.0@, p.1@))
}

/// Appends `part` to `out`, after the separator where a part came before.
fn push_section(out: &mut String, part: &str, follows: bool, Ghost(parts): Ghost<Seq<Seq<char>>>)
    requires
        old(out)@ == joined(parts, SECTION_SEPARATOR@),
        follows == (parts.len() > 0),
    ensures
        final(out)@ == joined(parts.push(part@), SECTION_SEPARATOR@),
{
    proof {
        assert(parts.push(part@).drop_last() =~= parts);
    }
    if follows {
        out.append(SECTION_SEPARATOR);
        out.append(part);
    } else {
        out.append(part);
        proof {
            assert(out@ =~= part@);
        }
    }
}

/// Puts `url` at its place in `urls` unless it is there already.
fn insert_sorted(urls: &mut Vec<String>, url: String)
    requires
        sorted_distinct(string_views(old(urls)@)),
    ensures
        sorted_distinct(string_views(final(urls)@)),
        string_views(final(urls)@).to_set() == string_views(old(urls)@).to_set().insert(url@),
{
    let ghost before = string_views(urls@);
    let item = to_chars(url.as_str());
    let mut at: usize = 0;
    while at < urls.len()
        invariant
            at <= urls.len(),
            item@ == url@,
            before == string_views(urls@),
            forall|k: int| 0 <= k < at ==> lex_less(#[trigger] before[k], url@),
        ensures
            at < urls.len() ==> !lex_less(before[at as int], url@),
        decreases urls.len() - at,
    {
        let held = to_chars(urls[at].as_str());
        proof {
            assert(before[at as int] == urls@[at as int]@);
        }
        if !text_less(&held, &item) {
            break ;
        }
        at += 1;
    }
    if at < urls.len() {
        let held = to_chars(urls[at].as_str());
        proof {
            assert(before[at as int] == urls@[at as int]@);
            lemma_lex_less_total(url@, before[at as int]);
        }
        if !text_less(&item, &held) {
            proof {
                assert(before[at as int] == url@);
                assert(before.to_set().contains(url@));
                assert(before.to_set().insert(url@) =~= before.to_set());
            }
            return ;
        }
    }
    urls.insert(at, url);
    proof {
        let after = string_views(urls@);
        assert(after =~= before.insert(at as int, url@));
        assert forall|i: int, j: int| 0 <= i < j < after.len() implies lex_less(
            #[trigger] after[i],
            #[trigger] after[j],
        ) by {
            if j == at {
                assert(after[i] == before[i]);
            } else if i == at {
                assert(after[j] == before[j - 1]);
                if j - 1 > at {
                    assert(lex_less(before[at as int], before[j - 1]));
                    lemma_lex_less_transitive(url@, before[at as int], before[j - 1]);
                }
            } else if i < at && j < at {
                assert(after[i] == before[i] && after[j] == before[j]);
            } else if i < at && j > at {
                assert(after[i] == before[i] && after[j] == before[j - 1]);
                if i == j - 1 {
                    assert(false);
                }
            } else {
                assert(after[i] == before[i - 1] && after[j] == before[j - 1]);
            }
        }
        assert(after.to_set() =~= before.to_set().insert(url@)) by {
            assert forall|t: Seq<char>| after.to_set().contains(t) <==> before.to_set().insert(
                url@,
            ).contains(t) by {
                if after.to_set().contains(t) {
                    let k = choose|k: int| 0 <= k < after.len() && after[k] == t;
                    if k < at {
                        assert(before[k] == t);
                    } else if k > at {
                        assert(before[k - 1] == t);
                    }
                }
                if before.to_set().contains(t) {
                    let k = choose|k: int| 0 <= k < before.len() && before[k] == t;
                    if k < at {
                        assert(after[k] == t);
                    } else {
                        assert(after[k + 1] == t);
                    }
                }
                if t == url@ {
                    assert(after[at as int] == t);
                }
            }
        }
    }
}

/// Puts each of `more` at its place in `urls`.
fn merge_sorted(urls: &mut Vec<String>, more: Vec<String>)
    requires
        sorted_distinct(string_views(old(urls)@)),
    ensures
        sorted_distinct(string_views(final(urls)@)),
        string_views(final(urls)@).to_set() == string_views(old(urls)@).to_set().union(
            string_views(more@).to_set(),
        ),
{
    let ghost start = string_views(urls@).to_set();
    let ghost added = string_views(more@);
    let mut i: usize = 0;
    proof {
        assert(added.take(0).to_set() =~= Set::<Seq<char>>::empty());
        assert(start.union(Set::empty()) =~= start);
    }
    while i < more.len()
        invariant
            i <= more.len(),
            added == string_views(more@),
            sorted_distinct(string_views(urls@)),
            string_views(urls@).to_set() == start.union(added.take(i as int).to_set()),
        decreases more.len() - i,
    {
        proof {
            assert(added[i as int] == more@[i as int]@);
            let grown = added.take(i + 1);
            let prior = added.take(i as int);
            assert(grown.to_set() =~= prior.to_set().insert(added[i as int])) by {
                assert forall|t: Seq<char>| grown.to_set().contains(t) <==> prior.to_set().insert(
                    added[i as int],
                ).contains(t) by {
                    if grown.to_set().contains(t) {
                        let k = choose|k: int| 0 <= k < grown.len() && grown[k] == t;
                        if k < i {
                            assert(prior[k] == t);
                        }
                    }
                    if prior.to_set().contains(t) {
                        let k = choose|k: int| 0 <= k < prior.len() && prior[k] == t;
                        assert(grown[k] == t);
                    }
                    if t == added[i as int] {
                        assert(grown[i as int] == t);
                    }
                }
            }
            assert(start.union(prior.to_set()).insert(added[i as int]) =~= start.union(
                grown.to_set(),
            ));
        }
        insert_sorted(urls, more[i].clone());
        i += 1;
    }
    proof {
        assert(added.take(more.len() as int) =~= added);
    }
}

impl PluginManager {
    /// The registered plugins, in the order of their registration.
    pub closed spec fn plugins(&self) -> Seq<RegisteredPlugin> {
        self.plugins@
    }

    /// The languages looked up so far, each with the index found for it.
    pub closed spec fn language_entries(&self) -> Seq<(Seq<char>, usize)> {
        self.language_map@.map_values(|e: LanguageEntry| (e.language@, e.index))
    }

    /// A manager without plugins.
    pub fn new() -> (manager: PluginManager)
        ensures
            manager.plugins() == Seq::<RegisteredPlugin>::empty(),
            manager.language_entries() == Seq::<(Seq<char>, usize)>::empty(),
    {
        let manager = PluginManager { plugins: Vec::new(), language_map: Vec::new() };
        proof {
            assert(manager.language_entries() =~= Seq::<(Seq<char>, usize)>::empty());
        }
        manager
    }

    /// The number of registered plugins.
    pub fn plugin_count(&self) -> (count: usize)
        ensures
            count == self.plugins().len(),
    {
        self.plugins.len()
    }

    /// Starts a plugin and adds it behind those registered. A plugin that
    /// does not start is not added, and its error is handed back. The
    /// plugin that is added is the given one, started: it handles, makes
    /// and needs what the given one does.
    pub fn register_plugin(&mut self, plugin: Box<dyn Plugin>) -> (outcome: Result<(), PluginError>)
        ensures
            final(self).language_entries() == old(self).language_entries(),
            outcome is Ok <==> plugin.starts(),
            outcome is Err ==> final(self).plugins() == old(self).plugins(),
            outcome is Ok ==> final(self).plugins().len() == old(self).plugins().len() + 1,
            outcome is Ok ==> final(self).plugins().drop_last() == old(self).plugins(),
            outcome is Ok ==> final(self).plugins().last().plugin.is_started(),
            outcome is Ok ==> final(self).plugins().last().plugin.starts() == plugin.starts(),
            outcome is Ok ==> final(self).plugins().last().plugin.stops() == plugin.stops(),
            outcome is Ok ==> final(self).plugins().last().plugin.plugin_name()
                == plugin.plugin_name(),
            outcome is Ok ==> final(self).plugins().last().plugin.plugin_version()
                == plugin.plugin_version(),
            outcome is Ok ==> final(self).plugins().last().plugin.external_scripts()
                == plugin.external_scripts(),
            outcome is Ok ==> final(self).plugins().last().plugin.external_css()
                == plugin.external_css(),
            outcome is Ok ==> forall|language: Seq<char>|
                #[trigger] final(self).plugins().last().plugin.handles(language) == plugin.handles(
                    language,
                ),
            outcome is Ok ==> forall|content: Seq<char>, language: Seq<char>, context: PluginContextView|
                #[trigger] final(self).plugins().last().plugin.processed(content, language, context)
                    == plugin.processed(content, language, context),
            outcome is Ok ==> forall|context: PluginContextView|
                #[trigger] final(self).plugins().last().plugin.javascript(context)
                    == plugin.javascript(context),
            outcome is Ok ==> forall|context: PluginContextView|
                #[trigger] final(self).plugins().last().plugin.css(context) == plugin.css(context),
    {
        let entry = Registered { plugin };
        self.register_entry(entry)
    }

    /// Starts the plugin of an entry and adds the entry behind those
    /// registered. An entry whose plugin does not start is not added, and
    /// the error of the plugin is handed back.
    pub fn register_entry(&mut self, entry: RegisteredPlugin) -> (outcome: Result<(), PluginError>)
        ensures
            final(self).language_entries() == old(self).language_entries(),
            outcome is Ok <==> entry.plugin.starts(),
            match outcome {
                Ok(()) => {
                    &&& final(self).plugins().len() == old(self).plugins().len() + 1
                    &&& final(self).plugins().drop_last() == old(self).plugins()
                    &&& final(self).plugins().last().plugin.is_started()
                    &&& same_plugin(final(self).plugins().last(), entry)
                },
                Err(_) => final(self).plugins() == old(self).plugins(),
            },
    {
        let mut entry = entry;
        let started = entry.plugin.initialize();
        match started {
            Ok(()) => {
                self.plugins.push(entry);
                proof {
                    assert(self.plugins@.drop_last() =~= old(self).plugins@);
                    assert(self.plugins@.last() == entry);
                }
                Ok(())
            },
            Err(error) => Err(error),
        }
    }

    fn remembered_index(&self, language: &str) -> (index: Option<usize>)
        ensures
            index == remembered(self.language_entries(), language@, 0),
    {
        let ghost entries = self.language_entries();
        let mut i: usize = 0;
        while i < self.language_map.len()
            invariant
                i <= self.language_map.len(),
                entries == self.language_entries(),
                remembered(entries, language@, 0) == remembered(entries, language@, i as int),
            decreases self.language_map.len() - i,
        {
            if str_equals(self.language_map[i].language.as_str(), language) {
                return Some(self.language_map[i].index);
            }
            i += 1;
        }
        None
    }

    fn find_handler(&self, language: &str) -> (index: Option<usize>)
        ensures
            match index {
                Some(found) => found < self.plugins().len() && first_handler(
                    self.plugins(),
                    language@,
                    0,
                ) == Some(found as int),
                None => first_handler(self.plugins(), language@, 0) is None,
            },
    {
        let mut i: usize = 0;
        while i < self.plugins.len()
            invariant
                i <= self.plugins.len(),
                first_handler(self.plugins(), language@, 0) == first_handler(
                    self.plugins(),
                    language@,
                    i as int,
                ),
            decreases self.plugins.len() - i,
        {
            if self.plugins[i].plugin.handles_language(language) {
                return Some(i);
            }
            i += 1;
        }
        None
    }

    /// Sends a code block to the plugin for its language and hands back
    /// what the plugin makes of it; `None` where no plugin handles the
    /// language. The plugin found by looking is remembered for the language.
    pub fn process_code_block(&mut self, content: &str, language: &str, context: &PluginContext) -> (result:
        Option<PluginResult>)
        ensures
            final(self).plugins() == old(self).plugins(),
            optional_result(result) == match target(
                old(self).plugins(),
                old(self).language_entries(),
                language@,
            ) {
                Some(index) => old(self).plugins()[index].plugin.processed(
                    content@,
                    language@,
                    context@,
                ),
                None => None,
            },
            final(self).language_entries() == if looked_up(
                old(self).plugins(),
                old(self).language_entries(),
                language@,
            ) {
                match first_handler(old(self).plugins(), language@, 0) {
                    Some(index) => old(self).language_entries().push((language@, index as usize)),
                    None => old(self).language_entries(),
                }
            } else {
                old(self).language_entries()
            },
    {
        match self.remembered_index(language) {
            Some(plugin_index) => {
                if plugin_index < self.plugins.len() {
                    return self.plugins[plugin_index].plugin.process_code_block(
                        content,
                        language,
                        context,
                    );
                }
            },
            None => {},
        }
        match self.find_handler(language) {
            Some(index) => {
                self.language_map.push(LanguageEntry { language: language.to_owned(), index });
                proof {
                    assert(self.language_entries() =~= old(self).language_entries().push(
                        (language@, index),
                    ));
                }
                self.plugins[index].plugin.process_code_block(content, language, context)
            },
            None => None,
        }
    }

    /// The scripts of all plugins, in their order, a blank line between.
    pub fn get_all_javascript(&self, context: &PluginContext) -> (script: String)
        ensures
            script@ == joined(scripts_of(self.plugins(), context@), SECTION_SEPARATOR@),
    {
        let mut all_js = String::new();
        let mut follows = false;
        let ghost mut parts: Seq<Seq<char>> = Seq::empty();
        let mut i: usize = 0;
        while i < self.plugins.len()
            invariant
                i <= self.plugins.len(),
                parts == scripts_of(self.plugins().take(i as int), context@),
                all_js@ == joined(parts, SECTION_SEPARATOR@),
                follows == (parts.len() > 0),
            decreases self.plugins.len() - i,
        {
            proof {
                assert(self.plugins().take(i + 1).drop_last() =~= self.plugins().take(i as int));
            }
            match self.plugins[i].plugin.get_javascript(context) {
                Some(js) => {
                    push_section(&mut all_js, js.as_str(), follows, Ghost(parts));
                    follows = true;
                    proof {
                        parts = parts.push(js@);
                    }
                },
                None => {},
            }
            i += 1;
        }
        proof {
            assert(self.plugins().take(self.plugins.len() as int) =~= self.plugins());
        }
        all_js
    }

    /// The styles of all plugins, in their order, a blank line between.
    pub fn get_all_css(&self, context: &PluginContext) -> (styles: String)
        ensures
            styles@ == joined(styles_of(self.plugins(), context@), SECTION_SEPARATOR@),
    {
        let mut all_css = String::new();
        let mut follows = false;
        let ghost mut parts: Seq<Seq<char>> = Seq::empty();
        let mut i: usize = 0;
        while i < self.plugins.len()
            invariant
                i <= self.plugins.len(),
                parts == styles_of(self.plugins().take(i as int), context@),
                all_css@ == joined(parts, SECTION_SEPARATOR@),
                follows == (parts.len() > 0),
            decreases self.plugins.len() - i,
        {
            proof {
                assert(self.plugins().take(i + 1).drop_last() =~= self.plugins().take(i as int));
            }
            match self.plugins[i].plugin.get_css(context) {
                Some(css) => {
                    push_section(&mut all_css, css.as_str(), follows, Ghost(parts));
                    follows = true;
                    proof {
                        parts = parts.push(css@);
                    }
                },
                None => {},
            }
            i += 1;
        }
        proof {
            assert(self.plugins().take(self.plugins.len() as int) =~= self.plugins());
        }
        all_css
    }

    /// The script addresses that the plugins ask for, each once, in
    /// rising order.
    pub fn get_all_external_scripts(&self) -> (urls: Vec<String>)
        ensures
            sorted_distinct(string_views(urls@)),
            string_views(urls@).to_set() == script_urls(self.plugins()),
    {
        let mut all_scripts: Vec<String> = Vec::new();
        let mut i: usize = 0;
        proof {
            assert(string_views(all_scripts@).to_set() =~= Set::<Seq<char>>::empty());
        }
        while i < self.plugins.len()
            invariant
                i <= self.plugins.len(),
                sorted_distinct(string_views(all_scripts@)),
                string_views(all_scripts@).to_set() == script_urls(self.plugins().take(i as int)),
            decreases self.plugins.len() - i,
        {
            proof {
                assert(self.plugins().take(i + 1).drop_last() =~= self.plugins().take(i as int));
            }
            let more = self.plugins[i].plugin.get_external_scripts();
            merge_sorted(&mut all_scripts, more);
            i += 1;
        }
        proof {
            assert(self.plugins().take(self.plugins.len() as int) =~= self.plugins());
        }
        all_scripts
    }

    /// The stylesheet addresses that the plugins ask for, each once, in
    /// rising order.
    pub fn get_all_external_css(&self) -> (urls: Vec<String>)
        ensures
            sorted_distinct(string_views(urls@)),
            string_views(urls@).to_set() == stylesheet_urls(self.plugins()),
    {
        let mut all_css: Vec<String> = Vec::new();
        let mut i: usize = 0;
        proof {
            assert(string_views(all_css@).to_set() =~= Set::<Seq<char>>::empty());
        }
        while i < self.plugins.len()
            invariant
                i <= self.plugins.len(),
                sorted_distinct(string_views(all_css@)),
                string_views(all_css@).to_set() == stylesheet_urls(self.plugins().take(i as int)),
            decreases self.plugins.len() - i,
        {
            proof {
                assert(self.plugins().take(i + 1).drop_last() =~= self.plugins().take(i as int));
            }
            let more = self.plugins[i].plugin.get_external_css();
            merge_sorted(&mut all_css, more);
            i += 1;
        }
        proof {
            assert(self.plugins().take(self.plugins.len() as int) =~= self.plugins());
        }
        all_css
    }

    /// The name and version of each plugin, in the order of registration.
    pub fn list_plugins(&self) -> (listed: Vec<(String, String)>)
        ensures
            pair_views(listed@) == names_of(self.plugins()),
    {
        let mut listed: Vec<(String, String)> = Vec::new();
        let mut i: usize = 0;
        while i < self.plugins.len()
            invariant
                i <= self.plugins.len(),
                listed@.len() == i,
                forall|k: int|
                    0 <= k < i ==> (#[trigger] listed@[k]).0@ == self.plugins()[k].plugin.plugin_name()
                        && listed@[k].1@ == self.plugins()[k].plugin.plugin_version(),
            decreases self.plugins.len() - i,
        {
            let name = self.plugins[i].plugin.name().to_owned();
            let version = self.plugins[i].plugin.version().to_owned();
            listed.push((name, version));
            i += 1;
        }
        proof {
            assert(pair_views(listed@) =~= names_of(self.plugins()));
        }
        listed
    }

    /// Stops every plugin. A plugin that fails to stop does not keep the
    /// others from stopping. The plugins stay registered as the plugins
    /// they are; each one that stops is no longer started.
    pub fn shutdown(&mut self) -> (outcome: Result<(), PluginError>)
        ensures
            outcome is Ok,
            final(self).plugins().len() == old(self).plugins().len(),
            final(self).language_entries() == old(self).language_entries(),
            forall|k: int|
                0 <= k < old(self).plugins().len() ==> same_plugin(
                    #[trigger] final(self).plugins()[k],
                    old(self).plugins()[k],
                ),
            forall|k: int|
                0 <= k < old(self).plugins().len() && old(self).plugins()[k].plugin.stops()
                    ==> !(#[trigger] final(self).plugins()[k]).plugin.is_started(),
    {
        let mut i: usize = 0;
        while i < self.plugins.len()
            invariant
                i <= self.plugins.len(),
                self.plugins().len() == old(self).plugins().len(),
                self.language_entries() == old(self).language_entries(),
                forall|k: int|
                    0 <= k < i ==> same_plugin(#[trigger] self.plugins()[k], old(self).plugins()[k]),
                forall|k: int|
                    0 <= k < i && old(self).plugins()[k].plugin.stops() ==> !(
                    #[trigger] self.plugins()[k]).plugin.is_started(),
                forall|k: int|
                    i <= k < self.plugins().len() ==> #[trigger] self.plugins()[k] == old(
                        self,
                    ).plugins()[k],
            decreases self.plugins.len() - i,
        {
            let ghost before = self.plugins();
            let entry = &mut self.plugins[i];
            let _ = entry.plugin.shutdown();
            proof {
                assert(same_plugin(self.plugins()[i as int], before[i as int]));
                assert forall|k: int| 0 <= k < i implies same_plugin(
                    #[trigger] self.plugins()[k],
                    old(self).plugins()[k],
                ) by {
                    assert(self.plugins()[k] == before[k]);
                }
                assert forall|k: int|
                    0 <= k < i && old(self).plugins()[k].plugin.stops() implies !(
                #[trigger] self.plugins()[k]).plugin.is_started() by {
                    assert(self.plugins()[k] == before[k]);
                }
            }
            i += 1;
        }
        Ok(())
    }
}

impl Default for PluginManager {
    fn default() -> (manager: PluginManager)
        ensures
            manager.plugins() == Seq::<RegisteredPlugin>::empty(),
    {
        PluginManager::new()
    }
}

/// Registers the plugins that come with the viewer behind those already
/// registered: the diagram plugin, then the formula plugin, both started.
pub fn initialize_plugins(manager: &mut PluginManager) -> (outcome: Result<(), PluginError>)
    ensures
        outcome is Ok,
        final(manager).language_entries() == old(manager).language_entries(),
        final(manager).plugins().len() == old(manager).plugins().len() + 2,
        final(manager).plugins().subrange(0, old(manager).plugins().len() as int) == old(
            manager,
        ).plugins(),
        final(manager).plugins()[old(manager).plugins().len() as int].plugin.is_started(),
        is_diagram_plugin(final(manager).plugins()[old(manager).plugins().len() as int]),
        final(manager).plugins()[old(manager).plugins().len() as int + 1].plugin.is_started(),
        is_formula_plugin(final(manager).plugins()[old(manager).plugins().len() as int + 1]),
{
    let mermaid_plugin: Box<dyn Plugin> = Box::new(MermaidPlugin::new());
    let diagrams = Registered { plugin: mermaid_plugin };
    match manager.register_entry(diagrams) {
        Ok(()) => {},
        Err(error) => {
            return Err(error);
        },
    }
    let ghost first = manager.plugins();
    let latex_plugin: Box<dyn Plugin> = Box::new(LatexPlugin::new());
    let formulas = Registered { plugin: latex_plugin };
    let outcome = manager.register_entry(formulas);
    proof {
        let last = manager.plugins();
        let count = old(manager).plugins().len() as int;
        assert(last[count] == last.drop_last()[count]);
        assert(first[count] == first.last());
        assert(last.subrange(0, count) =~= old(manager).plugins()) by {
            assert forall|k: int| 0 <= k < count implies last[k] == old(manager).plugins()[k] by {
                assert(last[k] == last.drop_last()[k]);
                assert(first[k] == first.drop_last()[k]);
            }
        }
    }
    outcome
}

} // verus!
