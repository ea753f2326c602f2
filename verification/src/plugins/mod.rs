//! Plugins that turn code blocks of certain languages into markup of their
//! own, and the scripts and styles that markup needs.

use crate::gui::types::ThemeMode;
use crate::text::string_views;
use vstd::prelude::*;

pub mod katex;
pub mod manager;
pub mod mermaid;

verus! {

/// What a plugin is told about the document it works on.
pub struct PluginContext {
    pub theme_mode: ThemeMode,
    pub is_streaming: bool,
    pub content_id: String,
}

pub struct PluginContextView {
    pub theme_mode: ThemeMode,
    pub is_streaming: bool,
    pub content_id: Seq<char>,
}

impl View for PluginContext {
    type V = PluginContextView;

    open spec fn view(&self) -> PluginContextView {
        PluginContextView {
            theme_mode: self.theme_mode,
            is_streaming: self.is_streaming,
            content_id: self.content_id@,
        }
    }
}

impl Clone for PluginContext {
    fn clone(&self) -> (copy: PluginContext)
        ensures
            copy@ == self@,
    {
        PluginContext {
            theme_mode: self.theme_mode,
            is_streaming: self.is_streaming,
            content_id: self.content_id.clone(),
        }
    }
}

/// What a plugin makes of a code block.
#[derive(Debug)]
pub struct PluginResult {
    pub html: String,
    pub javascript: Option<String>,
    pub css: Option<String>,
}

pub struct PluginResultView {
    pub html: Seq<char>,
    pub javascript: Option<Seq<char>>,
    pub css: Option<Seq<char>>,
}

/// The view of a string that may be absent.
pub open spec fn optional_view(text: Option<String>) -> Option<Seq<char>> {
    match text {
        Some(held) => Some(held@),
        None => None,
    }
}

impl View for PluginResult {
    type V = PluginResultView;

    open spec fn view(&self) -> PluginResultView {
        PluginResultView {
            html: self.html@,
            javascript: optional_view(self.javascript),
            css: optional_view(self.css),
        }
    }
}

/// The view of a result that may be absent.
pub open spec fn optional_result(result: Option<PluginResult>) -> Option<PluginResultView> {
    match result {
        Some(held) => Some(held@),
        None => None,
    }
}

impl Clone for PluginResult {
    fn clone(&self) -> (copy: PluginResult)
        ensures
            copy@ == self@,
    {
        PluginResult {
            html: self.html.clone(),
            javascript: match &self.javascript {
                Some(script) => Some(script.clone()),
                None => None,
            },
            css: match &self.css {
                Some(styles) => Some(styles.clone()),
                None => None,
            },
        }
    }
}

/// Why a plugin could not start or stop.
#[derive(Debug)]
pub struct PluginError {
    pub message: String,
}

/// What every plugin offers.
///
/// The spec functions say what the plugin is: which languages it handles,
/// what it makes of a block, which scripts and styles it needs. The
/// executable methods hand out exactly that.
pub trait Plugin: Send + Sync {
    spec fn plugin_name(&self) -> Seq<char>;

    spec fn plugin_version(&self) -> Seq<char>;

    /// Whether the plugin handles code blocks in `language`.
    spec fn handles(&self, language: Seq<char>) -> bool;

    /// What the plugin makes of a code block.
    spec fn processed(&self, content: Seq<char>, language: Seq<char>, context: PluginContextView) -> Option<
        PluginResultView,
    >;

    /// The script the page needs for the plugin's markup.
    spec fn javascript(&self, context: PluginContextView) -> Option<Seq<char>>;

    /// The styles the page needs for the plugin's markup.
    spec fn css(&self, context: PluginContextView) -> Option<Seq<char>>;

    /// The addresses of the scripts the page has to load.
    spec fn external_scripts(&self) -> Seq<Seq<char>>;

    /// The addresses of the stylesheets the page has to load.
    spec fn external_css(&self) -> Seq<Seq<char>>;

    /// Whether the plugin has been started and not stopped since.
    spec fn is_started(&self) -> bool;

    /// Whether the plugin, as it is, starts when it is asked to.
    spec fn starts(&self) -> bool;

    /// Whether the plugin, as it is, stops when it is asked to.
    spec fn stops(&self) -> bool;

    fn name(&self) -> (name: &'static str)
        ensures
            name@ == self.plugin_name(),
    ;

    fn version(&self) -> (version: &'static str)
        ensures
            version@ == self.plugin_version(),
    ;

    fn handles_language(&self, language: &str) -> (handled: bool)
        ensures
            handled == self.handles(language@),
    ;

    fn process_code_block(&self, content: &str, language: &str, context: &PluginContext) -> (result:
        Option<PluginResult>)
        ensures
            optional_result(result) == self.processed(content@, language@, context@),
    ;

    fn get_javascript(&self, context: &PluginContext) -> (script: Option<String>)
        ensures
            optional_view(script) == self.javascript(context@),
    ;

    fn get_css(&self, context: &PluginContext) -> (styles: Option<String>)
        ensures
            optional_view(styles) == self.css(context@),
    ;

    fn get_external_scripts(&self) -> (urls: Vec<String>)
        ensures
            string_views(urls@) == self.external_scripts(),
    ;

    fn get_external_css(&self) -> (urls: Vec<String>)
        ensures
            string_views(urls@) == self.external_css(),
    ;

    /// Called once before the plugin is registered. A plugin that starts
    /// is started afterwards. Starting changes nothing of what the plugin
    /// handles, makes and needs, nor whether it starts and stops.
    fn initialize(&mut self) -> (outcome: Result<(), PluginError>)
        ensures
            outcome is Ok <==> old(self).starts(),
            outcome is Ok ==> final(self).is_started(),
            final(self).starts() == old(self).starts(),
            final(self).stops() == old(self).stops(),
            final(self).plugin_name() == old(self).plugin_name(),
            final(self).plugin_version() == old(self).plugin_version(),
            final(self).external_scripts() == old(self).external_scripts(),
            final(self).external_css() == old(self).external_css(),
            forall|language: Seq<char>|
                #[trigger] final(self).handles(language) == old(self).handles(language),
            forall|content: Seq<char>, language: Seq<char>, context: PluginContextView|
                #[trigger] final(self).processed(content, language, context) == old(
                    self,
                ).processed(content, language, context),
            forall|context: PluginContextView|
                #[trigger] final(self).javascript(context) == old(self).javascript(context),
            forall|context: PluginContextView|
                #[trigger] final(self).css(context) == old(self).css(context),
    ;

    /// Called when the plugins are shut down. A plugin that stops is no
    /// longer started afterwards. Stopping changes nothing of what the
    /// plugin handles, makes and needs, nor whether it starts and stops.
    fn shutdown(&mut self) -> (outcome: Result<(), PluginError>)
        ensures
            outcome is Ok <==> old(self).stops(),
            outcome is Ok ==> !final(self).is_started(),
            final(self).starts() == old(self).starts(),
            final(self).stops() == old(self).stops(),
            final(self).plugin_name() == old(self).plugin_name(),
            final(self).plugin_version() == old(self).plugin_version(),
            final(self).external_scripts() == old(self).external_scripts(),
            final(self).external_css() == old(self).external_css(),
            forall|language: Seq<char>|
                #[trigger] final(self).handles(language) == old(self).handles(language),
            forall|content: Seq<char>, language: Seq<char>, context: PluginContextView|
                #[trigger] final(self).processed(content, language, context) == old(
                    self,
                ).processed(content, language, context),
            forall|context: PluginContextView|
                #[trigger] final(self).javascript(context) == old(self).javascript(context),
            forall|context: PluginContextView|
                #[trigger] final(self).css(context) == old(self).css(context),
    ;
}

/// What a plugin is for.
#[derive(Clone, Copy, Debug, PartialEq, Eq, Structural)]
pub enum PluginType {
    /// Processes code blocks of certain languages.
    CodeProcessor,
    /// Enhances how content is rendered.
    Renderer,
    /// Provides interactive features.
    Interactive,
}

} // verus!
